use std::io::{Error, ErrorKind};
use tp_parseur_io::{config, generique, ini, kv, lecteurs, sans_doublon, sources, strict};

fn erreur_io() -> Error {
    Error::new(ErrorKind::Other, "disque absent")
}

#[test]
fn messages_kv() {
    assert_eq!(
        kv::ParseError::IoError(erreur_io()).message(),
        "Erreur d'entrée/sortie : disque absent"
    );
    assert_eq!(
        kv::ParseError::EmptyLine { line_number: 12 }.message(),
        "Ligne 12 vide ou composée uniquement d'espaces"
    );
    assert_eq!(
        kv::ParseError::MissingSeparator { line_number: 3, content: String::from("abc \"x\"") }.message(),
        "Séparateur '=' manquant à la ligne 3 : \"abc \\\"x\\\"\""
    );
    assert_eq!(kv::ParseError::EmptyKey { line_number: 0 }.message(), "Clé vide à la ligne 0");
}

#[test]
fn messages_ini_strict_config_generique() {
    assert_eq!(
        ini::ParseError::Io(erreur_io()).message(),
        "Erreur d'entrée/sortie : disque absent"
    );
    assert_eq!(
        ini::ParseError::FormatInvalide(String::from("sans egal")).message(),
        "Format invalide à la ligne : sans egal"
    );
    assert_eq!(strict::ParseError::Io(erreur_io()).message(), "Erreur de lecture du fichier");
    assert_eq!(
        strict::ParseError::InvalidLine(String::from("a=b=c")).message(),
        "Ligne invalide: a=b=c"
    );
    assert_eq!(
        config::ConfigError::Io(erreur_io()).message(),
        "Erreur de lecture du fichier : disque absent"
    );
    assert_eq!(
        config::ConfigError::InvalidFormat(String::from("x")).message(),
        "Format invalide à la ligne : x"
    );
    assert_eq!(generique::ParserError::Io(erreur_io()).message(), "Erreur I/O : disque absent");
    assert_eq!(
        generique::ParserError::MalformedLine(String::from("y")).message(),
        "Ligne mal formée : y"
    );
}

#[test]
fn messages_sans_doublon() {
    assert_eq!(
        sans_doublon::ParseError::Io(erreur_io()).message(),
        "erreur d'E/S: disque absent"
    );
    assert_eq!(
        sans_doublon::ParseError::MalformedLine { line_number: 105, line: String::from("bof") }.message(),
        "ligne 105 invalide: bof"
    );
    assert_eq!(
        sans_doublon::ParseError::DuplicateKey(String::from("port")).message(),
        "clé dupliquée: port"
    );
    assert_eq!(
        sans_doublon::ParseError::EmptyKey { line_number: 7 }.message(),
        "clé vide à la ligne 7"
    );
}

#[test]
fn messages_sources_et_lecteurs() {
    assert_eq!(lecteurs::ReadError::Io(erreur_io()).message(), "erreur I/O : disque absent");
    assert_eq!(lecteurs::ReadError::Empty.message(), "source vide");
    assert_eq!(sources::ReadError::Io(erreur_io()).message(), "Erreur I/O : disque absent");
    assert_eq!(
        sources::ReadError::EmptySource.message(),
        "Source vide : aucune donnée disponible"
    );
    let e = String::from_utf8(vec![0xff]).unwrap_err();
    let attendu = format!("Encodage UTF-8 invalide : {}", e);
    assert_eq!(sources::ReadError::Utf8(e).message(), attendu);
}
