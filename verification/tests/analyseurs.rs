use tp_parseur_io::config::{self, ConfigError};
use tp_parseur_io::generique::{self, ParserError};
use tp_parseur_io::ini::{self, BufferMemoire, Readable};
use tp_parseur_io::sans_doublon;
use tp_parseur_io::strict;
use tp_parseur_io::table::Table;

fn paires(t: &Table) -> Vec<(String, String)> {
    t.entrees().clone()
}

#[test]
fn ini_lignes_vides_et_remplacement() {
    let t = ini::parser_texte("utilisateur=admin\n\n  \nport = 8080\nutilisateur = root").unwrap();
    assert_eq!(
        paires(&t),
        vec![(String::from("port"), String::from("8080")), (String::from("utilisateur"), String::from("root"))]
    );
}

#[test]
fn ini_ligne_invalide_telle_quelle() {
    let r = ini::parser_texte("a=1\n  mauvaise ligne \nb=2");
    assert!(matches!(r, Err(ini::ParseError::FormatInvalide(ref l)) if l == "  mauvaise ligne "));
    let r = ini::parser_texte("# commentaire\na=1");
    assert!(matches!(r, Err(ini::ParseError::FormatInvalide(ref l)) if l == "# commentaire"));
}

#[test]
fn ini_ligne_par_ligne() {
    let mut t = Table::new();
    ini::traiter_ligne(&mut t, String::from("k = v = w")).unwrap();
    ini::traiter_ligne(&mut t, String::from("   ")).unwrap();
    assert!(ini::traiter_ligne(&mut t, String::from("x")).is_err());
    assert_eq!(t.get("k").map(|s| s.as_str()), Some("v = w"));
    assert_eq!(t.len(), 1);
}

#[test]
fn buffer_memoire() {
    let b = BufferMemoire { contenu: String::from("Ceci est en mémoire vive") };
    assert_eq!(b.lire_donnees().unwrap(), "Ceci est en mémoire vive");
}

#[test]
fn strict_un_seul_egal() {
    let t = strict::parse_content("nom = Alice\nage=30\nnom=Bob").unwrap();
    assert_eq!(t.get("nom").map(|s| s.as_str()), Some("Bob"));
    assert_eq!(t.len(), 2);
    assert!(matches!(strict::parse_content("a=b=c"), Err(strict::ParseError::InvalidLine(ref l)) if l == "a=b=c"));
    assert!(matches!(strict::parse_content("a=1\n\nb=2"), Err(strict::ParseError::InvalidLine(ref l)) if l.is_empty()));
    assert!(matches!(strict::parse_content("sans"), Err(strict::ParseError::InvalidLine(_))));
    assert_eq!(strict::parse_content("").unwrap().len(), 0);
}

#[test]
fn sans_doublon_trie_et_refuse() {
    let t = sans_doublon::parse_key_value_str("# titre\n\nzeta = 1\n  alpha=2  \n").unwrap();
    assert_eq!(
        paires(&t),
        vec![(String::from("alpha"), String::from("2")), (String::from("zeta"), String::from("1"))]
    );
    assert!(matches!(
        sans_doublon::parse_key_value_str("a=1\n  pas de separateur  "),
        Err(sans_doublon::ParseError::MalformedLine { line_number: 2, ref line }) if line == "pas de separateur"
    ));
    assert!(matches!(
        sans_doublon::parse_key_value_str("a=1\n\n  = 3"),
        Err(sans_doublon::ParseError::EmptyKey { line_number: 3 })
    ));
    assert!(matches!(
        sans_doublon::parse_key_value_str("a=1\nb=2\n a = 3"),
        Err(sans_doublon::ParseError::DuplicateKey(ref k)) if k == "a"
    ));
}

#[test]
fn config_liste_ordonnee() {
    let v = config::parse_config_str("host = localhost\nport = 8080\n# Ceci est un commentaire\nuser = admin\nport=1").unwrap();
    assert_eq!(
        v,
        vec![
            (String::from("host"), String::from("localhost")),
            (String::from("port"), String::from("8080")),
            (String::from("user"), String::from("admin")),
            (String::from("port"), String::from("1")),
        ]
    );
    assert!(matches!(config::parse_config_str("a=1\n  # indenté"), Err(ConfigError::InvalidFormat(ref l)) if l == "  # indenté"));
}

#[test]
fn generique_meme_regle() {
    let v = generique::parse_generic_str("host = localhost\nport = 8080\n# Ceci est un commentaire\nuser = admin").unwrap();
    assert_eq!(v.len(), 3);
    assert_eq!(v[2], (String::from("user"), String::from("admin")));
    assert!(matches!(generique::parse_generic_str("ligne"), Err(ParserError::MalformedLine(ref l)) if l == "ligne"));
    let mut items = Vec::new();
    generique::traiter_ligne(&mut items, String::from("a=b")).unwrap();
    generique::traiter_ligne(&mut items, String::from("#x")).unwrap();
    assert_eq!(items, vec![(String::from("a"), String::from("b"))]);
}
