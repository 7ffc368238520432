use tp_parseur_io::kv::{parse_line, parse_str, ParseError};

#[test]
fn parse_ligne_normale() {
    let result = parse_line("host = localhost", 1);
    assert!(matches!(result, Some(Ok((ref k, ref v))) if k == "host" && v == "localhost"));
}

#[test]
fn parse_valeur_avec_egal() {
    let result = parse_line("url = http://a.com?x=1", 1);
    assert!(matches!(result, Some(Ok((ref k, ref v))) if k == "url" && v == "http://a.com?x=1"));
}

#[test]
fn commentaire_ignore() {
    let result = parse_line("# je suis un commentaire", 1);
    assert!(result.is_none());
}

#[test]
fn erreur_separateur_manquant() {
    let result = parse_line("sans_egal", 3);
    assert!(matches!(result, Some(Err(ParseError::MissingSeparator { line_number: 3, .. }))));
}

#[test]
fn erreur_ligne_vide() {
    let result = parse_line("   ", 5);
    assert!(matches!(result, Some(Err(ParseError::EmptyLine { line_number: 5 }))));
}

#[test]
fn erreur_cle_vide() {
    let result = parse_line("= valeur_orpheline", 7);
    assert!(matches!(result, Some(Err(ParseError::EmptyKey { line_number: 7 }))));
}

#[test]
fn separateur_manquant_porte_la_ligne_rognee() {
    let result = parse_line("  \t sans_egal  ", 2);
    assert!(matches!(result, Some(Err(ParseError::MissingSeparator { line_number: 2, ref content })) if content == "sans_egal"));
}

#[test]
fn commentaire_apres_blancs() {
    assert!(parse_line("   # indenté", 1).is_none());
    assert!(matches!(parse_line("a#=b", 1), Some(Ok((ref k, ref v))) if k == "a#" && v == "b"));
}

#[test]
fn fichier_entier_derniere_valeur_gagne() {
    let t = parse_str("# config\nhost = a\nport=80\r\nhost = b\n").unwrap();
    assert_eq!(t.len(), 2);
    assert_eq!(t.get("host").map(|s| s.as_str()), Some("b"));
    assert_eq!(t.get("port").map(|s| s.as_str()), Some("80"));
    assert!(t.get("absent").is_none());
}

#[test]
fn fichier_entier_premiere_erreur() {
    let r = parse_str("a = 1\n\nsans\n= x\n");
    assert!(matches!(r, Err(ParseError::EmptyLine { line_number: 2 })));
    let r = parse_str("a = 1\nsans\n= x\n");
    assert!(matches!(r, Err(ParseError::MissingSeparator { line_number: 2, ref content }) if content == "sans"));
    let r = parse_str("a = 1\n= x\n");
    assert!(matches!(r, Err(ParseError::EmptyKey { line_number: 2 })));
    assert_eq!(parse_str("").unwrap().len(), 0);
}

#[test]
fn ligne_rognee_et_numero() {
    let a = parse_line("  \tcle = valeur \n", 1).unwrap().unwrap();
    let b = parse_line("cle = valeur", 40).unwrap().unwrap();
    assert_eq!(a, b);
    assert!(parse_line("  # note ", 3).is_none());
    assert!(parse_line("# note", 8).is_none());
    assert!(matches!(parse_line("   ", 7), Some(Err(ParseError::EmptyLine { line_number: 7 }))));
    assert!(matches!(parse_line("", 2), Some(Err(ParseError::EmptyLine { line_number: 2 }))));
}
