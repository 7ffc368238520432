use tp_parseur_io::table::{comparer, Ordre, Table};

#[test]
fn ordre_des_chaines() {
    assert_eq!(comparer("a", "b"), Ordre::Avant);
    assert_eq!(comparer("ab", "a"), Ordre::Apres);
    assert_eq!(comparer("", ""), Ordre::Egal);
    assert_eq!(comparer("", "x"), Ordre::Avant);
    assert_eq!(comparer("Z", "a"), Ordre::Avant);
    assert_eq!(comparer("é", "z"), Ordre::Apres);
}

#[test]
fn lire_apres_ecrire() {
    let mut t = Table::new();
    assert!(t.is_empty());
    assert_eq!(t.insert(String::from("port"), String::from("80")), None);
    assert_eq!(t.insert(String::from("host"), String::from("a")), None);
    assert_eq!(t.insert(String::from("port"), String::from("8080")), Some(String::from("80")));
    assert_eq!(t.len(), 2);
    assert_eq!(t.get("port").map(|s| s.as_str()), Some("8080"));
    assert_eq!(t.get("host").map(|s| s.as_str()), Some("a"));
    assert_eq!(t.get("hos"), None);
}

#[test]
fn entrees_triees() {
    let mut t = Table::new();
    for k in ["m", "b", "z", "a", "mm", "b"] {
        t.insert(k.to_string(), k.to_uppercase());
    }
    let cles: Vec<&str> = t.entrees().iter().map(|e| e.0.as_str()).collect();
    assert_eq!(cles, vec!["a", "b", "m", "mm", "z"]);
}
