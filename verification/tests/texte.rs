use tp_parseur_io::texte::{
    concatener, couper, egales, egaux_sans_casse, en_decimal, joindre_chaines, lignes_de, mots_de,
    rogner, compter, vers_chars, depuis_chars, commence,
};

#[test]
fn rogner_comme_trim() {
    for s in ["", "   ", "  a b  ", "\t\n x\u{3000}", "\u{85}y\u{a0}", "z"] {
        assert_eq!(rogner(s), s.trim());
    }
}

#[test]
fn lignes_comme_lines() {
    for s in ["", "\n", "a", "a\n", "a\nb", "a\r\nb\r\n", "a\rb", "x\n\ny", "fin\r", "\r\n\r\n"] {
        let attendu: Vec<String> = s.lines().map(|l| l.to_string()).collect();
        assert_eq!(lignes_de(s), attendu, "{:?}", s);
    }
}

#[test]
fn mots_comme_split_whitespace() {
    for s in ["", "  ", "12 + 5", "  12   *\t3 ", "a\u{2003}b"] {
        let attendu: Vec<String> = s.split_whitespace().map(|l| l.to_string()).collect();
        assert_eq!(mots_de(s), attendu);
    }
}

#[test]
fn couper_au_premier() {
    assert_eq!(couper("url=http://a=b", '='), Some((String::from("url"), String::from("http://a=b"))));
    assert_eq!(couper("=", '='), Some((String::new(), String::new())));
    assert_eq!(couper("rien", '='), None);
}

#[test]
fn decimaux() {
    assert_eq!(en_decimal(0), "0");
    assert_eq!(en_decimal(9), "9");
    assert_eq!(en_decimal(10), "10");
    assert_eq!(en_decimal(1234567890), "1234567890");
    assert_eq!(en_decimal(u64::MAX), u64::MAX.to_string());
}

#[test]
fn divers() {
    assert_eq!(compter(&vers_chars("a=b=c"), '='), 2);
    assert_eq!(depuis_chars(&vers_chars("héllo")), "héllo");
    assert!(commence("#x", '#'));
    assert!(!commence("", '#'));
    assert!(!commence(" #", '#'));
    assert!(egaux_sans_casse("QuIt", "quit"));
    assert!(!egaux_sans_casse("quits", "quit"));
    assert!(egales("abc", "abc"));
    assert!(!egales("abc", "abd"));
    assert_eq!(concatener("ab", "cd"), "abcd");
    assert_eq!(joindre_chaines(&vec![String::from("a"), String::from("b"), String::from("c")], "\n"), "a\nb\nc");
    assert_eq!(joindre_chaines(&vec![], ", "), "");
}
