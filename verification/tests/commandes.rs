use tp_parseur_io::calculatrice::{decouper_expression, est_quitter, operateur, Operateur};
use tp_parseur_io::syswatch::{est_quit, interpreter, texte_fixe, Commande, MemInfo};

#[test]
fn commandes_du_serveur() {
    assert_eq!(interpreter("cpu"), Commande::Cpu);
    assert_eq!(interpreter("  MEM \r"), Commande::Mem);
    assert_eq!(interpreter("Ps"), Commande::Ps);
    assert_eq!(interpreter("all"), Commande::All);
    assert_eq!(interpreter("help"), Commande::Help);
    assert_eq!(interpreter("QUIT"), Commande::Quit);
    assert_eq!(interpreter("cpus"), Commande::Inconnue);
    assert_eq!(interpreter(""), Commande::Inconnue);
    assert!(est_quit(" quit "));
    assert!(!est_quit("quitter"));
    assert_eq!(texte_fixe(Commande::Help).unwrap(), "Commandes disponibles : cpu, mem, ps, all, help, quit\n");
    assert_eq!(texte_fixe(Commande::Quit).unwrap(), "quit\n");
    assert_eq!(texte_fixe(Commande::Inconnue).unwrap(), "Commande inconnue. Tape help pour la liste.\n");
    assert!(texte_fixe(Commande::Cpu).is_none());
}

#[test]
fn memoire_en_mo() {
    let m = MemInfo { total: 16 * 1024 * 1024, used: 5000 };
    assert_eq!(m.afficher(), "Mémoire : 4/16384 Mo utilisés");
}

#[test]
fn expressions_de_la_calculatrice() {
    assert_eq!(
        decouper_expression("12 * 3").unwrap(),
        (String::from("12"), String::from("*"), String::from("3"))
    );
    assert_eq!(decouper_expression("  1\t+  2 ").unwrap().1, "+");
    assert_eq!(decouper_expression("12 +").unwrap_err(), "Format invalide. Exemple attendu : 12 + 5");
    assert!(decouper_expression("1 + 2 + 3").is_err());
    assert_eq!(operateur("+").unwrap(), Operateur::Plus);
    assert_eq!(operateur("-").unwrap(), Operateur::Moins);
    assert_eq!(operateur("*").unwrap(), Operateur::Fois);
    assert_eq!(operateur("/").unwrap(), Operateur::Divise);
    assert_eq!(operateur("%").unwrap_err(), "Operateur inconnu : %");
    assert!(est_quitter("  QUITTER\n"));
    assert!(!est_quitter("quit"));
}
