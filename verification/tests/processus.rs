use tp_parseur_io::processus::{decrire_etat, decrire_priorite, EtatProcessus, GestionnaireProcessus, Priorite};

#[test]
fn creation_processus() {
    let mut gp = GestionnaireProcessus::nouveau();
    let pid = gp.creer_processus(String::from("init"), Priorite::Haute, 1024, None);

    assert_eq!(pid, 1);
    assert!(gp.trouver(pid).is_some());
}

#[test]
fn changement_etat() {
    let mut gp = GestionnaireProcessus::nouveau();
    let pid = gp.creer_processus(String::from("bash"), Priorite::Normale, 2048, None);

    gp.changer_etat(pid, EtatProcessus::EnExecution { cpu_id: 1 })
        .unwrap();

    let proc = gp.trouver(pid).unwrap();
    assert_eq!(proc.etat, EtatProcessus::EnExecution { cpu_id: 1 });
}

#[test]
fn memoire_totale() {
    let mut gp = GestionnaireProcessus::nouveau();
    gp.creer_processus(String::from("p1"), Priorite::Faible, 100, None);
    gp.creer_processus(String::from("p2"), Priorite::Normale, 300, None);

    assert_eq!(gp.memoire_totale_utilisee(), 400);
}

#[test]
fn tuer_un_processus() {
    let mut gp = GestionnaireProcessus::nouveau();
    let pid = gp.creer_processus(String::from("bash"), Priorite::Normale, 512, None);

    let code = gp.tuer_processus(pid).unwrap();
    assert_eq!(code, 0);

    let proc = gp.trouver(pid).unwrap();
    assert_eq!(proc.etat, EtatProcessus::Termine { code_retour: 0 });
}

#[test]
fn pids_successifs_et_parent() {
    let mut gp = GestionnaireProcessus::nouveau();
    let init = gp.creer_processus(String::from("init"), Priorite::Haute, 1024, None);
    let bash = gp.creer_processus(String::from("bash"), Priorite::Normale, 4096, Some(init));
    let nginx = gp.creer_processus(String::from("nginx"), Priorite::TempsReel(20), 8192, Some(init));
    assert_eq!((init, bash, nginx), (1, 2, 3));
    assert_eq!(gp.nombre(), 3);
    let p = gp.trouver(bash).unwrap();
    assert_eq!(p.nom, "bash");
    assert_eq!(p.pid_parent, Some(1));
    assert!(gp.trouver(0).is_none());
    assert!(gp.trouver(4).is_none());
}

#[test]
fn pid_introuvable() {
    let mut gp = GestionnaireProcessus::nouveau();
    gp.creer_processus(String::from("init"), Priorite::Haute, 1024, None);
    assert_eq!(
        gp.changer_etat(42, EtatProcessus::Zombie),
        Err(String::from("PID introuvable : 42"))
    );
    assert_eq!(
        gp.tuer_processus(7),
        Err(String::from("Impossible de tuer le PID 7 : introuvable"))
    );
    assert_eq!(gp.trouver(1).unwrap().etat, EtatProcessus::Pret);
}

#[test]
fn selection_par_etat() {
    let mut gp = GestionnaireProcessus::nouveau();
    let a = gp.creer_processus(String::from("a"), Priorite::Faible, 1, None);
    let b = gp.creer_processus(String::from("b"), Priorite::Faible, 2, None);
    let c = gp.creer_processus(String::from("c"), Priorite::Faible, 3, None);
    gp.changer_etat(b, EtatProcessus::Bloque { raison: String::from("disque") }).unwrap();
    gp.tuer_processus(c).unwrap();
    let prets = gp.processus_par_etat(&EtatProcessus::Pret);
    assert_eq!(prets.len(), 1);
    assert_eq!(prets[0].pid, a);
    let bloques = gp.processus_par_etat(&EtatProcessus::Bloque { raison: String::from("disque") });
    assert_eq!(bloques.len(), 1);
    assert_eq!(bloques[0].pid, b);
    assert!(gp.processus_par_etat(&EtatProcessus::Bloque { raison: String::from("réseau") }).is_empty());
    assert_eq!(gp.memoire_totale_utilisee(), 6);
}

#[test]
fn descriptions() {
    assert_eq!(decrire_etat(&EtatProcessus::Pret), "Pret");
    assert_eq!(decrire_etat(&EtatProcessus::EnExecution { cpu_id: 0 }), "EnExecution(cpu=0)");
    assert_eq!(decrire_etat(&EtatProcessus::Bloque { raison: String::from("Attente E/S disque") }), "Bloque(Attente E/S disque)");
    assert_eq!(decrire_etat(&EtatProcessus::Termine { code_retour: -12 }), "Termine(code=-12)");
    assert_eq!(decrire_etat(&EtatProcessus::Termine { code_retour: i32::MIN }), "Termine(code=-2147483648)");
    assert_eq!(decrire_etat(&EtatProcessus::Zombie), "Zombie");
    assert_eq!(decrire_priorite(&Priorite::TresFaible), "TresFaible");
    assert_eq!(decrire_priorite(&Priorite::TempsReel(20)), "TempsReel(20)");
    assert_eq!(decrire_priorite(&Priorite::TresHaute), "TresHaute");
}

#[test]
fn resume_du_gestionnaire() {
    let mut gp = GestionnaireProcessus::nouveau();
    let init = gp.creer_processus(String::from("init"), Priorite::Haute, 1024, None);
    let bash = gp.creer_processus(String::from("bash"), Priorite::Normale, 4096, Some(init));
    gp.changer_etat(bash, EtatProcessus::EnExecution { cpu_id: 0 }).unwrap();
    let lignes = gp.resume();
    assert_eq!(
        lignes,
        vec![
            String::from("=== Resume des processus ==="),
            String::from("Nombre total de processus : 2"),
            String::from("Memoire totale (Ko)       : 5120"),
            String::from("PID=1 | nom=init | etat=Pret | priorite=Haute | memoire=1024 Ko | parent=Aucun"),
            String::from("PID=2 | nom=bash | etat=EnExecution(cpu=0) | priorite=Normale | memoire=4096 Ko | parent=1"),
        ]
    );
}
