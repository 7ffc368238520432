use tp_parseur_io::blocs::Accumulateur;
use tp_parseur_io::lecteurs::{self, FileReader, MemoryReader, StdinReader};
use tp_parseur_io::lecture_simple;
use tp_parseur_io::lecture_tolerante;
use tp_parseur_io::sources::{process_static, rapport, rapport_de_lecture, FileSource, MemorySource, ReadError, Readable, StdinSource};

#[test]
fn source_memoire_lue_une_fois() {
    let mut s = MemorySource::new("source épuisée", "données");
    assert!(!s.is_exhausted());
    assert_eq!(s.source_name(), "source épuisée");
    assert_eq!(s.read_content().unwrap(), "données");
    assert!(s.is_exhausted());
    assert!(matches!(s.read_content(), Err(ReadError::EmptySource)));
}

#[test]
fn source_fichier_etapes() {
    let mut f = FileSource::new("sample.txt");
    assert_eq!(f.source_name(), "sample.txt");
    assert!(f.avant_lecture().is_ok());
    let echec = f.apres_lecture(Err(std::io::Error::new(std::io::ErrorKind::NotFound, "absent")));
    match echec {
        Err(ReadError::Io(e)) => {
            assert_eq!(e.kind(), std::io::ErrorKind::NotFound);
            assert_eq!(e.to_string(), "absent");
        }
        _ => panic!("une erreur d'E/S était attendue"),
    }
    assert!(!f.is_exhausted());
    assert_eq!(f.apres_lecture(Ok(String::from("texte"))).unwrap(), "texte");
    assert!(f.is_exhausted());
    assert!(matches!(f.avant_lecture(), Err(ReadError::EmptySource)));
}

#[test]
fn source_stdin_etapes() {
    let mut s = StdinSource::new();
    assert_eq!(s.source_name(), "<stdin>");
    assert!(matches!(s.apres_lecture(Ok(vec![])), Err(ReadError::EmptySource)));
    assert!(s.is_exhausted());
    let mut s = StdinSource::new();
    assert_eq!(s.apres_lecture(Ok(vec![String::from("a"), String::from("b")])).unwrap(), "a\nb");
}

#[test]
fn rapport_compte() {
    let r = rapport("buffer", "Bonjour depuis la mémoire !\nLigne deux.\nLigne trois.");
    assert_eq!(r.nom, "buffer");
    assert_eq!(r.lignes, 3);
    assert_eq!(r.mots, 9);
    assert_eq!(r.octets, "Bonjour depuis la mémoire !\nLigne deux.\nLigne trois.".len());
    assert_eq!(r.apercu.len(), 3);
    assert_eq!(r.restantes, 0);
    let r = rapport("n", "1\n2\n3\n4\n5\n6\n7");
    assert_eq!(r.apercu, vec!["1", "2", "3", "4", "5"]);
    assert_eq!(r.restantes, 2);
}

#[test]
fn traitement_statique() {
    let mut m = MemorySource::new("source A", "Alpha\nBeta\nGamma");
    let r = process_static(&mut m).unwrap();
    assert_eq!(r.nom, "source A");
    assert_eq!(r.lignes, 3);
    assert!(matches!(process_static(&mut m), Err(ReadError::EmptySource)));
    assert!(m.is_exhausted());
}

#[test]
fn rapport_de_lecture_succes_et_erreur() {
    let r = rapport_de_lecture("nom", Ok(String::from("un deux\ntrois"))).unwrap();
    assert_eq!(r.nom, "nom");
    assert_eq!(r.lignes, 2);
    assert_eq!(r.mots, 3);
    assert_eq!(r.octets, 13);
    let e = rapport_de_lecture("nom", Err(ReadError::EmptySource));
    assert!(matches!(e, Err(ReadError::EmptySource)));
}

#[test]
fn lecteurs_vides_refuses() {
    let m = MemoryReader::new("Bonjour depuis la mémoire !");
    assert_eq!(lecteurs::Readable::read_content(&m).unwrap(), "Bonjour depuis la mémoire !");
    assert_eq!(lecteurs::Readable::describe(&m), "buffer mémoire");
    assert!(matches!(lecteurs::Readable::read_content(&MemoryReader::new("")), Err(lecteurs::ReadError::Empty)));
    let f = FileReader::new("x.txt");
    assert_eq!(f.path(), "x.txt");
    assert_eq!(f.describe(), "fichier disque");
    assert!(matches!(f.accepter(Ok(String::new())), Err(lecteurs::ReadError::Empty)));
    assert_eq!(f.accepter(Ok(String::from("z"))).unwrap(), "z");
    assert_eq!(StdinReader.accepter(Ok(vec![String::from("l1"), String::from("l2")])).unwrap(), "l1\nl2");
    assert!(matches!(StdinReader.accepter(Ok(vec![String::new()])), Err(lecteurs::ReadError::Empty)));
}

#[test]
fn lecture_simple_memoire() {
    let mut m = lecture_simple::MemoryReader { content: String::from("Bonjour depuis la mémoire") };
    assert_eq!(lecture_simple::Readable::read(&mut m).unwrap(), "Bonjour depuis la mémoire");
    assert_eq!(lecture_simple::Readable::read(&mut m).unwrap(), "Bonjour depuis la mémoire");
}

#[test]
fn lecture_tolerante_message() {
    let f = lecture_tolerante::FileReader { path: String::from("absent.txt") };
    let e = std::io::Error::new(std::io::ErrorKind::NotFound, "absent");
    assert_eq!(f.contenu_ou_message(Err(e)), "Erreur lecture fichier");
    assert_eq!(f.contenu_ou_message(Ok(String::from("ok"))), "ok");
}

#[test]
fn blocs_accumules() {
    let mut a = Accumulateur::new();
    let bloc = "Lecture générique".as_bytes();
    assert!(a.ajouter(&bloc[..4], 4));
    assert!(a.ajouter(bloc, bloc.len() - 4) );
    assert!(!a.ajouter(bloc, 0));
    let mut b = Accumulateur::new();
    b.ajouter(&[0xff, 0x41], 2);
    assert!(b.terminer().is_err());
    let mut c = Accumulateur::new();
    c.ajouter("héllo".as_bytes(), "héllo".len());
    assert_eq!(c.terminer().unwrap(), "héllo");
}

#[test]
fn lecteurs_echec_de_lecture() {
    let f = FileReader::new("absent.txt");
    let e = std::io::Error::new(std::io::ErrorKind::NotFound, "absent");
    match f.accepter(Err(e)) {
        Err(lecteurs::ReadError::Io(x)) => assert_eq!(x.kind(), std::io::ErrorKind::NotFound),
        _ => panic!("une erreur d'E/S était attendue"),
    }
    let e = std::io::Error::new(std::io::ErrorKind::InvalidData, "ligne");
    match StdinReader.accepter(Err(e)) {
        Err(lecteurs::ReadError::Io(x)) => assert_eq!(x.to_string(), "ligne"),
        _ => panic!("une erreur d'E/S était attendue"),
    }
    let mut s = StdinSource::new();
    let e = std::io::Error::new(std::io::ErrorKind::InvalidData, "ligne");
    match s.apres_lecture(Err(e)) {
        Err(ReadError::Io(x)) => {
            assert_eq!(x.kind(), std::io::ErrorKind::InvalidData);
            assert_eq!(x.to_string(), "ligne");
        }
        _ => panic!("une erreur d'E/S était attendue"),
    }
    assert!(!s.is_exhausted());
    assert!(s.avant_lecture().is_ok());
}
