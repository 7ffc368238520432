//! `key=value` configuration with comments, read into a list of pairs in
//! the order of the lines.

use vstd::prelude::*;
use crate::es::message_io;
use crate::texte::concatener;
use crate::regles::{Paire, paires_de, lecture_commentee, liste_commentee, lemme_refus_garde, lire_commentee};
use crate::texte::{lignes, lignes_de, vues};

verus! {

/// What can go wrong while reading a configuration.
#[derive(Debug)]
pub enum ConfigError {
    /// The file could not be read.
    Io(std::io::Error),
    /// A line that is neither blank nor a comment has no `'='`; it is
    /// carried as it was.
    InvalidFormat(String),
}

impl ConfigError {
    /// The message of the error.
    pub fn message(&self) -> (r: String)
        ensures
            match self {
                ConfigError::Io(_) => "Erreur de lecture du fichier : "@.is_prefix_of(r@),
                ConfigError::InvalidFormat(l) => r@ == "Format invalide à la ligne : "@ + l@,
            },
    {
        match self {
            ConfigError::Io(e) => message_io("Erreur de lecture du fichier : ", e),
            ConfigError::InvalidFormat(l) => concatener("Format invalide à la ligne : ", l.as_str()),
        }
    }
}

/// Takes one line into `config`.
pub fn traiter_ligne(config: &mut Vec<(String, String)>, ligne: String) -> (r: Result<(), ConfigError>)
    ensures
        match lecture_commentee(ligne@) {
            None => r is Ok && paires_de(final(config)@) == paires_de(old(config)@),
            Some(Some(p)) => r is Ok && paires_de(final(config)@) == paires_de(old(config)@).push(p),
            Some(None) => paires_de(final(config)@) == paires_de(old(config)@) && (r matches Err(
                ConfigError::InvalidFormat(l),
            ) && l@ == ligne@),
        },
{
    match lire_commentee(ligne.as_str()) {
        Ok(None) => Ok(()),
        Ok(Some(p)) => {
            config.push(p);
            assert(paires_de(config@) =~= paires_de(old(config)@).push(lecture_commentee(ligne@)->0->0));
            Ok(())
        },
        Err(()) => Err(ConfigError::InvalidFormat(ligne)),
    }
}

/// Reads a whole configuration text.
pub fn parse_config_str(contenu: &str) -> (r: Result<Vec<(String, String)>, ConfigError>)
    ensures
        match liste_commentee(lignes(contenu@)) {
            Ok(s) => r matches Ok(v) && paires_de(v@) == s,
            Err(l) => r matches Err(ConfigError::InvalidFormat(x)) && x@ == l,
        },
{
    let ls = lignes_de(contenu);
    let ghost vs = vues(ls@);
    let mut config: Vec<(String, String)> = Vec::new();
    let mut i: usize = 0;
    assert(vs.take(0) =~= Seq::<Seq<char>>::empty());
    assert(paires_de(config@) =~= Seq::<Paire>::empty());
    while i < ls.len()
        invariant
            i <= ls@.len(),
            vs == vues(ls@),
            vs == lignes(contenu@),
            liste_commentee(vs.take(i as int)) == Ok::<Seq<Paire>, Seq<char>>(paires_de(config@)),
        decreases ls@.len() - i,
    {
        assert(vs.take(i + 1).drop_last() =~= vs.take(i as int));
        assert(vs.take(i + 1).last() == ls@[i as int]@);
        match traiter_ligne(&mut config, ls[i].clone()) {
            Ok(()) => {},
            Err(e) => {
                proof {
                    lemme_refus_garde(|l: Seq<Seq<char>>| liste_commentee(l), vs, i + 1);
                }
                return Err(e);
            },
        }
        i += 1;
    }
    assert(vs.take(ls@.len() as int) =~= vs);
    Ok(config)
}

} // verus!
