//! `key=value` text with comments, from any reader, read into a list of pairs in
//! the order of the lines.

use vstd::prelude::*;
use crate::es::message_io;
use crate::texte::concatener;
use crate::regles::{Paire, paires_de, lecture_commentee, liste_commentee, lemme_refus_garde, lire_commentee};
use crate::texte::{lignes, lignes_de, vues};

verus! {

/// What can go wrong while reading such a text.
#[derive(Debug)]
pub enum ParserError {
    /// The reader failed.
    Io(std::io::Error),
    /// A line that is neither blank nor a comment has no `'='`; it is
    /// carried as it was.
    MalformedLine(String),
}

impl ParserError {
    /// The message of the error.
    pub fn message(&self) -> (r: String)
        ensures
            match self {
                ParserError::Io(_) => "Erreur I/O : "@.is_prefix_of(r@),
                ParserError::MalformedLine(l) => r@ == "Ligne mal formée : "@ + l@,
            },
    {
        match self {
            ParserError::Io(e) => message_io("Erreur I/O : ", e),
            ParserError::MalformedLine(l) => concatener("Ligne mal formée : ", l.as_str()),
        }
    }
}

/// Takes one line into `config`.
pub fn traiter_ligne(config: &mut Vec<(String, String)>, ligne: String) -> (r: Result<(), ParserError>)
    ensures
        match lecture_commentee(ligne@) {
            None => r is Ok && paires_de(final(config)@) == paires_de(old(config)@),
            Some(Some(p)) => r is Ok && paires_de(final(config)@) == paires_de(old(config)@).push(p),
            Some(None) => paires_de(final(config)@) == paires_de(old(config)@) && (r matches Err(
                ParserError::MalformedLine(l),
            ) && l@ == ligne@),
        },
{
    match lire_commentee(ligne.as_str()) {
        Ok(None) => Ok(()),
        Ok(Some(p)) => {
            config.push(p);
            assert(paires_de(config@) =~= paires_de(old(config)@).push(lecture_commentee(ligne@)->0->0));
            Ok(())
        },
        Err(()) => Err(ParserError::MalformedLine(ligne)),
    }
}

/// Reads a whole text.
pub fn parse_generic_str(contenu: &str) -> (r: Result<Vec<(String, String)>, ParserError>)
    ensures
        match liste_commentee(lignes(contenu@)) {
            Ok(s) => r matches Ok(v) && paires_de(v@) == s,
            Err(l) => r matches Err(ParserError::MalformedLine(x)) && x@ == l,
        },
{
    let ls = lignes_de(contenu);
    let ghost vs = vues(ls@);
    let mut config: Vec<(String, String)> = Vec::new();
    let mut i: usize = 0;
    assert(vs.take(0) =~= Seq::<Seq<char>>::empty());
    assert(paires_de(config@) =~= Seq::<Paire>::empty());
    while i < ls.len()
        invariant
            i <= ls@.len(),
            vs == vues(ls@),
            vs == lignes(contenu@),
            liste_commentee(vs.take(i as int)) == Ok::<Seq<Paire>, Seq<char>>(paires_de(config@)),
        decreases ls@.len() - i,
    {
        assert(vs.take(i + 1).drop_last() =~= vs.take(i as int));
        assert(vs.take(i + 1).last() == ls@[i as int]@);
        match traiter_ligne(&mut config, ls[i].clone()) {
            Ok(()) => {},
            Err(e) => {
                proof {
                    lemme_refus_garde(|l: Seq<Seq<char>>| liste_commentee(l), vs, i + 1);
                }
                return Err(e);
            },
        }
        i += 1;
    }
    assert(vs.take(ls@.len() as int) =~= vs);
    Ok(config)
}

} // verus!
