//! `key=value` text where every line must hold exactly one `'='`.

use vstd::prelude::*;
use crate::texte::concatener;
use crate::regles::{lemme_refus_garde, Paire, paire_rognee, couper_paire};
use crate::table::Table;
use crate::texte::{lignes, lignes_de, vues, occurrences, compter, vers_chars, coupe, rogne, loi_coupe_unique, loi_occurrences_concat, loi_occurrences_absent, loi_rogne_idempotent};

verus! {

/// What can go wrong while reading such a text.
#[derive(Debug)]
pub enum ParseError {
    /// The file could not be read.
    Io(std::io::Error),
    /// A line does not hold exactly one `'='`; it is carried as it was.
    InvalidLine(String),
}

impl ParseError {
    /// The message of the error.
    pub fn message(&self) -> (r: String)
        ensures
            match self {
                ParseError::Io(_) => r@ == "Erreur de lecture du fichier"@,
                ParseError::InvalidLine(l) => r@ == "Ligne invalide: "@ + l@,
            },
    {
        match self {
            ParseError::Io(_) => String::from_str("Erreur de lecture du fichier"),
            ParseError::InvalidLine(l) => concatener("Ligne invalide: ", l.as_str()),
        }
    }
}

/// The key and value of a line, if it holds exactly one `'='`.
pub open spec fn lecture_stricte(l: Seq<char>) -> Option<Paire> {
    if occurrences(l, '=') == 1 {
        paire_rognee(l)
    } else {
        None
    }
}

/// The map that the lines `ls` give, or the first refused line.
pub open spec fn table_stricte(ls: Seq<Seq<char>>) -> Result<Map<Seq<char>, Seq<char>>, Seq<char>>
    decreases ls.len(),
{
    if ls.len() == 0 {
        Ok(Map::empty())
    } else {
        match table_stricte(ls.drop_last()) {
            Err(l) => Err(l),
            Ok(m) => match lecture_stricte(ls.last()) {
                Some(p) => Ok(m.insert(p.0, p.1)),
                None => Err(ls.last()),
            },
        }
    }
}

/// The key and value of `l`, if it holds exactly one `'='`.
pub fn lire_ligne(l: &str) -> (r: Option<(String, String)>)
    ensures
        match r {
            Some((k, v)) => lecture_stricte(l@) == Some((k@, v@)),
            None => lecture_stricte(l@) is None,
        },
{
    let cs = vers_chars(l);
    if compter(cs.as_slice(), '=') != 1 {
        return None;
    }
    couper_paire(l)
}

/// Reads a whole text; each line must hold exactly one `'='`.
pub fn parse_content(contenu: &str) -> (r: Result<Table, ParseError>)
    ensures
        match table_stricte(lignes(contenu@)) {
            Ok(m) => r matches Ok(t) && t@ == m,
            Err(l) => r matches Err(ParseError::InvalidLine(x)) && x@ == l,
        },
{
    let ls = lignes_de(contenu);
    let ghost vs = vues(ls@);
    let mut table = Table::new();
    let mut i: usize = 0;
    assert(vs.take(0) =~= Seq::<Seq<char>>::empty());
    while i < ls.len()
        invariant
            i <= ls@.len(),
            vs == vues(ls@),
            vs == lignes(contenu@),
            table_stricte(vs.take(i as int)) == Ok::<Map<Seq<char>, Seq<char>>, Seq<char>>(
                table@,
            ),
        decreases ls@.len() - i,
    {
        assert(vs.take(i + 1).drop_last() =~= vs.take(i as int));
        assert(vs.take(i + 1).last() == ls@[i as int]@);
        match lire_ligne(ls[i].as_str()) {
            Some((k, v)) => {
                table.insert(k, v);
            },
            None => {
                proof {
                    lemme_refus_garde(|l: Seq<Seq<char>>| table_stricte(l), vs, i + 1);
                }
                return Err(ParseError::InvalidLine(ls[i].clone()));
            },
        }
        i += 1;
    }
    assert(vs.take(ls@.len() as int) =~= vs);
    Ok(table)
}

/// A line made of a key, one `'='` and a value, neither of which holds
/// `'='`, gives the key and the value, each trimmed.
pub proof fn loi_ligne_stricte(a: Seq<char>, b: Seq<char>)
    requires
        !a.contains('='),
        !b.contains('='),
    ensures
        lecture_stricte(a + seq!['='] + b) == Some((rogne(a), rogne(b))),
{
    loi_occurrences_concat(a + seq!['='], b, '=');
    loi_occurrences_concat(a, seq!['='], '=');
    loi_occurrences_absent(a, '=');
    loi_occurrences_absent(b, '=');
    assert(seq!['='].drop_last() =~= Seq::<char>::empty());
    assert(occurrences(Seq::<char>::empty(), '=') == 0);
    assert(occurrences(seq!['='], '=') == 1);
    assert(occurrences(a + seq!['='] + b, '=') == 1);
    loi_coupe_unique(a, b, '=');
}

/// What a line gives is trimmed: neither the key nor the value begins or
/// ends with whitespace.
pub proof fn loi_paire_rognee(l: Seq<char>)
    ensures
        lecture_stricte(l) matches Some((k, v)) ==> rogne(k) == k && rogne(v) == v,
{
    if let Some((x, y)) = coupe(l, '=') {
        loi_rogne_idempotent(x);
        loi_rogne_idempotent(y);
    }
}

} // verus!
