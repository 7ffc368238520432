//! `key=value` configuration text where blank lines are skipped and later
//! keys replace earlier ones; and sources of text behind one trait.

use vstd::prelude::*;
use crate::es::message_io;
use crate::texte::concatener;
use crate::regles::{lemme_refus_garde, Paire, paire_rognee, couper_paire, est_vide, vide};
use crate::table::Table;
use crate::texte::{lignes, lignes_de, vues, rogne, loi_coupe_unique};

verus! {

/// What can go wrong while reading a configuration.
#[derive(Debug)]
pub enum ParseError {
    /// The file could not be read.
    Io(std::io::Error),
    /// A line that is not blank has no `'='`; it is carried as it was.
    FormatInvalide(String),
}

impl ParseError {
    /// The message of the error.
    pub fn message(&self) -> (r: String)
        ensures
            match self {
                ParseError::Io(_) => "Erreur d'entrée/sortie : "@.is_prefix_of(r@),
                ParseError::FormatInvalide(l) => r@ == "Format invalide à la ligne : "@ + l@,
            },
    {
        match self {
            ParseError::Io(e) => message_io("Erreur d'entrée/sortie : ", e),
            ParseError::FormatInvalide(l) => concatener("Format invalide à la ligne : ", l.as_str()),
        }
    }
}

/// What one line gives: `None` when it is skipped, `Some(Some(p))` for a
/// key and its value, `Some(None)` when it is refused.
pub open spec fn lecture(l: Seq<char>) -> Option<Option<Paire>> {
    if est_vide(l) {
        None
    } else {
        Some(paire_rognee(l))
    }
}

/// The map that the lines `ls` give, or the first refused line.
pub open spec fn table_ini(ls: Seq<Seq<char>>) -> Result<Map<Seq<char>, Seq<char>>, Seq<char>>
    decreases ls.len(),
{
    if ls.len() == 0 {
        Ok(Map::empty())
    } else {
        match table_ini(ls.drop_last()) {
            Err(l) => Err(l),
            Ok(m) => match lecture(ls.last()) {
                None => Ok(m),
                Some(Some(p)) => Ok(m.insert(p.0, p.1)),
                Some(None) => Err(ls.last()),
            },
        }
    }
}

/// Takes one line into `table`.
pub fn traiter_ligne(table: &mut Table, ligne: String) -> (r: Result<(), ParseError>)
    ensures
        match lecture(ligne@) {
            None => r is Ok && final(table)@ == old(table)@,
            Some(Some(p)) => r is Ok && final(table)@ == old(table)@.insert(p.0, p.1),
            Some(None) => final(table)@ == old(table)@ && (r matches Err(
                ParseError::FormatInvalide(l),
            ) && l@ == ligne@),
        },
{
    if vide(ligne.as_str()) {
        return Ok(());
    }
    match couper_paire(ligne.as_str()) {
        Some((k, v)) => {
            table.insert(k, v);
            Ok(())
        },
        None => Err(ParseError::FormatInvalide(ligne)),
    }
}

/// Reads a whole configuration text.
pub fn parser_texte(contenu: &str) -> (r: Result<Table, ParseError>)
    ensures
        match table_ini(lignes(contenu@)) {
            Ok(m) => r matches Ok(t) && t@ == m,
            Err(l) => r matches Err(ParseError::FormatInvalide(x)) && x@ == l,
        },
{
    let ls = lignes_de(contenu);
    let ghost vs = vues(ls@);
    let mut table = Table::new();
    let mut i: usize = 0;
    assert(vs.take(0) =~= Seq::<Seq<char>>::empty());
    while i < ls.len()
        invariant
            i <= ls@.len(),
            vs == vues(ls@),
            vs == lignes(contenu@),
            table_ini(vs.take(i as int)) == Ok::<Map<Seq<char>, Seq<char>>, Seq<char>>(table@),
        decreases ls@.len() - i,
    {
        assert(vs.take(i + 1).drop_last() =~= vs.take(i as int));
        assert(vs.take(i + 1).last() == ls@[i as int]@);
        match traiter_ligne(&mut table, ls[i].clone()) {
            Ok(()) => {},
            Err(e) => {
                proof {
                    lemme_refus_garde(|l: Seq<Seq<char>>| table_ini(l), vs, i + 1);
                }
                return Err(e);
            },
        }
        i += 1;
    }
    assert(vs.take(ls@.len() as int) =~= vs);
    Ok(table)
}

/// A source that text can be read from.
pub trait Readable {
    /// All the text of the source.
    fn lire_donnees(&self) -> Result<String, std::io::Error>;
}

/// A file on disk, named by its path.
pub struct FichierDisque {
    pub chemin: String,
}

/// Text held in memory.
pub struct BufferMemoire {
    pub contenu: String,
}

impl Readable for BufferMemoire {
    /// The text held, unchanged; reading it never fails.
    fn lire_donnees(&self) -> (r: Result<String, std::io::Error>)
        ensures
            r matches Ok(s) && s@ == self.contenu@,
    {
        Ok(self.contenu.clone())
    }
}

/// The standard input.
pub struct EntreeStandard;

/// A blank line is skipped; any other line made of a key, an `'='` and a
/// value, the key holding no `'='`, gives the key and the value, each
/// trimmed.
pub proof fn loi_ligne_ini(l: Seq<char>, a: Seq<char>, b: Seq<char>)
    ensures
        rogne(l).len() == 0 ==> lecture(l) is None,
        rogne(l).len() != 0 && l == a + seq!['='] + b && !a.contains('=') ==> lecture(l) == Some(
            Some((rogne(a), rogne(b))),
        ),
{
    if l == a + seq!['='] + b && !a.contains('=') {
        loi_coupe_unique(a, b, '=');
    }
}

/// Putting a blank line anywhere among the lines changes nothing of what
/// they give.
pub proof fn loi_lignes_vides(ls: Seq<Seq<char>>, i: int, l: Seq<char>)
    requires
        0 <= i <= ls.len(),
        rogne(l).len() == 0,
    ensures
        table_ini(ls.insert(i, l)) == table_ini(ls),
    decreases ls.len(),
{
    if i == ls.len() {
        assert(ls.insert(i, l).drop_last() =~= ls);
    } else {
        assert(ls.insert(i, l).drop_last() =~= ls.drop_last().insert(i, l));
        loi_lignes_vides(ls.drop_last(), i, l);
    }
}

} // verus!
