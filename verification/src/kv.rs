//! `key=value` lines read one by one, with comments; blank lines, lines
//! without `'='` and empty keys are refused with their line number.

use vstd::prelude::*;
use crate::table::Table;
use crate::es::{avec_nombre, citer, forme_debug, message_io};
use crate::regles::{lemme_refus_garde, loi_cle_sans_egal};
use crate::texte::{lignes, lignes_de, vues, rogne, loi_rogne_idempotent, loi_coupe_unique, rogner, coupe, couper, commence_par, commence, ajouter, decimal};

verus! {

/// What can go wrong while reading such lines.
#[derive(Debug)]
pub enum ParseError {
    /// The file could not be read.
    IoError(std::io::Error),
    /// The line is blank.
    EmptyLine { line_number: usize },
    /// The line, carried trimmed, has no `'='`.
    MissingSeparator { line_number: usize, content: String },
    /// The key of the line is empty.
    EmptyKey { line_number: usize },
}

impl ParseError {
    /// The message of the error.
    pub fn message(&self) -> (r: String)
        ensures
            match self {
                ParseError::IoError(_) => "Erreur d'entrée/sortie : "@.is_prefix_of(r@),
                ParseError::EmptyLine { line_number } => r@ == "Ligne "@ + decimal(
                    *line_number as nat,
                ) + " vide ou composée uniquement d'espaces"@,
                ParseError::MissingSeparator { line_number, content } => r@
                    == "Séparateur '=' manquant à la ligne "@ + decimal(*line_number as nat)
                    + " : "@ + forme_debug(content@),
                ParseError::EmptyKey { line_number } => r@ == "Clé vide à la ligne "@ + decimal(
                    *line_number as nat,
                ),
            },
    {
        match self {
            ParseError::IoError(e) => message_io("Erreur d'entrée/sortie : ", e),
            ParseError::EmptyLine { line_number } => avec_nombre(
                "Ligne ",
                *line_number,
                " vide ou composée uniquement d'espaces",
            ),
            ParseError::MissingSeparator { line_number, content } => {
                let mut s = avec_nombre("Séparateur '=' manquant à la ligne ", *line_number, " : ");
                let c = citer(content.as_str());
                ajouter(&mut s, c.as_str());
                s
            },
            ParseError::EmptyKey { line_number } => {
                let s = avec_nombre("Clé vide à la ligne ", *line_number, "");
                proof {
                    reveal_strlit("");
                    assert(s@ =~= "Clé vide à la ligne "@ + decimal(*line_number as nat));
                }
                s
            },
        }
    }
}

/// What a line gives.
pub enum Lecture {
    Commentaire,
    Vide,
    SansSeparateur(Seq<char>),
    CleVide,
    Paire(Seq<char>, Seq<char>),
}

/// What the line `raw` gives: a comment is a trimmed line that begins with
/// `'#'`; the key and the value are cut at the first `'='` and trimmed.
pub open spec fn lecture(raw: Seq<char>) -> Lecture {
    let t = rogne(raw);
    if commence_par(t, '#') {
        Lecture::Commentaire
    } else if t.len() == 0 {
        Lecture::Vide
    } else {
        match coupe(t, '=') {
            None => Lecture::SansSeparateur(t),
            Some((k, v)) => if rogne(k).len() == 0 {
                Lecture::CleVide
            } else {
                Lecture::Paire(rogne(k), rogne(v))
            },
        }
    }
}

/// `e` is the error of a line numbered `n` that reads as `l`.
pub open spec fn erreur_de(e: ParseError, n: int, l: Lecture) -> bool {
    match l {
        Lecture::Vide => e matches ParseError::EmptyLine { line_number } && line_number == n,
        Lecture::SansSeparateur(t) => e matches ParseError::MissingSeparator {
            line_number,
            content,
        } && line_number == n && content@ == t,
        Lecture::CleVide => e matches ParseError::EmptyKey { line_number } && line_number == n,
        _ => false,
    }
}

/// Reads one line, numbered `line_number`: `None` for a comment, the key
/// and the value for a good line, the error otherwise.
pub fn parse_line(raw: &str, line_number: usize) -> (r: Option<Result<(String, String), ParseError>>)
    ensures
        match lecture(raw@) {
            Lecture::Commentaire => r is None,
            Lecture::Paire(k, v) => r matches Some(Ok(p)) && p.0@ == k && p.1@ == v,
            l => r matches Some(Err(e)) && erreur_de(e, line_number as int, l),
        },
{
    let trimmed = rogner(raw);
    if commence(trimmed.as_str(), '#') {
        return None;
    }
    if trimmed.as_str().is_empty() {
        return Some(Err(ParseError::EmptyLine { line_number }));
    }
    match couper(trimmed.as_str(), '=') {
        None => Some(Err(ParseError::MissingSeparator { line_number, content: trimmed })),
        Some((k, v)) => {
            let key = rogner(k.as_str());
            let value = rogner(v.as_str());
            if key.as_str().is_empty() {
                return Some(Err(ParseError::EmptyKey { line_number }));
            }
            Some(Ok((key, value)))
        },
    }
}

/// The map that the lines `ls` give, or the number and reading of the first
/// line that is refused (lines are numbered from 1; later keys replace
/// earlier ones).
pub open spec fn table_kv(ls: Seq<Seq<char>>) -> Result<Map<Seq<char>, Seq<char>>, (int, Lecture)>
    decreases ls.len(),
{
    if ls.len() == 0 {
        Ok(Map::empty())
    } else {
        match table_kv(ls.drop_last()) {
            Err(e) => Err(e),
            Ok(m) => match lecture(ls.last()) {
                Lecture::Commentaire => Ok(m),
                Lecture::Paire(k, v) => Ok(m.insert(k, v)),
                l => Err((ls.len() as int, l)),
            },
        }
    }
}

/// Reads a whole text.
pub fn parse_str(contenu: &str) -> (r: Result<Table, ParseError>)
    ensures
        match table_kv(lignes(contenu@)) {
            Ok(m) => r matches Ok(t) && t@ == m,
            Err((n, l)) => r matches Err(e) && erreur_de(e, n, l),
        },
{
    let ls = lignes_de(contenu);
    let ghost vs = vues(ls@);
    let mut table = Table::new();
    let mut i: usize = 0;
    assert(vs.take(0) =~= Seq::<Seq<char>>::empty());
    while i < ls.len()
        invariant
            i <= ls@.len(),
            vs == vues(ls@),
            vs == lignes(contenu@),
            table_kv(vs.take(i as int)) == Ok::<Map<Seq<char>, Seq<char>>, (int, Lecture)>(
                table@,
            ),
        decreases ls@.len() - i,
    {
        assert(vs.take(i + 1).drop_last() =~= vs.take(i as int));
        assert(vs.take(i + 1).last() == ls@[i as int]@);
        assert(vs.take(i + 1).len() == i + 1);
        match parse_line(ls[i].as_str(), i + 1) {
            None => {},
            Some(Ok((k, v))) => {
                table.insert(k, v);
            },
            Some(Err(e)) => {
                proof {
                    lemme_refus_garde(|l: Seq<Seq<char>>| table_kv(l), vs, i + 1);
                }
                return Err(e);
            },
        }
        i += 1;
    }
    assert(vs.take(ls@.len() as int) =~= vs);
    Ok(table)
}

} // verus!

verus! {

/// A line that gives a pair gives a key that is neither empty nor holds
/// `'='`: the line is cut at its first `'='`, so that any other `'='`
/// stays in the value.
pub proof fn loi_cle(raw: Seq<char>)
    ensures
        lecture(raw) matches Lecture::Paire(k, v) ==> k.len() > 0 && !k.contains('='),
{
    loi_cle_sans_egal(rogne(raw));
}

/// Whitespace around a line never matters: a line reads as its trimmed
/// form does, so `parse_line` gives the same on both. The line number shows
/// only in errors: no error goes with a comment or a pair, which
/// `parse_line` gives alike whatever the number.
pub proof fn loi_ligne_rognee(raw: Seq<char>, e: ParseError, n: int)
    ensures
        lecture(rogne(raw)) == lecture(raw),
        erreur_de(e, n, lecture(raw)) ==> !(lecture(raw) is Commentaire) && !(lecture(raw) is Paire),
{
    loi_rogne_idempotent(raw);
}

/// A line whose trimmed form is a key, an `'='` and a value, the key
/// holding no `'='` and the line not beginning with `'#'`, gives the key
/// and the value, each trimmed, unless the key is empty.
pub proof fn loi_ligne_kv(raw: Seq<char>, a: Seq<char>, b: Seq<char>)
    ensures
        commence_par(rogne(raw), '#') ==> lecture(raw) is Commentaire,
        rogne(raw).len() == 0 ==> lecture(raw) is Vide,
        !commence_par(rogne(raw), '#') && rogne(raw) == a + seq!['='] + b && !a.contains('=')
            ==> lecture(raw) == if rogne(a).len() == 0 {
            Lecture::CleVide
        } else {
            Lecture::Paire(rogne(a), rogne(b))
        },
{
    if rogne(raw) == a + seq!['='] + b && !a.contains('=') {
        loi_coupe_unique(a, b, '=');
    }
}

} // verus!
