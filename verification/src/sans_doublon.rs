//! `key=value` text with comments, where a key may appear only once and may
//! not be empty; the pairs come out sorted by key.

use vstd::prelude::*;
use crate::es::{avec_nombre, message_io};
use crate::texte::{ajouter, concatener, decimal};
use crate::regles::lemme_refus_garde;
use crate::table::Table;
use crate::texte::{lignes, lignes_de, vues, rogne, rogner, coupe, couper, commence_par, commence, loi_coupe_unique, loi_rogne_idempotent};

verus! {

/// What can go wrong while reading such a text.
#[derive(Debug)]
pub enum ParseError {
    /// The file could not be read.
    Io(std::io::Error),
    /// A line (trimmed) that is neither blank nor a comment has no `'='`.
    MalformedLine { line_number: usize, line: String },
    /// A key appears a second time.
    DuplicateKey(String),
    /// The key of a line is empty.
    EmptyKey { line_number: usize },
}

impl ParseError {
    /// The message of the error.
    pub fn message(&self) -> (r: String)
        ensures
            match self {
                ParseError::Io(_) => "erreur d'E/S: "@.is_prefix_of(r@),
                ParseError::MalformedLine { line_number, line } => r@ == "ligne "@ + decimal(
                    *line_number as nat,
                ) + " invalide: "@ + line@,
                ParseError::DuplicateKey(k) => r@ == "clé dupliquée: "@ + k@,
                ParseError::EmptyKey { line_number } => r@ == "clé vide à la ligne "@ + decimal(
                    *line_number as nat,
                ),
            },
    {
        match self {
            ParseError::Io(e) => message_io("erreur d'E/S: ", e),
            ParseError::MalformedLine { line_number, line } => {
                let mut s = avec_nombre("ligne ", *line_number, " invalide: ");
                ajouter(&mut s, line.as_str());
                s
            },
            ParseError::DuplicateKey(k) => concatener("clé dupliquée: ", k.as_str()),
            ParseError::EmptyKey { line_number } => {
                let s = avec_nombre("clé vide à la ligne ", *line_number, "");
                proof {
                    reveal_strlit("");
                    assert(s@ =~= "clé vide à la ligne "@ + decimal(*line_number as nat));
                }
                s
            },
        }
    }
}

/// What a line gives by itself.
pub enum Issue {
    /// Blank, or a comment.
    Sautee,
    /// No `'='` in the trimmed line, which is carried.
    Malformee(Seq<char>),
    /// The key is empty.
    CleVide,
    /// A key and its value, trimmed.
    Paire(Seq<char>, Seq<char>),
}

/// What the line `l` gives by itself.
pub open spec fn issue(l: Seq<char>) -> Issue {
    let t = rogne(l);
    if t.len() == 0 || commence_par(t, '#') {
        Issue::Sautee
    } else {
        match coupe(t, '=') {
            None => Issue::Malformee(t),
            Some((k, v)) => if rogne(k).len() == 0 {
                Issue::CleVide
            } else {
                Issue::Paire(rogne(k), rogne(v))
            },
        }
    }
}

/// Why a text is refused, lines being numbered from 1.
pub enum Refus {
    Malformee(int, Seq<char>),
    Doublon(Seq<char>),
    CleVide(int),
}

/// The map that the lines `ls` give, or why they are refused.
pub open spec fn table_unique(ls: Seq<Seq<char>>) -> Result<Map<Seq<char>, Seq<char>>, Refus>
    decreases ls.len(),
{
    if ls.len() == 0 {
        Ok(Map::empty())
    } else {
        match table_unique(ls.drop_last()) {
            Err(e) => Err(e),
            Ok(m) => match issue(ls.last()) {
                Issue::Sautee => Ok(m),
                Issue::Malformee(t) => Err(Refus::Malformee(ls.len() as int, t)),
                Issue::CleVide => Err(Refus::CleVide(ls.len() as int)),
                Issue::Paire(k, v) => if m.contains_key(k) {
                    Err(Refus::Doublon(k))
                } else {
                    Ok(m.insert(k, v))
                },
            },
        }
    }
}

/// The error that stands for `r`.
pub open spec fn erreur_de(e: ParseError, r: Refus) -> bool {
    match r {
        Refus::Malformee(n, t) => e matches ParseError::MalformedLine { line_number, line }
            && line_number == n && line@ == t,
        Refus::Doublon(k) => e matches ParseError::DuplicateKey(c) && c@ == k,
        Refus::CleVide(n) => e matches ParseError::EmptyKey { line_number } && line_number == n,
    }
}

/// Reads a whole text; the pairs come out in the table, sorted by key.
pub fn parse_key_value_str(contenu: &str) -> (r: Result<Table, ParseError>)
    ensures
        match table_unique(lignes(contenu@)) {
            Ok(m) => r matches Ok(t) && t@ == m,
            Err(refus) => r matches Err(e) && erreur_de(e, refus),
        },
{
    let ls = lignes_de(contenu);
    let ghost vs = vues(ls@);
    let mut table = Table::new();
    let mut i: usize = 0;
    assert(vs.take(0) =~= Seq::<Seq<char>>::empty());
    while i < ls.len()
        invariant
            i <= ls@.len(),
            vs == vues(ls@),
            vs == lignes(contenu@),
            table_unique(vs.take(i as int)) == Ok::<Map<Seq<char>, Seq<char>>, Refus>(table@),
        decreases ls@.len() - i,
    {
        let ghost avant = vs.take(i as int);
        assert(vs.take(i + 1).drop_last() =~= avant);
        assert(vs.take(i + 1).last() == ls@[i as int]@);
        assert(vs.take(i + 1).len() == i + 1);
        let numero = i + 1;
        let t = rogner(ls[i].as_str());
        if t.as_str().is_empty() || commence(t.as_str(), '#') {
            i += 1;
            continue;
        }
        match couper(t.as_str(), '=') {
            None => {
                proof {
                    lemme_refus_garde(|l: Seq<Seq<char>>| table_unique(l), vs, i + 1);
                }
                return Err(ParseError::MalformedLine { line_number: numero, line: t });
            },
            Some((k, v)) => {
                let cle = rogner(k.as_str());
                let valeur = rogner(v.as_str());
                if cle.as_str().is_empty() {
                    proof {
                        lemme_refus_garde(|l: Seq<Seq<char>>| table_unique(l), vs, i + 1);
                    }
                    return Err(ParseError::EmptyKey { line_number: numero });
                }
                match table.get(cle.as_str()) {
                    Some(_) => {
                        proof {
                            lemme_refus_garde(|l: Seq<Seq<char>>| table_unique(l), vs, i + 1);
                        }
                        return Err(ParseError::DuplicateKey(cle));
                    },
                    None => {
                        table.insert(cle, valeur);
                    },
                }
            },
        }
        i += 1;
    }
    assert(vs.take(ls@.len() as int) =~= vs);
    Ok(table)
}

/// A blank line, or one whose trimmed form begins with `'#'`, is skipped
/// whatever whitespace surrounds it; any other line made of a key, an
/// `'='` and a value, the key holding no `'='`, gives the key and the
/// value, each trimmed, unless the key is empty.
pub proof fn loi_ligne_sans_doublon(l: Seq<char>, a: Seq<char>, b: Seq<char>)
    ensures
        rogne(l).len() == 0 || commence_par(rogne(l), '#') ==> issue(l) is Sautee,
        rogne(l).len() != 0 && !commence_par(rogne(l), '#') && rogne(l) == a + seq!['='] + b
            && !a.contains('=') ==> issue(l) == if rogne(a).len() == 0 {
            Issue::CleVide
        } else {
            Issue::Paire(rogne(a), rogne(b))
        },
{
    if rogne(l) == a + seq!['='] + b && !a.contains('=') {
        loi_coupe_unique(a, b, '=');
    }
}

/// Whitespace around the lines never matters: a text gives what it gives
/// with each of its lines trimmed.
pub proof fn loi_lignes_rognees(ls: Seq<Seq<char>>)
    ensures
        table_unique(ls.map_values(|l: Seq<char>| rogne(l))) == table_unique(ls),
    decreases ls.len(),
{
    let ts = ls.map_values(|l: Seq<char>| rogne(l));
    if ls.len() > 0 {
        assert(ts.drop_last() =~= ls.drop_last().map_values(|l: Seq<char>| rogne(l)));
        loi_lignes_rognees(ls.drop_last());
        loi_rogne_idempotent(ls.last());
        assert(ts.last() == rogne(ls.last()));
        assert(issue(ts.last()) == issue(ls.last()));
    }
}

/// Adding a blank line, or one whose trimmed form begins with `'#'`, at
/// the end of a text changes nothing of what it gives.
pub proof fn loi_ligne_sautee(ls: Seq<Seq<char>>, l: Seq<char>)
    requires
        rogne(l).len() == 0 || commence_par(rogne(l), '#'),
    ensures
        table_unique(ls.push(l)) == table_unique(ls),
{
    assert(ls.push(l).drop_last() =~= ls);
}

} // verus!
