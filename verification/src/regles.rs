//! The cut of a `key=value` line that every parser of this crate shares.

use vstd::prelude::*;
use crate::texte::{coupe, couper, rogne, rogner, commence_par, commence, loi_coupe, loi_coupe_unique, loi_rogne_extrait};

verus! {

/// A key and its value, seen by their characters.
pub type Paire = (Seq<char>, Seq<char>);

/// `l` cut at its first `'='`, both parts trimmed.
pub open spec fn paire_rognee(l: Seq<char>) -> Option<Paire> {
    match coupe(l, '=') {
        Some((k, v)) => Some((rogne(k), rogne(v))),
        None => None,
    }
}

/// Cuts `l` at its first `'='` and trims both parts.
pub fn couper_paire(l: &str) -> (r: Option<(String, String)>)
    ensures
        match r {
            Some((k, v)) => paire_rognee(l@) == Some((k@, v@)),
            None => paire_rognee(l@) is None,
        },
{
    match couper(l, '=') {
        Some((k, v)) => Some((rogner(k.as_str()), rogner(v.as_str()))),
        None => None,
    }
}

/// Whether `l` holds nothing but whitespace (`l.trim().is_empty()`).
pub open spec fn est_vide(l: Seq<char>) -> bool {
    rogne(l).len() == 0
}

/// Decides `est_vide`.
pub fn vide(l: &str) -> (r: bool)
    ensures
        r == est_vide(l@),
{
    let t = rogner(l);
    t.as_str().is_empty()
}

} // verus!

verus! {

/// The pairs of a vector of string pairs, seen by their characters.
pub open spec fn paires_de(v: Seq<(String, String)>) -> Seq<Paire> {
    v.map_values(|e: (String, String)| (e.0@, e.1@))
}

/// What a line gives when blank lines and lines that begin with `'#'` are
/// skipped: `None` when skipped, `Some(Some(p))` for a pair, `Some(None)`
/// when refused.
pub open spec fn lecture_commentee(l: Seq<char>) -> Option<Option<Paire>> {
    if est_vide(l) || commence_par(l, '#') {
        None
    } else {
        Some(paire_rognee(l))
    }
}

/// The pairs that the lines `ls` give in order, or the first refused line.
pub open spec fn liste_commentee(ls: Seq<Seq<char>>) -> Result<Seq<Paire>, Seq<char>>
    decreases ls.len(),
{
    if ls.len() == 0 {
        Ok(seq![])
    } else {
        match liste_commentee(ls.drop_last()) {
            Err(l) => Err(l),
            Ok(s) => match lecture_commentee(ls.last()) {
                None => Ok(s),
                Some(Some(p)) => Ok(s.push(p)),
                Some(None) => Err(ls.last()),
            },
        }
    }
}

/// A reading of lines that, once refused, stays refused whatever lines
/// follow: when a prefix of the lines is refused, the whole is refused
/// alike.
pub proof fn lemme_refus_garde<A, E>(f: spec_fn(Seq<Seq<char>>) -> Result<A, E>, ls: Seq<Seq<char>>, i: int)
    requires
        0 <= i <= ls.len(),
        f(ls.take(i)) is Err,
        forall|l: Seq<Seq<char>>|
            l.len() > 0 && (#[trigger] f(l.drop_last())) is Err ==> f(l) == f(l.drop_last()),
    ensures
        f(ls) == f(ls.take(i)),
    decreases ls.len() - i,
{
    if i == ls.len() {
        assert(ls.take(i) =~= ls);
    } else {
        assert(ls.drop_last().take(i) =~= ls.take(i));
        lemme_refus_garde(f, ls.drop_last(), i);
    }
}

/// Takes one line: `Ok(None)` when it is skipped, `Ok(Some(p))` for a
/// pair, `Err(())` when it is refused.
pub fn lire_commentee(l: &str) -> (r: Result<Option<(String, String)>, ()>)
    ensures
        match lecture_commentee(l@) {
            None => r == Ok::<Option<(String, String)>, ()>(None),
            Some(Some(p)) => r matches Ok(Some(q)) && (q.0@, q.1@) == p,
            Some(None) => r is Err,
        },
{
    if vide(l) || commence(l, '#') {
        return Ok(None);
    }
    match couper_paire(l) {
        Some(p) => Ok(Some(p)),
        None => Err(()),
    }
}

} // verus!

verus! {

/// A key never holds `'='`: the line is cut at its first `'='`, so any
/// other `'='` stays in the value.
pub proof fn loi_cle_sans_egal(l: Seq<char>)
    ensures
        paire_rognee(l) matches Some((k, v)) ==> !k.contains('='),
{
    loi_coupe(l, '=');
    if let Some((a, b)) = coupe(l, '=') {
        loi_rogne_extrait(a);
        let (x, y) = choose|x: int, y: int| 0 <= x <= y <= a.len() && rogne(a) == a.subrange(x, y);
        assert forall|i: int| 0 <= i < rogne(a).len() implies rogne(a)[i] != '=' by {
            assert(rogne(a)[i] == a[x + i]);
        }
    }
}

/// A blank line, or one that begins with `'#'`, is skipped; any other line
/// made of a key, an `'='` and a value, the key holding no `'='`, gives the
/// key and the value, each trimmed.
pub proof fn loi_ligne_commentee(l: Seq<char>, a: Seq<char>, b: Seq<char>)
    ensures
        rogne(l).len() == 0 || commence_par(l, '#') ==> lecture_commentee(l) is None,
        rogne(l).len() != 0 && !commence_par(l, '#') && l == a + seq!['='] + b && !a.contains('=')
            ==> lecture_commentee(l) == Some(Some((rogne(a), rogne(b)))),
{
    if l == a + seq!['='] + b && !a.contains('=') {
        loi_coupe_unique(a, b, '=');
    }
}

/// Putting a blank line, or one that begins with `'#'`, anywhere among
/// the lines changes nothing of what they give.
pub proof fn loi_lignes_sautees(ls: Seq<Seq<char>>, i: int, l: Seq<char>)
    requires
        0 <= i <= ls.len(),
        rogne(l).len() == 0 || commence_par(l, '#'),
    ensures
        liste_commentee(ls.insert(i, l)) == liste_commentee(ls),
    decreases ls.len(),
{
    if i == ls.len() {
        assert(ls.insert(i, l).drop_last() =~= ls);
    } else {
        assert(ls.insert(i, l).drop_last() =~= ls.drop_last().insert(i, l));
        loi_lignes_sautees(ls.drop_last(), i, l);
    }
}

} // verus!
