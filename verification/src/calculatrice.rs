//! The parts of a command-line calculator that do not compute on numbers:
//! cutting an expression into its three words, recognising the operator,
//! and the word that ends the session.

use vstd::prelude::*;
use crate::texte::{mots, mots_de, vues, rogne, rogner, egal_sans_casse, egaux_sans_casse, egales, concatener};

verus! {

/// The message for an expression that is not three words.
pub open spec fn message_format() -> Seq<char> {
    "Format invalide. Exemple attendu : 12 + 5"@
}

/// Cuts `expression` into its three words (left operand, operator, right
/// operand); any other number of words is refused.
pub fn decouper_expression(expression: &str) -> (r: Result<(String, String, String), String>)
    ensures
        mots(expression@).len() == 3 ==> (r matches Ok((a, op, b)) && a@ == mots(expression@)[0]
            && op@ == mots(expression@)[1] && b@ == mots(expression@)[2]),
        mots(expression@).len() != 3 ==> (r matches Err(m) && m@ == message_format()),
{
    let mut morceaux = mots_de(expression);
    if morceaux.len() != 3 {
        return Err(String::from_str("Format invalide. Exemple attendu : 12 + 5"));
    }
    let ghost v = vues(morceaux@);
    let b = morceaux.pop().unwrap();
    let op = morceaux.pop().unwrap();
    let a = morceaux.pop().unwrap();
    assert(v[0] == a@ && v[1] == op@ && v[2] == b@);
    Ok((a, op, b))
}

/// An operator of the calculator.
#[derive(Debug, Clone, Copy, PartialEq, Eq, Structural)]
pub enum Operateur {
    Plus,
    Moins,
    Fois,
    Divise,
}

/// The operator that `op` names, if any.
pub open spec fn operateur_de(op: Seq<char>) -> Option<Operateur> {
    if op == "+"@ {
        Some(Operateur::Plus)
    } else if op == "-"@ {
        Some(Operateur::Moins)
    } else if op == "*"@ {
        Some(Operateur::Fois)
    } else if op == "/"@ {
        Some(Operateur::Divise)
    } else {
        None
    }
}

/// Recognises an operator; an unknown one is refused with a message that
/// names it.
pub fn operateur(op: &str) -> (r: Result<Operateur, String>)
    ensures
        match operateur_de(op@) {
            Some(o) => r == Ok::<Operateur, String>(o),
            None => r matches Err(m) && m@ == "Operateur inconnu : "@ + op@,
        },
{
    if egales(op, "+") {
        Ok(Operateur::Plus)
    } else if egales(op, "-") {
        Ok(Operateur::Moins)
    } else if egales(op, "*") {
        Ok(Operateur::Fois)
    } else if egales(op, "/") {
        Ok(Operateur::Divise)
    } else {
        Err(concatener("Operateur inconnu : ", op))
    }
}

/// Whether the line ends the session: trimmed, it is "quitter" up to case.
pub fn est_quitter(entree: &str) -> (r: bool)
    ensures
        r == egal_sans_casse(rogne(entree@), "quitter"@),
{
    let t = rogner(entree);
    egaux_sans_casse(t.as_str(), "quitter")
}

} // verus!
