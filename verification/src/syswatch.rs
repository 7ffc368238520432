//! The decisions of a small monitoring server: which command a client
//! sent, the answers that do not depend on the machine, and how memory is
//! shown.

use vstd::prelude::*;
use crate::texte::{rogne, rogner, egal_sans_casse, egaux_sans_casse, loi_sans_casse, minuscule_ascii, decimal, ecrire_decimal, ajouter};

verus! {

/// Memory of the machine, in Ko.
#[derive(Debug, Clone)]
pub struct MemInfo {
    pub total: u64,
    pub used: u64,
}

impl MemInfo {
    /// "Mémoire : used/total Mo utilisés", in Mo rounded down.
    pub fn afficher(&self) -> (r: String)
        ensures
            r@ == "Mémoire : "@ + decimal((self.used / 1024) as nat) + "/"@ + decimal(
                (self.total / 1024) as nat,
            ) + " Mo utilisés"@,
    {
        let mut s = String::from_str("Mémoire : ");
        ecrire_decimal(&mut s, self.used / 1024);
        ajouter(&mut s, "/");
        ecrire_decimal(&mut s, self.total / 1024);
        ajouter(&mut s, " Mo utilisés");
        s
    }
}

/// A command of a client.
#[derive(Debug, Clone, Copy, PartialEq, Eq, Structural)]
pub enum Commande {
    Cpu,
    Mem,
    Ps,
    All,
    Help,
    Quit,
    Inconnue,
}

/// The command that the line `c` names: the trimmed line, up to case, is
/// one of the command words. (Lowering case by Unicode rules instead of
/// ASCII ones gives the same answer: no other character lowers to a single
/// letter of these words.)
pub open spec fn commande_de(c: Seq<char>) -> Commande {
    let t = rogne(c);
    if egal_sans_casse(t, "cpu"@) {
        Commande::Cpu
    } else if egal_sans_casse(t, "mem"@) {
        Commande::Mem
    } else if egal_sans_casse(t, "ps"@) {
        Commande::Ps
    } else if egal_sans_casse(t, "all"@) {
        Commande::All
    } else if egal_sans_casse(t, "help"@) {
        Commande::Help
    } else if egal_sans_casse(t, "quit"@) {
        Commande::Quit
    } else {
        Commande::Inconnue
    }
}

/// The command that a client's line names.
pub fn interpreter(command: &str) -> (r: Commande)
    ensures
        r == commande_de(command@),
{
    let t = rogner(command);
    let t = t.as_str();
    if egaux_sans_casse(t, "cpu") {
        Commande::Cpu
    } else if egaux_sans_casse(t, "mem") {
        Commande::Mem
    } else if egaux_sans_casse(t, "ps") {
        Commande::Ps
    } else if egaux_sans_casse(t, "all") {
        Commande::All
    } else if egaux_sans_casse(t, "help") {
        Commande::Help
    } else if egaux_sans_casse(t, "quit") {
        Commande::Quit
    } else {
        Commande::Inconnue
    }
}

/// Whether the client's line ends the session.
pub fn est_quit(command: &str) -> (r: bool)
    ensures
        r == (commande_de(command@) == Commande::Quit),
{
    interpreter(command) == Commande::Quit
}

/// The answer to a command when it does not depend on the machine.
pub open spec fn reponse_fixe(c: Commande) -> Option<Seq<char>> {
    match c {
        Commande::Help => Some("Commandes disponibles : cpu, mem, ps, all, help, quit\n"@),
        Commande::Quit => Some("quit\n"@),
        Commande::Inconnue => Some("Commande inconnue. Tape help pour la liste.\n"@),
        _ => None,
    }
}

/// The answer to a command when it does not depend on the machine.
pub fn texte_fixe(c: Commande) -> (r: Option<String>)
    ensures
        match reponse_fixe(c) {
            Some(t) => r matches Some(s) && s@ == t,
            None => r is None,
        },
{
    match c {
        Commande::Help => Some(String::from_str("Commandes disponibles : cpu, mem, ps, all, help, quit\n")),
        Commande::Quit => Some(String::from_str("quit\n")),
        Commande::Inconnue => Some(String::from_str("Commande inconnue. Tape help pour la liste.\n")),
        _ => None,
    }
}

/// A command depends neither on ASCII case nor on the whitespace around
/// it: two lines that are equal up to case once trimmed name the same
/// command.
pub proof fn loi_commande_sans_casse(a: Seq<char>, b: Seq<char>)
    requires
        egal_sans_casse(rogne(a), rogne(b)),
    ensures
        commande_de(a) == commande_de(b),
{
    let (ta, tb) = (rogne(a), rogne(b));
    loi_sans_casse(ta, tb, "cpu"@);
    loi_sans_casse(tb, ta, "cpu"@);
    loi_sans_casse(ta, tb, "mem"@);
    loi_sans_casse(tb, ta, "mem"@);
    loi_sans_casse(ta, tb, "ps"@);
    loi_sans_casse(tb, ta, "ps"@);
    loi_sans_casse(ta, tb, "all"@);
    loi_sans_casse(tb, ta, "all"@);
    loi_sans_casse(ta, tb, "help"@);
    loi_sans_casse(tb, ta, "help"@);
    loi_sans_casse(ta, tb, "quit"@);
    loi_sans_casse(tb, ta, "quit"@);
}

proof fn lemme_mots_distincts(t: Seq<char>, u: Seq<char>, w: Seq<char>)
    requires
        egal_sans_casse(t, u),
        !egal_sans_casse(u, w),
    ensures
        !egal_sans_casse(t, w),
{
    loi_sans_casse(t, u, w);
    loi_sans_casse(u, t, w);
    loi_sans_casse(t, w, u);
    loi_sans_casse(w, t, u);
}

/// Each command word, in any case and with any whitespace around it,
/// names its command; a line that is none of them is unknown.
pub proof fn loi_mots_commandes(l: Seq<char>)
    ensures
        egal_sans_casse(rogne(l), "cpu"@) ==> commande_de(l) == Commande::Cpu,
        egal_sans_casse(rogne(l), "mem"@) ==> commande_de(l) == Commande::Mem,
        egal_sans_casse(rogne(l), "ps"@) ==> commande_de(l) == Commande::Ps,
        egal_sans_casse(rogne(l), "all"@) ==> commande_de(l) == Commande::All,
        egal_sans_casse(rogne(l), "help"@) ==> commande_de(l) == Commande::Help,
        egal_sans_casse(rogne(l), "quit"@) ==> commande_de(l) == Commande::Quit,
        !egal_sans_casse(rogne(l), "cpu"@) && !egal_sans_casse(rogne(l), "mem"@)
            && !egal_sans_casse(rogne(l), "ps"@) && !egal_sans_casse(rogne(l), "all"@)
            && !egal_sans_casse(rogne(l), "help"@) && !egal_sans_casse(rogne(l), "quit"@)
            ==> commande_de(l) == Commande::Inconnue,
{
    reveal_strlit("cpu");
    reveal_strlit("mem");
    reveal_strlit("ps");
    reveal_strlit("all");
    reveal_strlit("help");
    reveal_strlit("quit");
    let t = rogne(l);
    let mots = seq!["cpu"@, "mem"@, "ps"@, "all"@, "help"@, "quit"@];
    assert forall|i: int, j: int| 0 <= i < 6 && 0 <= j < 6 && i != j implies !egal_sans_casse(
        #[trigger] mots[i],
        #[trigger] mots[j],
    ) by {
        if mots[i].len() == mots[j].len() {
            assert(minuscule_ascii(mots[i][0]) != minuscule_ascii(mots[j][0]));
        }
    }
    assert forall|i: int, j: int| 0 <= i < 6 && 0 <= j < 6 && i != j && egal_sans_casse(
        t,
        #[trigger] mots[i],
    ) implies !egal_sans_casse(t, #[trigger] mots[j]) by {
        lemme_mots_distincts(t, mots[i], mots[j]);
    }
    assert(mots[0] == "cpu"@);
    assert(mots[1] == "mem"@);
    assert(mots[2] == "ps"@);
    assert(mots[3] == "all"@);
    assert(mots[4] == "help"@);
    assert(mots[5] == "quit"@);
}

} // verus!
