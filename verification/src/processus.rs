//! A table of processes: each gets the next identifier, starting from 1,
//! and keeps it; its state changes, and it can be killed.

use vstd::prelude::*;
use crate::texte::{vues, decimal, decimal_signe, ecrire_decimal, ecrire_decimal_signe, ajouter};
use vstd::std_specs::cmp::PartialEqSpecImpl;

verus! {

/// The state of a process.
#[derive(Debug, Clone)]
pub enum EtatProcessus {
    Pret,
    EnExecution { cpu_id: u8 },
    Bloque { raison: String },
    Termine { code_retour: i32 },
    Zombie,
}

/// Two states are the same: same variant, same data (a reason by its
/// characters).
pub open spec fn meme_etat(a: EtatProcessus, b: EtatProcessus) -> bool {
    match (a, b) {
        (EtatProcessus::Pret, EtatProcessus::Pret) => true,
        (EtatProcessus::EnExecution { cpu_id: x }, EtatProcessus::EnExecution { cpu_id: y }) => x
            == y,
        (EtatProcessus::Bloque { raison: x }, EtatProcessus::Bloque { raison: y }) => x@ == y@,
        (EtatProcessus::Termine { code_retour: x }, EtatProcessus::Termine { code_retour: y }) => x
            == y,
        (EtatProcessus::Zombie, EtatProcessus::Zombie) => true,
        _ => false,
    }
}

/// Decides `meme_etat`.
pub fn etats_egaux(a: &EtatProcessus, b: &EtatProcessus) -> (r: bool)
    ensures
        r == meme_etat(*a, *b),
{
    match (a, b) {
        (EtatProcessus::Pret, EtatProcessus::Pret) => true,
        (EtatProcessus::EnExecution { cpu_id: x }, EtatProcessus::EnExecution { cpu_id: y }) => *x
            == *y,
        (EtatProcessus::Bloque { raison: x }, EtatProcessus::Bloque { raison: y }) => *x == *y,
        (EtatProcessus::Termine { code_retour: x }, EtatProcessus::Termine { code_retour: y }) => *x
            == *y,
        (EtatProcessus::Zombie, EtatProcessus::Zombie) => true,
        _ => false,
    }
}

impl PartialEq for EtatProcessus {
    fn eq(&self, other: &Self) -> (r: bool) {
        etats_egaux(self, other)
    }
}

impl PartialEqSpecImpl for EtatProcessus {
    open spec fn obeys_eq_spec() -> bool {
        true
    }

    open spec fn eq_spec(&self, other: &Self) -> bool {
        meme_etat(*self, *other)
    }
}

/// How a state is described.
pub open spec fn description_etat(e: EtatProcessus) -> Seq<char> {
    match e {
        EtatProcessus::Pret => "Pret"@,
        EtatProcessus::EnExecution { cpu_id } => "EnExecution(cpu="@ + decimal(cpu_id as nat) + ")"@,
        EtatProcessus::Bloque { raison } => "Bloque("@ + raison@ + ")"@,
        EtatProcessus::Termine { code_retour } => "Termine(code="@ + decimal_signe(code_retour as int)
            + ")"@,
        EtatProcessus::Zombie => "Zombie"@,
    }
}

/// Describes a state.
pub fn decrire_etat(etat: &EtatProcessus) -> (r: String)
    ensures
        r@ == description_etat(*etat),
{
    match etat {
        EtatProcessus::Pret => String::from_str("Pret"),
        EtatProcessus::EnExecution { cpu_id } => {
            let mut s = String::from_str("EnExecution(cpu=");
            ecrire_decimal(&mut s, *cpu_id as u64);
            ajouter(&mut s, ")");
            s
        },
        EtatProcessus::Bloque { raison } => {
            let mut s = String::from_str("Bloque(");
            ajouter(&mut s, raison.as_str());
            ajouter(&mut s, ")");
            s
        },
        EtatProcessus::Termine { code_retour } => {
            let mut s = String::from_str("Termine(code=");
            ecrire_decimal_signe(&mut s, *code_retour as i64);
            ajouter(&mut s, ")");
            s
        },
        EtatProcessus::Zombie => String::from_str("Zombie"),
    }
}

/// How a priority is described.
pub open spec fn description_priorite(p: Priorite) -> Seq<char> {
    match p {
        Priorite::TresFaible => "TresFaible"@,
        Priorite::Faible => "Faible"@,
        Priorite::Normale => "Normale"@,
        Priorite::Haute => "Haute"@,
        Priorite::TresHaute => "TresHaute"@,
        Priorite::TempsReel(niveau) => "TempsReel("@ + decimal(niveau as nat) + ")"@,
    }
}

/// Describes a priority.
pub fn decrire_priorite(priorite: &Priorite) -> (r: String)
    ensures
        r@ == description_priorite(*priorite),
{
    match priorite {
        Priorite::TresFaible => String::from_str("TresFaible"),
        Priorite::Faible => String::from_str("Faible"),
        Priorite::Normale => String::from_str("Normale"),
        Priorite::Haute => String::from_str("Haute"),
        Priorite::TresHaute => String::from_str("TresHaute"),
        Priorite::TempsReel(niveau) => {
            let mut s = String::from_str("TempsReel(");
            ecrire_decimal(&mut s, *niveau as u64);
            ajouter(&mut s, ")");
            s
        },
    }
}

/// The line that sums up a process.
pub open spec fn ligne_processus(p: Processus) -> Seq<char> {
    "PID="@ + decimal(p.pid as nat) + " | nom="@ + p.nom@ + " | etat="@ + description_etat(p.etat)
        + " | priorite="@ + description_priorite(p.priorite) + " | memoire="@ + decimal(
        p.memoire_ko as nat,
    ) + " Ko | parent="@ + match p.pid_parent {
        Some(q) => decimal(q as nat),
        None => "Aucun"@,
    }
}

/// Writes the line that sums up a process.
pub fn decrire_processus(p: &Processus) -> (r: String)
    ensures
        r@ == ligne_processus(*p),
{
    let mut s = String::from_str("PID=");
    ecrire_decimal(&mut s, p.pid as u64);
    ajouter(&mut s, " | nom=");
    ajouter(&mut s, p.nom.as_str());
    ajouter(&mut s, " | etat=");
    let e = decrire_etat(&p.etat);
    ajouter(&mut s, e.as_str());
    ajouter(&mut s, " | priorite=");
    let q = decrire_priorite(&p.priorite);
    ajouter(&mut s, q.as_str());
    ajouter(&mut s, " | memoire=");
    ecrire_decimal(&mut s, p.memoire_ko);
    ajouter(&mut s, " Ko | parent=");
    match p.pid_parent {
        Some(parent) => ecrire_decimal(&mut s, parent as u64),
        None => ajouter(&mut s, "Aucun"),
    }
    s
}

/// The priority of a process.
#[derive(Debug, Clone)]
pub enum Priorite {
    TresFaible,
    Faible,
    Normale,
    Haute,
    TresHaute,
    TempsReel(u8),
}

/// A process.
#[derive(Debug)]
pub struct Processus {
    pub pid: u32,
    pub nom: String,
    pub etat: EtatProcessus,
    pub priorite: Priorite,
    pub memoire_ko: u64,
    pub pid_parent: Option<u32>,
}

/// `p` with the state `e`.
pub open spec fn avec_etat(p: Processus, e: EtatProcessus) -> Processus {
    Processus { etat: e, ..p }
}

/// Process `i` has identifier `i + 1`.
pub open spec fn pids_consecutifs(s: Seq<Processus>) -> bool {
    forall|i: int| 0 <= i < s.len() ==> (#[trigger] s[i]).pid == i + 1
}

/// Total memory of the processes of `s`, in Ko.
pub open spec fn somme_memoire(s: Seq<Processus>) -> nat
    decreases s.len(),
{
    if s.len() == 0 {
        0
    } else {
        somme_memoire(s.drop_last()) + s.last().memoire_ko as nat
    }
}

/// The processes of `s` whose state is the same as `e`, in order.
pub open spec fn filtre_etat(s: Seq<Processus>, e: EtatProcessus) -> Seq<Processus>
    decreases s.len(),
{
    if s.len() == 0 {
        seq![]
    } else if meme_etat(s.last().etat, e) {
        filtre_etat(s.drop_last(), e).push(s.last())
    } else {
        filtre_etat(s.drop_last(), e)
    }
}

/// The process table.
#[derive(Debug)]
pub struct GestionnaireProcessus {
    processus: Vec<Processus>,
    prochain_pid: u32,
}

impl GestionnaireProcessus {
    /// The processes, in order of creation.
    pub closed spec fn liste(&self) -> Seq<Processus> {
        self.processus@
    }

    #[verifier::type_invariant]
    closed spec fn coherent(&self) -> bool {
        &&& pids_consecutifs(self.processus@)
        &&& self.prochain_pid == self.processus@.len() + 1
    }

    /// An empty table; the first process will get identifier 1.
    pub fn nouveau() -> (g: Self)
        ensures
            g.liste() == Seq::<Processus>::empty(),
    {
        GestionnaireProcessus { processus: Vec::new(), prochain_pid: 1 }
    }

    /// The number of processes.
    pub fn nombre(&self) -> (r: usize)
        ensures
            r == self.liste().len(),
            pids_consecutifs(self.liste()),
    {
        proof {
            use_type_invariant(self);
        }
        self.processus.len()
    }

    /// Creates a ready process, and returns its identifier, the next one.
    pub fn creer_processus(
        &mut self,
        nom: String,
        priorite: Priorite,
        memoire_ko: u64,
        pid_parent: Option<u32>,
    ) -> (pid: u32)
        requires
            old(self).liste().len() + 2 <= u32::MAX,
        ensures
            pid == old(self).liste().len() + 1,
            final(self).liste() == old(self).liste().push(
                Processus {
                    pid,
                    nom,
                    etat: EtatProcessus::Pret,
                    priorite,
                    memoire_ko,
                    pid_parent,
                },
            ),
            pids_consecutifs(final(self).liste()),
    {
        proof {
            use_type_invariant(&*self);
        }
        let mut ancien = Self::nouveau();
        std::mem::swap(&mut ancien, self);
        let GestionnaireProcessus { processus: mut v, prochain_pid: pid } = ancien;
        let processus = Processus {
            pid,
            nom,
            etat: EtatProcessus::Pret,
            priorite,
            memoire_ko,
            pid_parent,
        };
        v.push(processus);
        let prochain = pid + 1;
        *self = GestionnaireProcessus { processus: v, prochain_pid: prochain };
        proof {
            use_type_invariant(&*self);
        }
        pid
    }

    /// The process with identifier `pid`, if there is one.
    pub fn trouver(&self, pid: u32) -> (r: Option<&Processus>)
        ensures
            pids_consecutifs(self.liste()),
            match r {
                Some(p) => 1 <= pid <= self.liste().len() && *p == self.liste()[pid - 1],
                None => !(1 <= pid <= self.liste().len()),
            },
    {
        proof {
            use_type_invariant(self);
        }
        let mut i: usize = 0;
        while i < self.processus.len()
            invariant
                i <= self.processus@.len(),
                pids_consecutifs(self.processus@),
                forall|k: int| 0 <= k < i ==> self.processus@[k].pid != pid,
            decreases self.processus@.len() - i,
        {
            if self.processus[i].pid == pid {
                return Some(&self.processus[i]);
            }
            i += 1;
        }
        if 1 <= pid && pid as usize <= self.processus.len() {
            assert(self.processus@[pid - 1].pid == pid);
        }
        None
    }

    /// Index of the process `pid` in the table, if there is one.
    fn indice(&self, pid: u32) -> (r: Option<usize>)
        ensures
            match r {
                Some(i) => 1 <= pid <= self.liste().len() && i == pid - 1,
                None => !(1 <= pid <= self.liste().len()),
            },
    {
        proof {
            use_type_invariant(self);
        }
        let mut i: usize = 0;
        while i < self.processus.len()
            invariant
                i <= self.processus@.len(),
                pids_consecutifs(self.processus@),
                forall|k: int| 0 <= k < i ==> self.processus@[k].pid != pid,
            decreases self.processus@.len() - i,
        {
            if self.processus[i].pid == pid {
                return Some(i);
            }
            i += 1;
        }
        if 1 <= pid && pid as usize <= self.processus.len() {
            assert(self.processus@[pid - 1].pid == pid);
        }
        None
    }

    /// Gives the process of index `i` the state `etat`.
    fn poser_etat(&mut self, i: usize, etat: EtatProcessus)
        requires
            i < old(self).liste().len(),
        ensures
            final(self).liste() == old(self).liste().update(
                i as int,
                avec_etat(old(self).liste()[i as int], etat),
            ),
    {
        proof {
            use_type_invariant(&*self);
        }
        let mut ancien = Self::nouveau();
        std::mem::swap(&mut ancien, self);
        let GestionnaireProcessus { processus: mut v, prochain_pid } = ancien;
        let mut p = v.remove(i);
        p.etat = etat;
        v.insert(i, p);
        assert(v@ =~= old(self).liste().update(i as int, avec_etat(old(self).liste()[i as int], etat)));
        assert(pids_consecutifs(v@)) by {
            assert forall|k: int| 0 <= k < v@.len() implies (#[trigger] v@[k]).pid == k + 1 by {
                assert(old(self).liste()[k].pid == k + 1);
            }
        }
        *self = GestionnaireProcessus { processus: v, prochain_pid };
    }

    /// Gives the process `pid` the state `nouvel_etat`; an error names a
    /// `pid` that no process has.
    pub fn changer_etat(&mut self, pid: u32, nouvel_etat: EtatProcessus) -> (r: Result<(), String>)
        ensures
            pids_consecutifs(final(self).liste()),
            1 <= pid <= old(self).liste().len() ==> r is Ok && final(self).liste() == old(
                self,
            ).liste().update(pid - 1, avec_etat(old(self).liste()[pid - 1], nouvel_etat)),
            !(1 <= pid <= old(self).liste().len()) ==> final(self).liste() == old(self).liste() && (
            r matches Err(m) && m@ == "PID introuvable : "@ + decimal(pid as nat)),
    {
        match self.indice(pid) {
            Some(i) => {
                self.poser_etat(i, nouvel_etat);
                proof {
                    use_type_invariant(&*self);
                }
                Ok(())
            },
            None => {
                proof {
                    use_type_invariant(&*self);
                }
                let mut m = String::from_str("PID introuvable : ");
                ecrire_decimal(&mut m, pid as u64);
                Err(m)
            },
        }
    }

    /// Total memory of the processes, in Ko.
    pub fn memoire_totale_utilisee(&self) -> (r: u64)
        requires
            somme_memoire(self.liste()) <= u64::MAX,
        ensures
            r == somme_memoire(self.liste()),
    {
        let mut total: u64 = 0;
        let mut i: usize = 0;
        while i < self.processus.len()
            invariant
                i <= self.processus@.len(),
                somme_memoire(self.processus@) <= u64::MAX,
                total == somme_memoire(self.processus@.take(i as int)),
            decreases self.processus@.len() - i,
        {
            assert(self.processus@.take(i + 1).drop_last() =~= self.processus@.take(i as int));
            proof {
                lemme_somme_prefixe(self.processus@, i + 1);
            }
            total = total + self.processus[i].memoire_ko;
            i += 1;
        }
        assert(self.processus@.take(i as int) =~= self.processus@);
        total
    }

    /// Total memory of the processes, in Ko, or `None` when it does not fit
    /// in a `u64`.
    pub fn memoire_totale_verifiee(&self) -> (r: Option<u64>)
        ensures
            somme_memoire(self.liste()) <= u64::MAX ==> r == Some(somme_memoire(self.liste()) as u64),
            somme_memoire(self.liste()) > u64::MAX ==> r is None,
    {
        let mut total: u64 = 0;
        let mut i: usize = 0;
        while i < self.processus.len()
            invariant
                i <= self.processus@.len(),
                total == somme_memoire(self.processus@.take(i as int)),
            decreases self.processus@.len() - i,
        {
            assert(self.processus@.take(i + 1).drop_last() =~= self.processus@.take(i as int));
            match total.checked_add(self.processus[i].memoire_ko) {
                Some(t) => total = t,
                None => {
                    proof {
                        lemme_somme_prefixe(self.processus@, i + 1);
                    }
                    return None;
                },
            }
            i += 1;
        }
        assert(self.processus@.take(i as int) =~= self.processus@);
        Some(total)
    }

    /// The processes whose state is the same as `etat`, in order.
    pub fn processus_par_etat(&self, etat: &EtatProcessus) -> (r: Vec<&Processus>)
        ensures
            r@.map_values(|p: &Processus| *p) == filtre_etat(self.liste(), *etat),
    {
        let mut r: Vec<&Processus> = Vec::new();
        let mut i: usize = 0;
        assert(r@.map_values(|p: &Processus| *p) =~= filtre_etat(self.processus@.take(0), *etat));
        while i < self.processus.len()
            invariant
                i <= self.processus@.len(),
                r@.map_values(|p: &Processus| *p) == filtre_etat(self.processus@.take(i as int), *etat),
            decreases self.processus@.len() - i,
        {
            assert(self.processus@.take(i + 1).drop_last() =~= self.processus@.take(i as int));
            if etats_egaux(&self.processus[i].etat, etat) {
                let ghost avant = r@.map_values(|p: &Processus| *p);
                r.push(&self.processus[i]);
                assert(r@.map_values(|p: &Processus| *p) =~= avant.push(self.processus@[i as int]));
            }
            i += 1;
        }
        assert(self.processus@.take(i as int) =~= self.processus@);
        r
    }

    /// The lines that sum up the table: a title, the number of processes,
    /// their total memory, then one line per process, in order.
    pub fn resume(&self) -> (r: Vec<String>)
        requires
            somme_memoire(self.liste()) <= u64::MAX,
        ensures
            vues(r@) == seq![
                "=== Resume des processus ==="@,
                "Nombre total de processus : "@ + decimal(self.liste().len()),
                "Memoire totale (Ko)       : "@ + decimal(somme_memoire(self.liste())),
            ] + self.liste().map_values(|p: Processus| ligne_processus(p)),
    {
        let mut r: Vec<String> = Vec::new();
        r.push(String::from_str("=== Resume des processus ==="));
        let mut n = String::from_str("Nombre total de processus : ");
        ecrire_decimal(&mut n, self.processus.len() as u64);
        r.push(n);
        let mut m = String::from_str("Memoire totale (Ko)       : ");
        ecrire_decimal(&mut m, self.memoire_totale_utilisee());
        r.push(m);
        let ghost entete = vues(r@);
        let mut i: usize = 0;
        while i < self.processus.len()
            invariant
                i <= self.processus@.len(),
                vues(r@) == entete + self.processus@.take(i as int).map_values(
                    |p: Processus| ligne_processus(p),
                ),
            decreases self.processus@.len() - i,
        {
            let ligne = decrire_processus(&self.processus[i]);
            let ghost avant = vues(r@);
            let ghost l = ligne@;
            r.push(ligne);
            assert(vues(r@) =~= avant.push(l));
            assert(self.processus@.take(i + 1).map_values(|p: Processus| ligne_processus(p))
                =~= self.processus@.take(i as int).map_values(|p: Processus| ligne_processus(p)).push(
                ligne_processus(self.processus@[i as int]),
            ));
            assert(vues(r@) =~= entete + self.processus@.take(i + 1).map_values(
                |p: Processus| ligne_processus(p),
            ));
            i += 1;
        }
        assert(self.processus@.take(i as int) =~= self.processus@);
        r
    }

    /// Kills the process `pid`: its state becomes "ended with code 0", and
    /// 0 is returned; an error names a `pid` that no process has.
    pub fn tuer_processus(&mut self, pid: u32) -> (r: Result<i32, String>)
        ensures
            pids_consecutifs(final(self).liste()),
            1 <= pid <= old(self).liste().len() ==> r == Ok::<i32, String>(0) && final(self).liste()
                == old(self).liste().update(
                pid - 1,
                avec_etat(old(self).liste()[pid - 1], EtatProcessus::Termine { code_retour: 0 }),
            ),
            !(1 <= pid <= old(self).liste().len()) ==> final(self).liste() == old(self).liste() && (
            r matches Err(m) && m@ == "Impossible de tuer le PID "@ + decimal(pid as nat)
                + " : introuvable"@),
    {
        match self.indice(pid) {
            Some(i) => {
                let code_retour: i32 = 0;
                self.poser_etat(i, EtatProcessus::Termine { code_retour });
                proof {
                    use_type_invariant(&*self);
                }
                Ok(code_retour)
            },
            None => {
                proof {
                    use_type_invariant(&*self);
                }
                let mut m = String::from_str("Impossible de tuer le PID ");
                ecrire_decimal(&mut m, pid as u64);
                ajouter(&mut m, " : introuvable");
                Err(m)
            },
        }
    }
}

/// A prefix of the processes uses no more memory than all of them.
pub proof fn lemme_somme_prefixe(s: Seq<Processus>, i: int)
    requires
        0 <= i <= s.len(),
    ensures
        somme_memoire(s.take(i)) <= somme_memoire(s),
    decreases s.len() - i,
{
    if i < s.len() {
        assert(s.drop_last().take(i) =~= s.take(i));
        lemme_somme_prefixe(s.drop_last(), i);
    } else {
        assert(s.take(i) =~= s);
    }
}

} // verus!

verus! {

/// A created process is found under the identifier it was given, and the
/// identifiers stay consecutive.
pub proof fn loi_trouver_apres_creer(s: Seq<Processus>, p: Processus)
    requires
        pids_consecutifs(s),
        p.pid == s.len() + 1,
    ensures
        pids_consecutifs(s.push(p)),
        1 <= p.pid <= s.push(p).len(),
        s.push(p)[p.pid - 1] == p,
{
}

/// After a change of state, the process found under the same identifier
/// has the new state and nothing else of it has changed; the other
/// processes are untouched.
pub proof fn loi_etat_apres_changement(s: Seq<Processus>, pid: u32, e: EtatProcessus)
    requires
        pids_consecutifs(s),
        1 <= pid <= s.len(),
    ensures
        ({
            let t = s.update(pid - 1, avec_etat(s[pid - 1], e));
            &&& pids_consecutifs(t)
            &&& t[pid - 1].etat == e
            &&& t[pid - 1].pid == pid
            &&& t[pid - 1].nom == s[pid - 1].nom
            &&& t[pid - 1].memoire_ko == s[pid - 1].memoire_ko
            &&& t[pid - 1].pid_parent == s[pid - 1].pid_parent
            &&& forall|i: int| 0 <= i < s.len() && i != pid - 1 ==> t[i] == s[i]
        }),
{
}

/// Creating a process adds its memory to the total.
pub proof fn loi_memoire_creer(s: Seq<Processus>, p: Processus)
    ensures
        somme_memoire(s.push(p)) == somme_memoire(s) + p.memoire_ko,
{
    assert(s.push(p).drop_last() =~= s);
}

/// Changing the state of a process (killing it included) leaves the total
/// memory as it was.
pub proof fn loi_memoire_changement(s: Seq<Processus>, i: int, e: EtatProcessus)
    requires
        0 <= i < s.len(),
    ensures
        somme_memoire(s.update(i, avec_etat(s[i], e))) == somme_memoire(s),
    decreases s.len(),
{
    let t = s.update(i, avec_etat(s[i], e));
    if i < s.len() - 1 {
        loi_memoire_changement(s.drop_last(), i, e);
        assert(t.drop_last() =~= s.drop_last().update(i, avec_etat(s[i], e)));
    } else {
        assert(t.drop_last() =~= s.drop_last());
    }
}

/// The processes selected by state all have that state, and are no more
/// than all the processes.
pub proof fn loi_filtre_etat(s: Seq<Processus>, e: EtatProcessus)
    ensures
        filtre_etat(s, e).len() <= s.len(),
        forall|i: int| 0 <= i < filtre_etat(s, e).len() ==> meme_etat(#[trigger] filtre_etat(s, e)[i].etat, e),
        !(e is Bloque) ==> forall|i: int|
            0 <= i < filtre_etat(s, e).len() ==> #[trigger] filtre_etat(s, e)[i].etat == e,
    decreases s.len(),
{
    if s.len() > 0 {
        loi_filtre_etat(s.drop_last(), e);
    }
    assert forall|i: int| 0 <= i < filtre_etat(s, e).len() implies meme_etat(
        #[trigger] filtre_etat(s, e)[i].etat,
        e,
    ) by {}
    if !(e is Bloque) {
        assert forall|i: int| 0 <= i < filtre_etat(s, e).len() implies #[trigger] filtre_etat(
            s,
            e,
        )[i].etat == e by {
            loi_meme_etat(filtre_etat(s, e)[i].etat, e);
        }
    }
}

/// Two states are equal exactly when they are the same value, the reason
/// of a blocked state being compared by its characters: the processor of
/// a running process and the code of a finished one count.
pub proof fn loi_meme_etat(a: EtatProcessus, b: EtatProcessus)
    ensures
        !(a is Bloque) && !(b is Bloque) ==> (meme_etat(a, b) <==> a == b),
        (a is Bloque) != (b is Bloque) ==> !meme_etat(a, b),
        a matches EtatProcessus::Bloque { raison: x } ==> (b matches EtatProcessus::Bloque {
            raison: y,
        } ==> (meme_etat(a, b) <==> x@ == y@)),
        meme_etat(a, b) == meme_etat(b, a),
{
}

} // verus!
