//! A map from strings to strings whose entries are kept in increasing
//! order of their keys, as a `BTreeMap<String, String>` walks them.

use vstd::prelude::*;
use crate::texte::vers_chars;

verus! {

/// `a` comes strictly before `b` in the lexicographic order of their
/// characters (the order of `str`'s `<`).
pub open spec fn lex_inf(a: Seq<char>, b: Seq<char>) -> bool
    decreases a.len(),
{
    if a.len() == 0 {
        b.len() > 0
    } else if b.len() == 0 {
        false
    } else if a[0] < b[0] {
        true
    } else if a[0] == b[0] {
        lex_inf(a.drop_first(), b.drop_first())
    } else {
        false
    }
}

/// No string comes before itself.
pub proof fn lemme_lex_irreflexif(a: Seq<char>)
    ensures
        !lex_inf(a, a),
    decreases a.len(),
{
    if a.len() > 0 {
        lemme_lex_irreflexif(a.drop_first());
    }
}

/// The order is transitive.
pub proof fn lemme_lex_transitif(a: Seq<char>, b: Seq<char>, c: Seq<char>)
    requires
        lex_inf(a, b),
        lex_inf(b, c),
    ensures
        lex_inf(a, c),
    decreases a.len(),
{
    if a.len() > 0 && b.len() > 0 && c.len() > 0 && a[0] == b[0] && b[0] == c[0] {
        lemme_lex_transitif(a.drop_first(), b.drop_first(), c.drop_first());
    }
}

/// The order is total.
pub proof fn lemme_lex_total(a: Seq<char>, b: Seq<char>)
    ensures
        a == b || lex_inf(a, b) || lex_inf(b, a),
    decreases a.len(),
{
    if a.len() > 0 && b.len() > 0 && a[0] == b[0] {
        lemme_lex_total(a.drop_first(), b.drop_first());
        if a.drop_first() == b.drop_first() {
            assert(a =~= seq![a[0]] + a.drop_first());
            assert(b =~= seq![b[0]] + b.drop_first());
        }
    } else if a.len() == 0 && b.len() == 0 {
        assert(a =~= b);
    }
}

proof fn lemme_lex_sauter(a: Seq<char>, b: Seq<char>, i: int)
    requires
        0 <= i <= a.len(),
        i <= b.len(),
        forall|k: int| 0 <= k < i ==> a[k] == b[k],
    ensures
        lex_inf(a, b) == lex_inf(a.skip(i), b.skip(i)),
    decreases i,
{
    if i == 0 {
        assert(a.skip(0) =~= a);
        assert(b.skip(0) =~= b);
    } else {
        let a1 = a.drop_first();
        let b1 = b.drop_first();
        assert forall|k: int| 0 <= k < i - 1 implies a1[k] == b1[k] by {
            assert(a1[k] == a[k + 1]);
            assert(b1[k] == b[k + 1]);
        }
        lemme_lex_sauter(a1, b1, i - 1);
        assert(a1.skip(i - 1) =~= a.skip(i));
        assert(b1.skip(i - 1) =~= b.skip(i));
    }
}

/// The outcome of comparing two strings.
#[derive(Debug, Clone, Copy, PartialEq, Eq, Structural)]
pub enum Ordre {
    Avant,
    Egal,
    Apres,
}

/// Compares `a` and `b` in the lexicographic order of their characters.
pub fn comparer(a: &str, b: &str) -> (r: Ordre)
    ensures
        r == Ordre::Avant <==> lex_inf(a@, b@),
        r == Ordre::Egal <==> a@ == b@,
        r == Ordre::Apres <==> lex_inf(b@, a@),
{
    let x = vers_chars(a);
    let y = vers_chars(b);
    let mut i: usize = 0;
    while i < x.len() && i < y.len() && x[i] == y[i]
        invariant
            i <= x@.len(),
            i <= y@.len(),
            x@ == a@,
            y@ == b@,
            forall|k: int| 0 <= k < i ==> x@[k] == y@[k],
        decreases x@.len() - i,
    {
        i += 1;
    }
    proof {
        lemme_lex_sauter(a@, b@, i as int);
        lemme_lex_sauter(b@, a@, i as int);
        lemme_lex_irreflexif(a@);
        lemme_lex_total(a@, b@);
        if lex_inf(a@, b@) {
            if lex_inf(b@, a@) {
                lemme_lex_transitif(a@, b@, a@);
            }
        }
    }
    if i < x.len() && i < y.len() {
        assert(x@.skip(i as int)[0] == x@[i as int]);
        assert(y@.skip(i as int)[0] == y@[i as int]);
        if x[i] < y[i] {
            Ordre::Avant
        } else {
            Ordre::Apres
        }
    } else if i < x.len() {
        Ordre::Apres
    } else if i < y.len() {
        Ordre::Avant
    } else {
        assert(a@ =~= b@);
        Ordre::Egal
    }
}

} // verus!

verus! {

/// An entry seen by its characters.
pub type Paire = (Seq<char>, Seq<char>);

/// Keys strictly increase along `s`.
pub open spec fn triee(s: Seq<Paire>) -> bool {
    forall|i: int, j: int| 0 <= i < j < s.len() ==> lex_inf(#[trigger] s[i].0, #[trigger] s[j].0)
}

/// `k` is the key of some entry of `s`.
pub open spec fn a_cle(s: Seq<Paire>, k: Seq<char>) -> bool {
    exists|i: int| 0 <= i < s.len() && #[trigger] s[i].0 == k
}

/// The map that the entries `s` stand for.
pub open spec fn en_map(s: Seq<Paire>) -> Map<Seq<char>, Seq<char>> {
    Map::new(
        |k: Seq<char>| a_cle(s, k),
        |k: Seq<char>| s[indice_de(s, k)].1,
    )
}

/// An index of an entry of `s` whose key is `k`, if there is one.
pub open spec fn indice_de(s: Seq<Paire>, k: Seq<char>) -> int {
    choose|i: int| 0 <= i < s.len() && #[trigger] s[i].0 == k
}

/// In a sorted sequence, the entry of index `i` gives the value of its key.
pub proof fn lemme_en_map_indice(s: Seq<Paire>, i: int)
    requires
        triee(s),
        0 <= i < s.len(),
    ensures
        en_map(s).contains_key(s[i].0),
        en_map(s)[s[i].0] == s[i].1,
{
    broadcast use vstd::set::group_set_axioms;

    let k = s[i].0;
    assert(a_cle(s, k));
    let j = indice_de(s, k);
    assert(0 <= j < s.len() && s[j].0 == k);
    if j != i {
        lemme_lex_irreflexif(k);
        if j < i {
            assert(lex_inf(s[j].0, s[i].0));
        } else {
            assert(lex_inf(s[i].0, s[j].0));
        }
    }
}

proof fn lemme_lex_different(a: Seq<char>, b: Seq<char>)
    requires
        lex_inf(a, b),
    ensures
        a != b,
{
    lemme_lex_irreflexif(a);
}

/// Replacing the value of an existing key keeps the order and updates the map.
proof fn lemme_remplacer(s: Seq<Paire>, i: int, v: Seq<char>)
    requires
        triee(s),
        0 <= i < s.len(),
    ensures
        triee(s.update(i, (s[i].0, v))),
        en_map(s.update(i, (s[i].0, v))) == en_map(s).insert(s[i].0, v),
{
    let k = s[i].0;
    let t = s.update(i, (k, v));
    assert forall|a: int, b: int| 0 <= a < b < t.len() implies lex_inf(
        #[trigger] t[a].0,
        #[trigger] t[b].0,
    ) by {
        assert(t[a].0 == s[a].0 && t[b].0 == s[b].0);
        assert(lex_inf(s[a].0, s[b].0));
    }
    let m = en_map(s).insert(k, v);
    assert forall|q: Seq<char>| #[trigger] en_map(t).contains_key(q) implies m.contains_key(q)
        && en_map(t)[q] == m[q] by {
        let j = indice_de(t, q);
        assert(0 <= j < t.len() && t[j].0 == q);
        lemme_en_map_indice(t, j);
        if j != i {
            lemme_en_map_indice(s, j);
            if j < i {
                lemme_lex_different(t[j].0, t[i].0);
            } else {
                lemme_lex_different(t[i].0, t[j].0);
            }
        } else {
            lemme_en_map_indice(t, i);
        }
    }
    assert forall|q: Seq<char>| #[trigger] m.contains_key(q) implies en_map(t).contains_key(q) by {
        if q == k {
            assert(t[i].0 == q);
        } else {
            let j = indice_de(s, q);
            assert(0 <= j < s.len() && s[j].0 == q);
            assert(t[j].0 == q);
        }
    }
    assert(en_map(t) =~= m);
}

/// Putting a new key at the place that keeps the order updates the map.
proof fn lemme_inserer(s: Seq<Paire>, i: int, k: Seq<char>, v: Seq<char>)
    requires
        triee(s),
        0 <= i <= s.len(),
        forall|j: int| 0 <= j < i ==> lex_inf(#[trigger] s[j].0, k),
        i < s.len() ==> lex_inf(k, s[i].0),
    ensures
        triee(s.insert(i, (k, v))),
        !en_map(s).contains_key(k),
        en_map(s.insert(i, (k, v))) == en_map(s).insert(k, v),
{
    let t = s.insert(i, (k, v));
    assert forall|j: int| i <= j < s.len() implies lex_inf(k, #[trigger] s[j].0) by {
        if j > i {
            assert(lex_inf(s[i].0, s[j].0));
            lemme_lex_transitif(k, s[i].0, s[j].0);
        }
    }
    assert forall|a: int, b: int| 0 <= a < b < t.len() implies lex_inf(
        #[trigger] t[a].0,
        #[trigger] t[b].0,
    ) by {
        if b < i {
            assert(t[a] == s[a] && t[b] == s[b]);
        } else if b == i {
            assert(t[a] == s[a]);
        } else if a < i {
            assert(t[a] == s[a] && t[b] == s[b - 1]);
            lemme_lex_transitif(s[a].0, k, s[b - 1].0);
        } else if a == i {
            assert(t[b] == s[b - 1]);
        } else {
            assert(t[a] == s[a - 1] && t[b] == s[b - 1]);
        }
    }
    assert forall|j: int| 0 <= j < s.len() implies #[trigger] s[j].0 != k by {
        if j < i {
            lemme_lex_different(s[j].0, k);
        } else {
            lemme_lex_different(k, s[j].0);
        }
    }
    let m = en_map(s).insert(k, v);
    assert forall|q: Seq<char>| #[trigger] en_map(t).contains_key(q) implies m.contains_key(q)
        && en_map(t)[q] == m[q] by {
        let j = indice_de(t, q);
        assert(0 <= j < t.len() && t[j].0 == q);
        lemme_en_map_indice(t, j);
        if j < i {
            assert(t[j] == s[j]);
            lemme_en_map_indice(s, j);
        } else if j > i {
            assert(t[j] == s[j - 1]);
            lemme_en_map_indice(s, j - 1);
        }
    }
    assert forall|q: Seq<char>| #[trigger] m.contains_key(q) implies en_map(t).contains_key(q) by {
        if q == k {
            assert(t[i].0 == q);
        } else {
            let j = indice_de(s, q);
            assert(0 <= j < s.len() && s[j].0 == q);
            if j < i {
                assert(t[j] == s[j]);
            } else {
                assert(t[j + 1] == s[j]);
            }
        }
    }
    assert(en_map(t) =~= m);
}

/// The number of keys of the map is the number of entries.
proof fn lemme_taille(s: Seq<Paire>)
    requires
        triee(s),
    ensures
        en_map(s).dom().finite(),
        en_map(s).len() == s.len(),
{
    let cles = s.map_values(|e: Paire| e.0);
    assert forall|a: int, b: int| 0 <= a < cles.len() && 0 <= b < cles.len() && a != b implies cles[a]
        != cles[b] by {
        if a < b {
            assert(lex_inf(s[a].0, s[b].0));
            lemme_lex_different(s[a].0, s[b].0);
        } else {
            assert(lex_inf(s[b].0, s[a].0));
            lemme_lex_different(s[b].0, s[a].0);
        }
    }
    cles.unique_seq_to_set();
    assert forall|q: Seq<char>| #[trigger] en_map(s).dom().contains(q) == cles.to_set().contains(q) by {
        if en_map(s).dom().contains(q) {
            let j = indice_de(s, q);
            assert(cles[j] == q);
        }
        if cles.to_set().contains(q) {
            let j = choose|j: int| 0 <= j < cles.len() && cles[j] == q;
            assert(s[j].0 == q);
        }
    }
    assert(en_map(s).dom() =~= cles.to_set());
    vstd::seq_lib::seq_to_set_is_finite(cles);
}

/// A map from strings to strings, walked in increasing order of keys.
pub struct Table {
    entrees: Vec<(String, String)>,
}

impl Table {
    /// The entries, in order, seen by their characters.
    pub closed spec fn paires(&self) -> Seq<Paire> {
        self.entrees@.map_values(|e: (String, String)| (e.0@, e.1@))
    }

    #[verifier::type_invariant]
    closed spec fn bien_triee(&self) -> bool {
        triee(self.paires())
    }
}

impl View for Table {
    type V = Map<Seq<char>, Seq<char>>;

    open spec fn view(&self) -> Map<Seq<char>, Seq<char>> {
        en_map(self.paires())
    }
}

impl Table {
    /// An empty table.
    pub fn new() -> (t: Table)
        ensures
            t@ == Map::<Seq<char>, Seq<char>>::empty(),
            t.paires() == Seq::<Paire>::empty(),
    {
        let t = Table { entrees: Vec::new() };
        assert(t.paires() =~= Seq::<Paire>::empty());
        assert(t@ =~= Map::<Seq<char>, Seq<char>>::empty());
        t
    }

    /// The entries in increasing order of keys.
    pub fn entrees(&self) -> (r: &Vec<(String, String)>)
        ensures
            r@.map_values(|e: (String, String)| (e.0@, e.1@)) == self.paires(),
            triee(self.paires()),
    {
        proof {
            use_type_invariant(self);
        }
        &self.entrees
    }

    /// Gives `cle` the value `valeur`, and returns the value it had before,
    /// if any (`BTreeMap::insert`).
    pub fn insert(&mut self, cle: String, valeur: String) -> (r: Option<String>)
        ensures
            final(self)@ == old(self)@.insert(cle@, valeur@),
            match r {
                Some(v) => old(self)@.contains_key(cle@) && v@ == old(self)@[cle@],
                None => !old(self)@.contains_key(cle@),
            },
    {
        proof {
            use_type_invariant(&*self);
        }
        let n = self.entrees.len();
        let mut i: usize = 0;
        while i < n && comparer(self.entrees[i].0.as_str(), cle.as_str()) == Ordre::Avant
            invariant
                i <= n == self.entrees@.len(),
                triee(self.paires()),
                forall|j: int| 0 <= j < i ==> lex_inf(#[trigger] self.paires()[j].0, cle@),
            decreases n - i,
        {
            i += 1;
        }
        let ghost s = self.paires();
        if i < n && comparer(self.entrees[i].0.as_str(), cle.as_str()) == Ordre::Egal {
            let ancien = self.entrees[i].1.clone();
            proof {
                lemme_remplacer(s, i as int, valeur@);
                lemme_en_map_indice(s, i as int);
            }
            let mut v: Vec<(String, String)> = Vec::new();
            std::mem::swap(&mut v, &mut self.entrees);
            let ghost k = s[i as int].0;
            v.set(i, (cle, valeur));
            assert(v@.map_values(|e: (String, String)| (e.0@, e.1@)) =~= s.update(
                i as int,
                (k, valeur@),
            ));
            self.entrees = v;
            Some(ancien)
        } else {
            proof {
                if i < n {
                    lemme_lex_total(s[i as int].0, cle@);
                }
                lemme_inserer(s, i as int, cle@, valeur@);
            }
            let mut v: Vec<(String, String)> = Vec::new();
            std::mem::swap(&mut v, &mut self.entrees);
            v.insert(i, (cle, valeur));
            assert(v@.map_values(|e: (String, String)| (e.0@, e.1@)) =~= s.insert(
                i as int,
                (cle@, valeur@),
            ));
            self.entrees = v;
            None
        }
    }

    /// Number of keys.
    pub fn len(&self) -> (r: usize)
        ensures
            self@.dom().finite(),
            r == self@.len(),
    {
        proof {
            use_type_invariant(self);
            lemme_taille(self.paires());
        }
        self.entrees.len()
    }

    /// Whether the table has no key.
    pub fn is_empty(&self) -> (r: bool)
        ensures
            r == (self@.len() == 0),
    {
        self.len() == 0
    }

    /// The value of `cle`, if it has one.
    pub fn get(&self, cle: &str) -> (r: Option<&String>)
        ensures
            match r {
                Some(v) => self@.contains_key(cle@) && v@ == self@[cle@],
                None => !self@.contains_key(cle@),
            },
    {
        proof {
            use_type_invariant(self);
        }
        let mut i: usize = 0;
        while i < self.entrees.len()
            invariant
                i <= self.entrees@.len(),
                triee(self.paires()),
                forall|k: int| 0 <= k < i ==> self.paires()[k].0 != cle@,
            decreases self.entrees@.len() - i,
        {
            if comparer(self.entrees[i].0.as_str(), cle) == Ordre::Egal {
                proof {
                    lemme_en_map_indice(self.paires(), i as int);
                }
                return Some(&self.entrees[i].1);
            }
            i += 1;
        }
        None
    }
}

} // verus!

verus! {

/// Reading a key after writing it gives what was written; every other key
/// keeps its value, or its absence; the number of keys grows by one
/// exactly when the key was not there.
pub proof fn loi_lire_apres_ecrire(
    m: Map<Seq<char>, Seq<char>>,
    k: Seq<char>,
    v: Seq<char>,
    q: Seq<char>,
)
    requires
        m.dom().finite(),
    ensures
        m.insert(k, v).contains_key(k),
        m.insert(k, v)[k] == v,
        q != k ==> m.insert(k, v).contains_key(q) == m.contains_key(q),
        q != k && m.contains_key(q) ==> m.insert(k, v)[q] == m[q],
        m.insert(k, v).len() == if m.contains_key(k) {
            m.len()
        } else {
            m.len() + 1
        },
{
    broadcast use vstd::set::group_set_axioms;
    broadcast use vstd::map::group_map_axioms;

    if m.contains_key(k) {
        assert(m.insert(k, v).dom() =~= m.dom());
    } else {
        assert(m.insert(k, v).dom() =~= m.dom().insert(k));
    }
}

} // verus!
