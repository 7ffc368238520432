//! Text primitives on the character view of strings.

use vstd::prelude::*;

verus! {

/// Appends one character to a string (`String::push`).
/// Contract: the new view is the old view with `c` added at the end,
/// as the standard library documents.
#[verifier::external_body]
pub(crate) fn pousser(s: &mut String, c: char)
    ensures
        final(s)@ == old(s)@.push(c),
{
    s.push(c);
}

/// The characters of `s`, in order.
pub fn vers_chars(s: &str) -> (res: Vec<char>)
    ensures
        res@ == s@,
{
    let mut res: Vec<char> = Vec::new();
    for c in it: s.chars()
        invariant
            res@ == it.seq().take(it.index() as int),
    {
        res.push(c);
    }
    res
}

/// The string whose characters are `cs`.
pub fn depuis_chars(cs: &[char]) -> (res: String)
    ensures
        res@ == cs@,
{
    let mut res = String::new();
    let mut i: usize = 0;
    while i < cs.len()
        invariant
            i <= cs@.len(),
            res@ == cs@.take(i as int),
        decreases cs@.len() - i,
    {
        pousser(&mut res, cs[i]);
        assert(cs@.take(i + 1) == cs@.take(i as int).push(cs@[i as int]));
        i += 1;
    }
    assert(cs@.take(cs@.len() as int) == cs@);
    res
}

} // verus!

verus! {

/// Unicode `White_Space`: the characters for which `char::is_whitespace`
/// holds, and the ones that `str::trim` and `str::split_whitespace` skip.
pub open spec fn est_blanc(c: char) -> bool {
    let u = c as u32;
    ||| 0x09 <= u <= 0x0D
    ||| u == 0x20
    ||| u == 0x85
    ||| u == 0xA0
    ||| u == 0x1680
    ||| 0x2000 <= u <= 0x200A
    ||| u == 0x2028
    ||| u == 0x2029
    ||| u == 0x202F
    ||| u == 0x205F
    ||| u == 0x3000
}

/// Decides `est_blanc`.
pub fn blanc(c: char) -> (r: bool)
    ensures
        r == est_blanc(c),
{
    let u = c as u32;
    (0x09 <= u && u <= 0x0D) || u == 0x20 || u == 0x85 || u == 0xA0 || u == 0x1680 || (0x2000 <= u
        && u <= 0x200A) || u == 0x2028 || u == 0x2029 || u == 0x202F || u == 0x205F || u == 0x3000
}

/// `s` without its leading whitespace.
pub open spec fn sans_blancs_debut(s: Seq<char>) -> Seq<char>
    decreases s.len(),
{
    if s.len() > 0 && est_blanc(s[0]) {
        sans_blancs_debut(s.drop_first())
    } else {
        s
    }
}

/// `s` without its trailing whitespace.
pub open spec fn sans_blancs_fin(s: Seq<char>) -> Seq<char>
    decreases s.len(),
{
    if s.len() > 0 && est_blanc(s.last()) {
        sans_blancs_fin(s.drop_last())
    } else {
        s
    }
}

/// `s` without leading and trailing whitespace (`str::trim`).
pub open spec fn rogne(s: Seq<char>) -> Seq<char> {
    sans_blancs_fin(sans_blancs_debut(s))
}

proof fn lemme_debut(s: Seq<char>, i: int)
    requires
        0 <= i <= s.len(),
        forall|k: int| 0 <= k < i ==> est_blanc(#[trigger] s[k]),
        i == s.len() || !est_blanc(s[i]),
    ensures
        sans_blancs_debut(s) == s.skip(i),
    decreases i,
{
    if i == 0 {
        assert(s.skip(0) =~= s);
    } else {
        let t = s.drop_first();
        assert forall|k: int| 0 <= k < i - 1 implies est_blanc(#[trigger] t[k]) by {
            assert(t[k] == s[k + 1]);
        }
        lemme_debut(t, i - 1);
        assert(t.skip(i - 1) =~= s.skip(i));
    }
}

proof fn lemme_fin(s: Seq<char>, j: int)
    requires
        0 <= j <= s.len(),
        forall|k: int| j <= k < s.len() ==> est_blanc(#[trigger] s[k]),
        j == 0 || !est_blanc(s[j - 1]),
    ensures
        sans_blancs_fin(s) == s.take(j),
    decreases s.len() - j,
{
    if j == s.len() {
        assert(s.take(j) =~= s);
    } else {
        let t = s.drop_last();
        assert forall|k: int| j <= k < t.len() implies est_blanc(#[trigger] t[k]) by {
            assert(t[k] == s[k]);
        }
        lemme_fin(t, j);
        assert(t.take(j) =~= s.take(j));
    }
}

/// The characters of `cs` from `a` (included) to `b` (excluded).
pub fn extraire(cs: &[char], a: usize, b: usize) -> (res: Vec<char>)
    requires
        a <= b <= cs@.len(),
    ensures
        res@ == cs@.subrange(a as int, b as int),
{
    let mut res: Vec<char> = Vec::new();
    let mut i = a;
    while i < b
        invariant
            a <= i <= b <= cs@.len(),
            res@ == cs@.subrange(a as int, i as int),
        decreases b - i,
    {
        res.push(cs[i]);
        assert(cs@.subrange(a as int, i + 1) =~= cs@.subrange(a as int, i as int).push(cs@[i as int]));
        i += 1;
    }
    res
}

/// `cs` without leading and trailing whitespace.
pub fn rogner_chars(cs: &[char]) -> (res: Vec<char>)
    ensures
        res@ == rogne(cs@),
{
    let n = cs.len();
    let mut i: usize = 0;
    while i < n && blanc(cs[i])
        invariant
            i <= n == cs@.len(),
            forall|k: int| 0 <= k < i ==> est_blanc(#[trigger] cs@[k]),
        decreases n - i,
    {
        i += 1;
    }
    proof {
        lemme_debut(cs@, i as int);
    }
    let mut j: usize = n;
    while j > i && blanc(cs[j - 1])
        invariant
            i <= j <= n == cs@.len(),
            forall|k: int| j <= k < n ==> est_blanc(#[trigger] cs@[k]),
        decreases j,
    {
        j -= 1;
    }
    proof {
        let t = cs@.skip(i as int);
        assert forall|k: int| j - i <= k < t.len() implies est_blanc(#[trigger] t[k]) by {
            assert(t[k] == cs@[k + i]);
        }
        if j > i {
            assert(t[j - i - 1] == cs@[j - 1]);
        }
        lemme_fin(t, j - i);
        assert(t.take(j - i) =~= cs@.subrange(i as int, j as int));
    }
    extraire(cs, i, j)
}

/// `s` without leading and trailing whitespace (`str::trim`).
pub fn rogner(s: &str) -> (res: String)
    ensures
        res@ == rogne(s@),
{
    let cs = vers_chars(s);
    let r = rogner_chars(cs.as_slice());
    depuis_chars(r.as_slice())
}

} // verus!

verus! {

/// Index of the first occurrence of `c` in `s`, if any.
pub open spec fn premier_indice(s: Seq<char>, c: char) -> Option<int>
    decreases s.len(),
{
    if s.len() == 0 {
        None
    } else if s[0] == c {
        Some(0)
    } else {
        match premier_indice(s.drop_first(), c) {
            Some(i) => Some(i + 1),
            None => None,
        }
    }
}

/// `s` cut at its first `c`, which belongs to neither part (`str::split_once`).
pub open spec fn coupe(s: Seq<char>, c: char) -> Option<(Seq<char>, Seq<char>)> {
    match premier_indice(s, c) {
        Some(i) => Some((s.take(i), s.skip(i + 1))),
        None => None,
    }
}

/// Characterises `premier_indice` by the positions of `c`.
pub proof fn lemme_premier_indice(s: Seq<char>, c: char)
    ensures
        premier_indice(s, c) matches Some(i) ==> 0 <= i < s.len() && s[i] == c && forall|k: int|
            0 <= k < i ==> s[k] != c,
        premier_indice(s, c) is None ==> forall|k: int| 0 <= k < s.len() ==> s[k] != c,
    decreases s.len(),
{
    if s.len() > 0 {
        lemme_premier_indice(s.drop_first(), c);
        if s[0] != c {
            assert forall|k: int| 1 <= k < s.len() implies s[k] == s.drop_first()[k - 1] by {}
        }
    }
}

proof fn lemme_premier_indice_trouve(s: Seq<char>, c: char, i: int)
    requires
        0 <= i < s.len(),
        s[i] == c,
        forall|k: int| 0 <= k < i ==> s[k] != c,
    ensures
        premier_indice(s, c) == Some(i),
    decreases i,
{
    if i > 0 {
        let t = s.drop_first();
        assert forall|k: int| 0 <= k < i - 1 implies t[k] != c by {
            assert(t[k] == s[k + 1]);
        }
        lemme_premier_indice_trouve(t, c, i - 1);
    }
}

proof fn lemme_premier_indice_absent(s: Seq<char>, c: char)
    requires
        forall|k: int| 0 <= k < s.len() ==> s[k] != c,
    ensures
        premier_indice(s, c) is None,
    decreases s.len(),
{
    if s.len() > 0 {
        let t = s.drop_first();
        assert forall|k: int| 0 <= k < t.len() implies t[k] != c by {
            assert(t[k] == s[k + 1]);
        }
        lemme_premier_indice_absent(t, c);
    }
}

/// Index of the first `c` in `cs`, if any.
pub fn chercher(cs: &[char], c: char) -> (res: Option<usize>)
    ensures
        match res {
            Some(i) => premier_indice(cs@, c) == Some(i as int),
            None => premier_indice(cs@, c) is None,
        },
{
    let mut i: usize = 0;
    while i < cs.len()
        invariant
            i <= cs@.len(),
            forall|k: int| 0 <= k < i ==> cs@[k] != c,
        decreases cs@.len() - i,
    {
        if cs[i] == c {
            proof {
                lemme_premier_indice_trouve(cs@, c, i as int);
            }
            return Some(i);
        }
        i += 1;
    }
    proof {
        lemme_premier_indice_absent(cs@, c);
    }
    None
}

/// `cs` cut at its first `c`.
pub fn couper_chars(cs: &[char], c: char) -> (res: Option<(Vec<char>, Vec<char>)>)
    ensures
        match res {
            Some((a, b)) => coupe(cs@, c) == Some((a@, b@)),
            None => coupe(cs@, c) is None,
        },
{
    let n = cs.len();
    match chercher(cs, c) {
        Some(i) => {
            proof {
                lemme_premier_indice(cs@, c);
                assert(i < cs@.len());
            }
            let a = extraire(cs, 0, i);
            let b = extraire(cs, i + 1, n);
            assert(a@ =~= cs@.take(i as int));
            assert(b@ =~= cs@.skip(i + 1));
            Some((a, b))
        },
        None => None,
    }
}

/// `s` cut at its first `c` (`str::split_once`).
pub fn couper(s: &str, c: char) -> (res: Option<(String, String)>)
    ensures
        match res {
            Some((a, b)) => coupe(s@, c) == Some((a@, b@)),
            None => coupe(s@, c) is None,
        },
{
    let cs = vers_chars(s);
    match couper_chars(cs.as_slice(), c) {
        Some((a, b)) => Some((depuis_chars(a.as_slice()), depuis_chars(b.as_slice()))),
        None => None,
    }
}

/// Number of occurrences of `c` in `s`.
pub open spec fn occurrences(s: Seq<char>, c: char) -> nat
    decreases s.len(),
{
    if s.len() == 0 {
        0
    } else {
        occurrences(s.drop_last(), c) + if s.last() == c {
            1nat
        } else {
            0nat
        }
    }
}

/// Counts the occurrences of `c` in `cs`.
pub fn compter(cs: &[char], c: char) -> (res: usize)
    ensures
        res == occurrences(cs@, c),
{
    let mut n: usize = 0;
    let mut i: usize = 0;
    while i < cs.len()
        invariant
            i <= cs@.len(),
            n == occurrences(cs@.take(i as int), c),
            n <= i,
        decreases cs@.len() - i,
    {
        assert(cs@.take(i + 1).drop_last() =~= cs@.take(i as int));
        if cs[i] == c {
            n += 1;
        }
        i += 1;
    }
    assert(cs@.take(cs@.len() as int) =~= cs@);
    n
}

/// Whether `s` begins with `c` (`str::starts_with` on a character).
pub open spec fn commence_par(s: Seq<char>, c: char) -> bool {
    s.len() > 0 && s[0] == c
}

/// Decides `commence_par`.
pub fn commence(s: &str, c: char) -> (r: bool)
    ensures
        r == commence_par(s@, c),
{
    let mut it = s.chars();
    match it.next() {
        Some(d) => d == c,
        None => false,
    }
}

} // verus!

verus! {

/// The character views of a sequence of strings.
pub open spec fn vues(v: Seq<String>) -> Seq<Seq<char>> {
    v.map_values(|l: String| l@)
}

/// `l` without one final carriage return.
pub open spec fn sans_cr(l: Seq<char>) -> Seq<char> {
    if l.len() > 0 && l.last() == '\r' {
        l.drop_last()
    } else {
        l
    }
}

/// Lines of `s`, the current line having begun with `cour`: a line ends at
/// each `'\n'`, and loses one `'\r'` just before it; a last line without
/// `'\n'` is kept as it is, and nothing follows a final `'\n'`.
pub open spec fn lignes_depuis(s: Seq<char>, cour: Seq<char>) -> Seq<Seq<char>>
    decreases s.len(),
{
    if s.len() == 0 {
        if cour.len() == 0 {
            seq![]
        } else {
            seq![cour]
        }
    } else if s[0] == '\n' {
        seq![sans_cr(cour)] + lignes_depuis(s.drop_first(), seq![])
    } else {
        lignes_depuis(s.drop_first(), cour.push(s[0]))
    }
}

/// Lines of `s` (`str::lines`, and `BufRead::lines` on the same bytes).
pub open spec fn lignes(s: Seq<char>) -> Seq<Seq<char>> {
    lignes_depuis(s, seq![])
}

/// Splits `cs` into lines.
pub fn lignes_chars(cs: &[char]) -> (res: Vec<String>)
    ensures
        vues(res@) == lignes(cs@),
{
    let n = cs.len();
    let mut res: Vec<String> = Vec::new();
    let mut debut: usize = 0;
    let mut i: usize = 0;
    assert(cs@.skip(0) =~= cs@);
    assert(cs@.subrange(0, 0) =~= Seq::<char>::empty());
    assert(vues(res@) =~= Seq::<Seq<char>>::empty());
    while i < n
        invariant
            debut <= i <= n == cs@.len(),
            vues(res@) + lignes_depuis(cs@.skip(i as int), cs@.subrange(debut as int, i as int))
                == lignes(cs@),
        decreases n - i,
    {
        let ghost s = cs@.skip(i as int);
        let ghost cour = cs@.subrange(debut as int, i as int);
        assert(s[0] == cs@[i as int]);
        assert(s.drop_first() =~= cs@.skip(i + 1));
        if cs[i] == '\n' {
            let fin = if i > debut && cs[i - 1] == '\r' {
                i - 1
            } else {
                i
            };
            let l = extraire(cs, debut, fin);
            assert(l@ =~= sans_cr(cour));
            let ghost avant = vues(res@);
            res.push(depuis_chars(l.as_slice()));
            assert(vues(res@) =~= avant.push(sans_cr(cour)));
            assert(cs@.subrange(i + 1, i + 1) =~= Seq::<char>::empty());
            assert(avant + (seq![sans_cr(cour)] + lignes_depuis(s.drop_first(), seq![])) =~= vues(
                res@,
            ) + lignes_depuis(s.drop_first(), seq![]));
            debut = i + 1;
        } else {
            assert(cour.push(cs@[i as int]) =~= cs@.subrange(debut as int, i + 1));
        }
        i += 1;
    }
    let ghost cour = cs@.subrange(debut as int, n as int);
    assert(cs@.skip(n as int) =~= Seq::<char>::empty());
    if debut < n {
        let l = extraire(cs, debut, n);
        let ghost avant = vues(res@);
        res.push(depuis_chars(l.as_slice()));
        assert(vues(res@) =~= avant + seq![cour]);
    } else {
        assert(vues(res@) + Seq::<Seq<char>>::empty() =~= vues(res@));
    }
    res
}

/// Splits `s` into lines (`str::lines`).
pub fn lignes_de(s: &str) -> (res: Vec<String>)
    ensures
        vues(res@) == lignes(s@),
{
    let cs = vers_chars(s);
    lignes_chars(cs.as_slice())
}

/// Words of `s`, the current word having begun with `cour`: maximal runs of
/// characters that are not whitespace.
pub open spec fn mots_depuis(s: Seq<char>, cour: Seq<char>) -> Seq<Seq<char>>
    decreases s.len(),
{
    if s.len() == 0 {
        if cour.len() == 0 {
            seq![]
        } else {
            seq![cour]
        }
    } else if est_blanc(s[0]) {
        (if cour.len() == 0 {
            seq![]
        } else {
            seq![cour]
        }) + mots_depuis(s.drop_first(), seq![])
    } else {
        mots_depuis(s.drop_first(), cour.push(s[0]))
    }
}

/// Words of `s` (`str::split_whitespace`).
pub open spec fn mots(s: Seq<char>) -> Seq<Seq<char>> {
    mots_depuis(s, seq![])
}

/// Splits `cs` into words.
pub fn mots_chars(cs: &[char]) -> (res: Vec<String>)
    ensures
        vues(res@) == mots(cs@),
{
    let n = cs.len();
    let mut res: Vec<String> = Vec::new();
    let mut debut: usize = 0;
    let mut i: usize = 0;
    assert(cs@.skip(0) =~= cs@);
    assert(cs@.subrange(0, 0) =~= Seq::<char>::empty());
    assert(vues(res@) =~= Seq::<Seq<char>>::empty());
    while i < n
        invariant
            debut <= i <= n == cs@.len(),
            vues(res@) + mots_depuis(cs@.skip(i as int), cs@.subrange(debut as int, i as int))
                == mots(cs@),
        decreases n - i,
    {
        let ghost s = cs@.skip(i as int);
        let ghost cour = cs@.subrange(debut as int, i as int);
        assert(s[0] == cs@[i as int]);
        assert(s.drop_first() =~= cs@.skip(i + 1));
        if blanc(cs[i]) {
            let ghost avant = vues(res@);
            if debut < i {
                let w = extraire(cs, debut, i);
                res.push(depuis_chars(w.as_slice()));
                assert(vues(res@) =~= avant.push(cour));
                assert(avant + (seq![cour] + mots_depuis(s.drop_first(), seq![])) =~= vues(res@)
                    + mots_depuis(s.drop_first(), seq![]));
            } else {
                assert(avant + (Seq::<Seq<char>>::empty() + mots_depuis(s.drop_first(), seq![]))
                    =~= avant + mots_depuis(s.drop_first(), seq![]));
            }
            assert(cs@.subrange(i + 1, i + 1) =~= Seq::<char>::empty());
            debut = i + 1;
        } else {
            assert(cour.push(cs@[i as int]) =~= cs@.subrange(debut as int, i + 1));
        }
        i += 1;
    }
    let ghost cour = cs@.subrange(debut as int, n as int);
    assert(cs@.skip(n as int) =~= Seq::<char>::empty());
    if debut < n {
        let w = extraire(cs, debut, n);
        let ghost avant = vues(res@);
        res.push(depuis_chars(w.as_slice()));
        assert(vues(res@) =~= avant + seq![cour]);
    } else {
        assert(vues(res@) + Seq::<Seq<char>>::empty() =~= vues(res@));
    }
    res
}

/// Splits `s` into words (`str::split_whitespace`).
pub fn mots_de(s: &str) -> (res: Vec<String>)
    ensures
        vues(res@) == mots(s@),
{
    let cs = vers_chars(s);
    mots_chars(cs.as_slice())
}

} // verus!

verus! {

/// The decimal digit `d` (`d < 10`).
pub open spec fn chiffre(d: nat) -> char {
    (d + 48) as char
}

/// Decimal writing of `n`, without leading zeros.
pub open spec fn decimal(n: nat) -> Seq<char>
    decreases n,
{
    if n < 10 {
        seq![chiffre(n)]
    } else {
        decimal(n / 10).push(chiffre(n % 10))
    }
}

/// Decimal writing of the signed integer `n`.
pub open spec fn decimal_signe(n: int) -> Seq<char> {
    if n < 0 {
        seq!['-'] + decimal((-n) as nat)
    } else {
        decimal(n as nat)
    }
}

/// Appends the decimal writing of `n` to `s`.
pub fn ecrire_decimal(s: &mut String, n: u64)
    ensures
        final(s)@ == old(s)@ + decimal(n as nat),
    decreases n,
{
    if n >= 10 {
        ecrire_decimal(s, n / 10);
    }
    let d = (n % 10) as u8;
    let c = (d + 48) as char;
    assert(c == chiffre((n % 10) as nat));
    pousser(s, c);
    proof {
        if n >= 10 {
            assert(old(s)@ + decimal((n / 10) as nat) + seq![c] =~= old(s)@ + decimal(n as nat));
        } else {
            assert(old(s)@.push(c) =~= old(s)@ + decimal(n as nat));
        }
    }
}

/// Appends the decimal writing of the signed `n` to `s`.
pub fn ecrire_decimal_signe(s: &mut String, n: i64)
    ensures
        final(s)@ == old(s)@ + decimal_signe(n as int),
{
    if n < 0 {
        pousser(s, '-');
        let m: u64 = if n == i64::MIN {
            9223372036854775808u64
        } else {
            (-n) as u64
        };
        ecrire_decimal(s, m);
        assert(old(s)@.push('-') + decimal(m as nat) =~= old(s)@ + decimal_signe(n as int));
    } else {
        ecrire_decimal(s, n as u64);
    }
}

/// The decimal writing of `n` (`u64::to_string`).
pub fn en_decimal(n: u64) -> (res: String)
    ensures
        res@ == decimal(n as nat),
{
    let mut s = String::new();
    ecrire_decimal(&mut s, n);
    assert(Seq::<char>::empty() + decimal(n as nat) =~= decimal(n as nat));
    s
}

/// Appends `t` to `s`.
pub fn ajouter(s: &mut String, t: &str)
    ensures
        final(s)@ == old(s)@ + t@,
{
    s.append(t);
}

/// The concatenation of `a` and `b`.
pub fn concatener(a: &str, b: &str) -> (res: String)
    ensures
        res@ == a@ + b@,
{
    let mut s = a.to_owned();
    s.append(b);
    s
}

/// `c` with an ASCII capital letter turned into its small letter.
pub open spec fn minuscule_ascii(c: char) -> char {
    if 'A' <= c <= 'Z' {
        ((c as u32) + 32) as char
    } else {
        c
    }
}

/// `a` and `b` are equal up to ASCII case (`str::eq_ignore_ascii_case`).
pub open spec fn egal_sans_casse(a: Seq<char>, b: Seq<char>) -> bool {
    a.len() == b.len() && forall|i: int|
        0 <= i < a.len() ==> minuscule_ascii(#[trigger] a[i]) == minuscule_ascii(b[i])
}

fn minuscule(c: char) -> (r: char)
    ensures
        r == minuscule_ascii(c),
{
    if 'A' <= c && c <= 'Z' {
        let u = (c as u32) + 32;
        assert(0x61 <= u <= 0x7A);
        let b = u as u8;
        b as char
    } else {
        c
    }
}

/// Decides `egal_sans_casse`.
pub fn egaux_sans_casse(a: &str, b: &str) -> (r: bool)
    ensures
        r == egal_sans_casse(a@, b@),
{
    let x = vers_chars(a);
    let y = vers_chars(b);
    if x.len() != y.len() {
        return false;
    }
    let mut i: usize = 0;
    while i < x.len()
        invariant
            i <= x@.len() == y@.len(),
            x@ == a@,
            y@ == b@,
            forall|k: int| 0 <= k < i ==> minuscule_ascii(#[trigger] x@[k]) == minuscule_ascii(y@[k]),
        decreases x@.len() - i,
    {
        if minuscule(x[i]) != minuscule(y[i]) {
            return false;
        }
        i += 1;
    }
    true
}

/// `parts` joined with `sep` between each two of them.
pub open spec fn joindre(parts: Seq<Seq<char>>, sep: Seq<char>) -> Seq<char>
    decreases parts.len(),
{
    if parts.len() == 0 {
        seq![]
    } else if parts.len() == 1 {
        parts[0]
    } else {
        joindre(parts.drop_last(), sep) + sep + parts.last()
    }
}

/// Joins `parts` with `sep` (`[String]::join`).
pub fn joindre_chaines(parts: &Vec<String>, sep: &str) -> (res: String)
    ensures
        res@ == joindre(vues(parts@), sep@),
{
    let mut res = String::new();
    let mut i: usize = 0;
    while i < parts.len()
        invariant
            i <= parts@.len(),
            res@ == joindre(vues(parts@).take(i as int), sep@),
        decreases parts@.len() - i,
    {
        let ghost v = vues(parts@);
        assert(v.take(i + 1).drop_last() =~= v.take(i as int));
        if i > 0 {
            res.append(sep);
        } else {
            assert(res@ + parts@[0]@ =~= parts@[0]@);
        }
        res.append(parts[i].as_str());
        i += 1;
    }
    assert(vues(parts@).take(parts@.len() as int) =~= vues(parts@));
    res
}

} // verus!

verus! {

/// Whether `a` and `b` hold the same characters.
pub fn egales(a: &str, b: &str) -> (r: bool)
    ensures
        r == (a@ == b@),
{
    let x = vers_chars(a);
    let y = vers_chars(b);
    if x.len() != y.len() {
        return false;
    }
    let mut i: usize = 0;
    while i < x.len()
        invariant
            i <= x@.len() == y@.len(),
            x@ == a@,
            y@ == b@,
            forall|k: int| 0 <= k < i ==> x@[k] == y@[k],
        decreases x@.len() - i,
    {
        if x[i] != y[i] {
            return false;
        }
        i += 1;
    }
    assert(x@ =~= y@);
    true
}

} // verus!

verus! {

/// Cutting at the first `c` loses nothing but that `c`, and the first part
/// holds no `c`; when there is no cut, `s` holds no `c`.
pub proof fn loi_coupe(s: Seq<char>, c: char)
    ensures
        coupe(s, c) matches Some((a, b)) ==> s == a + seq![c] + b && !a.contains(c),
        coupe(s, c) is None ==> !s.contains(c),
{
    lemme_premier_indice(s, c);
    if let Some(i) = premier_indice(s, c) {
        assert(s =~= s.take(i) + seq![c] + s.skip(i + 1));
        assert forall|k: int| 0 <= k < s.take(i).len() implies s.take(i)[k] != c by {}
    }
}

proof fn lemme_debut_extrait(s: Seq<char>) -> (a: int)
    ensures
        0 <= a <= s.len(),
        sans_blancs_debut(s) == s.skip(a),
    decreases s.len(),
{
    if s.len() > 0 && est_blanc(s[0]) {
        let a = lemme_debut_extrait(s.drop_first());
        assert(s.drop_first().skip(a) =~= s.skip(a + 1));
        a + 1
    } else {
        assert(s.skip(0) =~= s);
        0
    }
}

proof fn lemme_fin_extrait(s: Seq<char>) -> (b: int)
    ensures
        0 <= b <= s.len(),
        sans_blancs_fin(s) == s.take(b),
    decreases s.len(),
{
    if s.len() > 0 && est_blanc(s.last()) {
        let b = lemme_fin_extrait(s.drop_last());
        assert(s.drop_last().take(b) =~= s.take(b));
        b
    } else {
        assert(s.take(s.len() as int) =~= s);
        s.len() as int
    }
}

/// Trimming keeps a contiguous part of the text: what it gives is
/// `s[a..b]` for some `a <= b`.
pub proof fn loi_rogne_extrait(s: Seq<char>)
    ensures
        exists|a: int, b: int| 0 <= a <= b <= s.len() && rogne(s) == s.subrange(a, b),
{
    let a = lemme_debut_extrait(s);
    let t = s.skip(a);
    let b = lemme_fin_extrait(t);
    assert(t.take(b) =~= s.subrange(a, a + b));
}

proof fn lemme_debut_net(s: Seq<char>)
    ensures
        sans_blancs_debut(s).len() == 0 || !est_blanc(sans_blancs_debut(s)[0]),
    decreases s.len(),
{
    if s.len() > 0 && est_blanc(s[0]) {
        lemme_debut_net(s.drop_first());
    }
}

proof fn lemme_fin_nette(s: Seq<char>)
    ensures
        sans_blancs_fin(s).len() == 0 || !est_blanc(sans_blancs_fin(s).last()),
    decreases s.len(),
{
    if s.len() > 0 && est_blanc(s.last()) {
        lemme_fin_nette(s.drop_last());
    }
}

/// Trimming twice gives what trimming once gives.
pub proof fn loi_rogne_idempotent(s: Seq<char>)
    ensures
        rogne(rogne(s)) == rogne(s),
{
    let u = sans_blancs_debut(s);
    lemme_debut_net(s);
    let b = lemme_fin_extrait(u);
    lemme_fin_nette(u);
    let v = sans_blancs_fin(u);
    assert(v == u.take(b));
    if v.len() > 0 {
        assert(v[0] == u[0]);
    }
    assert(sans_blancs_debut(v) == v);
    assert(sans_blancs_fin(v) == v);
}

/// A text made of `a`, one `c` and `b`, where `a` holds no `c`, is cut into
/// `a` and `b`.
pub proof fn loi_coupe_unique(a: Seq<char>, b: Seq<char>, c: char)
    requires
        !a.contains(c),
    ensures
        coupe(a + seq![c] + b, c) == Some((a, b)),
{
    let s = a + seq![c] + b;
    assert forall|k: int| 0 <= k < a.len() implies s[k] != c by {
        if s[k] == c {
            assert(a[k] == c);
        }
    }
    assert(s[a.len() as int] == c);
    lemme_premier_indice_trouve(s, c, a.len() as int);
    assert(s.take(a.len() as int) =~= a);
    assert(s.skip(a.len() as int + 1) =~= b);
}

/// The occurrences of `c` in `a + b` are those in `a` and those in `b`.
pub proof fn loi_occurrences_concat(a: Seq<char>, b: Seq<char>, c: char)
    ensures
        occurrences(a + b, c) == occurrences(a, c) + occurrences(b, c),
    decreases b.len(),
{
    if b.len() == 0 {
        assert(a + b =~= a);
    } else {
        assert((a + b).drop_last() =~= a + b.drop_last());
        loi_occurrences_concat(a, b.drop_last(), c);
    }
}

/// A text that holds no `c` has no occurrence of it.
pub proof fn loi_occurrences_absent(s: Seq<char>, c: char)
    requires
        !s.contains(c),
    ensures
        occurrences(s, c) == 0,
    decreases s.len(),
{
    if s.len() > 0 {
        let t = s.drop_last();
        assert(!t.contains(c)) by {
            if t.contains(c) {
                let k = choose|k: int| 0 <= k < t.len() && t[k] == c;
                assert(s[k] == c);
            }
        }
        assert(s[s.len() - 1] != c);
        loi_occurrences_absent(t, c);
    }
}

/// Equality up to ASCII case is symmetric and transitive.
pub proof fn loi_sans_casse(a: Seq<char>, b: Seq<char>, c: Seq<char>)
    ensures
        egal_sans_casse(a, b) ==> egal_sans_casse(b, a),
        egal_sans_casse(a, b) && egal_sans_casse(b, c) ==> egal_sans_casse(a, c),
{
    if egal_sans_casse(a, b) && egal_sans_casse(b, c) {
        assert forall|i: int| 0 <= i < a.len() implies minuscule_ascii(#[trigger] a[i])
            == minuscule_ascii(c[i]) by {
            assert(minuscule_ascii(a[i]) == minuscule_ascii(b[i]));
            assert(minuscule_ascii(b[i]) == minuscule_ascii(c[i]));
        }
    }
    if egal_sans_casse(a, b) {
        assert forall|i: int| 0 <= i < b.len() implies minuscule_ascii(#[trigger] b[i])
            == minuscule_ascii(a[i]) by {
            assert(minuscule_ascii(a[i]) == minuscule_ascii(b[i]));
        }
    }
}

} // verus!
