//! Sources that can be read once: after a read, a source is exhausted and
//! any further read is refused; and the report made of what a source gave.

use vstd::prelude::*;
use crate::es::{message_io, message_utf8};
use vstd::utf8::encode_utf8;
use crate::texte::{joindre, joindre_chaines, vues, lignes, lignes_de, mots, mots_de};

verus! {

/// What can go wrong while reading a source.
#[derive(Debug)]
pub enum ReadError {
    /// The source could not be read.
    Io(std::io::Error),
    /// The source has already been read, or gave nothing.
    EmptySource,
    /// The bytes read are not UTF-8.
    Utf8(std::string::FromUtf8Error),
}

impl ReadError {
    /// The message of the error.
    pub fn message(&self) -> (r: String)
        ensures
            match self {
                ReadError::Io(_) => "Erreur I/O : "@.is_prefix_of(r@),
                ReadError::EmptySource => r@ == "Source vide : aucune donnée disponible"@,
                ReadError::Utf8(_) => "Encodage UTF-8 invalide : "@.is_prefix_of(r@),
            },
    {
        match self {
            ReadError::Io(e) => message_io("Erreur I/O : ", e),
            ReadError::EmptySource => String::from_str("Source vide : aucune donnée disponible"),
            ReadError::Utf8(e) => message_utf8("Encodage UTF-8 invalide : ", e),
        }
    }
}

/// A source that can be read once.
///
/// A kind of source whose reads are known ahead sets `decrit_lectures` and
/// gives `nom_source` and `a_lire`; what the contracts below say of a read
/// holds of such kinds.
pub trait Readable {
    /// Whether reads of this source are known ahead.
    open spec fn decrit_lectures(&self) -> bool {
        false
    }

    /// The name of the source.
    open spec fn nom_source(&self) -> Seq<char> {
        Seq::empty()
    }

    /// The text that the next read gives, or `None` when it is refused
    /// because the source has nothing left.
    open spec fn a_lire(&self) -> Option<Seq<char>> {
        None
    }

    /// A name that describes the source.
    fn source_name(&self) -> (r: &str)
        ensures
            self.decrit_lectures() ==> r@ == self.nom_source(),
    ;

    /// All the text of the source. Of a source whose reads are known ahead:
    /// the read gives what `a_lire` says, keeps the name, and leaves
    /// nothing to read.
    fn read_content(&mut self) -> (r: Result<String, ReadError>)
        ensures
            old(self).decrit_lectures() ==> ({
                &&& final(self).decrit_lectures()
                &&& final(self).nom_source() == old(self).nom_source()
                &&& final(self).a_lire() is None
                &&& match old(self).a_lire() {
                    Some(d) => (r matches Ok(s) && s@ == d),
                    None => (r matches Err(ReadError::EmptySource)),
                }
            }),
    ;

    /// Whether the source has already been read.
    fn is_exhausted(&self) -> bool;
}

/// Text held in memory, under a name.
pub struct MemorySource {
    name: String,
    data: Option<String>,
}

impl MemorySource {
    /// A source named `name` that holds `data`.
    pub fn new(name: &str, data: &str) -> (r: Self)
        ensures
            r.nom() == name@,
            r.donnees() == Some(data@),
    {
        MemorySource { name: name.to_owned(), data: Some(data.to_owned()) }
    }

    /// The name of the source.
    pub closed spec fn nom(&self) -> Seq<char> {
        self.name@
    }

    /// The text still held, if the source has not been read.
    pub closed spec fn donnees(&self) -> Option<Seq<char>> {
        match self.data {
            Some(d) => Some(d@),
            None => None,
        }
    }
}

impl Readable for MemorySource {
    open spec fn decrit_lectures(&self) -> bool {
        true
    }

    open spec fn nom_source(&self) -> Seq<char> {
        self.nom()
    }

    open spec fn a_lire(&self) -> Option<Seq<char>> {
        self.donnees()
    }

    fn source_name(&self) -> (r: &str)
        ensures
            r@ == self.nom(),
    {
        self.name.as_str()
    }

    /// Gives the text held the first time, and then refuses.
    fn read_content(&mut self) -> (r: Result<String, ReadError>)
        ensures
            final(self).nom() == old(self).nom(),
            final(self).donnees() is None,
            match old(self).donnees() {
                Some(d) => r matches Ok(s) && s@ == d,
                None => r matches Err(ReadError::EmptySource),
            },
    {
        match self.data.take() {
            Some(d) => Ok(d),
            None => Err(ReadError::EmptySource),
        }
    }

    fn is_exhausted(&self) -> (r: bool)
        ensures
            r == (self.donnees() is None),
    {
        self.data.is_none()
    }
}

/// A file on disk, read once.
pub struct FileSource {
    path: String,
    exhausted: bool,
}

impl FileSource {
    /// A source that reads the file at `path`.
    pub fn new(path: &str) -> (r: Self)
        ensures
            r.chemin() == path@,
            !r.epuisee(),
    {
        FileSource { path: path.to_owned(), exhausted: false }
    }

    /// The path of the file.
    pub closed spec fn chemin(&self) -> Seq<char> {
        self.path@
    }

    /// Whether the file has been read.
    pub closed spec fn epuisee(&self) -> bool {
        self.exhausted
    }

    /// The name of the source: the path of the file.
    pub fn source_name(&self) -> (r: &str)
        ensures
            r@ == self.chemin(),
    {
        self.path.as_str()
    }

    /// Whether the file has been read.
    pub fn is_exhausted(&self) -> (r: bool)
        ensures
            r == self.epuisee(),
    {
        self.exhausted
    }

    /// Whether the file may be read: once it has been, it may not.
    pub fn avant_lecture(&self) -> (r: Result<(), ReadError>)
        ensures
            self.epuisee() ==> r matches Err(ReadError::EmptySource),
            !self.epuisee() ==> r is Ok,
    {
        if self.exhausted {
            Err(ReadError::EmptySource)
        } else {
            Ok(())
        }
    }

    /// The outcome of reading the file, given what the read gave; a
    /// successful read exhausts the source.
    pub fn apres_lecture(&mut self, lu: Result<String, std::io::Error>) -> (r: Result<String, ReadError>)
        ensures
            final(self).chemin() == old(self).chemin(),
            match lu {
                Err(e) => final(self).epuisee() == old(self).epuisee() && r == Err::<
                    String,
                    ReadError,
                >(ReadError::Io(e)),
                Ok(c) => final(self).epuisee() && (r matches Ok(s) && s@ == c@),
            },
    {
        match lu {
            Err(e) => Err(ReadError::Io(e)),
            Ok(c) => {
                self.exhausted = true;
                Ok(c)
            },
        }
    }
}

/// The standard input, read once.
pub struct StdinSource {
    exhausted: bool,
}

impl StdinSource {
    /// A source that reads the standard input.
    pub fn new() -> (r: Self)
        ensures
            !r.epuisee(),
    {
        StdinSource { exhausted: false }
    }

    /// Whether the input has been read.
    pub closed spec fn epuisee(&self) -> bool {
        self.exhausted
    }

    /// The name of the source.
    pub fn source_name(&self) -> (r: &str)
        ensures
            r@ == "<stdin>"@,
    {
        "<stdin>"
    }

    /// Whether the input has been read.
    pub fn is_exhausted(&self) -> (r: bool)
        ensures
            r == self.epuisee(),
    {
        self.exhausted
    }

    /// Whether the input may be read: once it has been, it may not.
    pub fn avant_lecture(&self) -> (r: Result<(), ReadError>)
        ensures
            self.epuisee() ==> r matches Err(ReadError::EmptySource),
            !self.epuisee() ==> r is Ok,
    {
        if self.exhausted {
            Err(ReadError::EmptySource)
        } else {
            Ok(())
        }
    }

    /// The outcome of reading the input, given its lines (or the failure of
    /// one of them): reading all the lines exhausts the source; no line is
    /// refused, and otherwise the lines are joined by `'\n'`.
    pub fn apres_lecture(&mut self, lu: Result<Vec<String>, std::io::Error>) -> (r: Result<
        String,
        ReadError,
    >)
        ensures
            match lu {
                Err(e) => final(self).epuisee() == old(self).epuisee() && r == Err::<
                    String,
                    ReadError,
                >(ReadError::Io(e)),
                Ok(ls) => final(self).epuisee() && (ls@.len() == 0 ==> r matches Err(
                    ReadError::EmptySource,
                )) && (ls@.len() > 0 ==> (r matches Ok(s) && s@ == joindre(vues(ls@), "\n"@))),
            },
    {
        match lu {
            Err(e) => Err(ReadError::Io(e)),
            Ok(ls) => {
                self.exhausted = true;
                if ls.len() == 0 {
                    Err(ReadError::EmptySource)
                } else {
                    Ok(joindre_chaines(&ls, "\n"))
                }
            },
        }
    }
}

/// What is reported of a source.
pub struct Rapport {
    /// The name of the source.
    pub nom: String,
    /// Its number of lines.
    pub lignes: usize,
    /// Its number of words.
    pub mots: usize,
    /// Its length in bytes.
    pub octets: usize,
    /// Its first five lines (or fewer, if it has fewer).
    pub apercu: Vec<String>,
    /// The number of its lines beyond the first five.
    pub restantes: usize,
}

/// The number of lines shown.
pub open spec fn apercu_max() -> int {
    5
}

/// `r` reports the text `c` of the source named `n` (its length in bytes
/// is that of its UTF-8 encoding).
pub open spec fn rapporte(r: Rapport, n: Seq<char>, c: Seq<char>) -> bool {
    let ls = lignes(c);
    &&& r.nom@ == n
    &&& r.lignes == ls.len()
    &&& r.mots == mots(c).len()
    &&& r.octets == encode_utf8(c).len() as usize
    &&& vues(r.apercu@) == ls.take(if ls.len() < apercu_max() { ls.len() as int } else { apercu_max() })
    &&& r.restantes == if ls.len() > apercu_max() { ls.len() - apercu_max() } else { 0 }
}

/// The report of the text `contenu` of the source named `nom`.
pub fn rapport(nom: &str, contenu: &str) -> (r: Rapport)
    ensures
        rapporte(r, nom@, contenu@),
{
    let ls = lignes_de(contenu);
    let ws = mots_de(contenu);
    let n = ls.len();
    let mut apercu: Vec<String> = Vec::new();
    let mut i: usize = 0;
    while i < n && i < 5
        invariant
            i <= n == ls@.len(),
            i <= 5,
            vues(apercu@) == vues(ls@).take(i as int),
        decreases 5 - i,
    {
        let ghost avant = vues(apercu@);
        apercu.push(ls[i].clone());
        assert(vues(apercu@) =~= avant.push(ls@[i as int]@));
        assert(vues(ls@).take(i + 1) =~= vues(ls@).take(i as int).push(ls@[i as int]@));
        i += 1;
    }
    let restantes = if n > 5 {
        n - 5
    } else {
        0
    };
    Rapport {
        nom: nom.to_owned(),
        lignes: n,
        mots: ws.len(),
        octets: contenu.len(),
        apercu,
        restantes,
    }
}

/// What processing makes of a read of the source named `nom`: the report
/// of the text read, or the read's error as it is.
pub fn rapport_de_lecture(nom: &str, lu: Result<String, ReadError>) -> (r: Result<Rapport, ReadError>)
    ensures
        match lu {
            Ok(c) => (r matches Ok(rap) && rapporte(rap, nom@, c@)),
            Err(e) => r == Err::<Rapport, ReadError>(e),
        },
{
    match lu {
        Ok(content) => Ok(rapport(nom, content.as_str())),
        Err(e) => Err(e),
    }
}

/// Reads `source` once and reports what it gave, under the name it had
/// before the read; a failed read is handed back as it is. Whatever the
/// source, a report is that of a text under the name it carries. Of a
/// source whose reads are known ahead: the report is of its name and of
/// the text the read gave, the read is refused exactly when nothing was
/// left, and the source is left with nothing to read.
pub fn process_static<R: Readable>(source: &mut R) -> (r: Result<Rapport, ReadError>)
    ensures
        r matches Ok(rap) ==> exists|c: Seq<char>| rapporte(rap, rap.nom@, c),
        old(source).decrit_lectures() ==> ({
            &&& final(source).decrit_lectures()
            &&& final(source).nom_source() == old(source).nom_source()
            &&& final(source).a_lire() is None
            &&& match old(source).a_lire() {
                Some(d) => (r matches Ok(rap) && rapporte(rap, old(source).nom_source(), d)),
                None => (r matches Err(ReadError::EmptySource)),
            }
        }),
{
    let name = source.source_name().to_owned();
    let lu = source.read_content();
    let ghost lu_vu = lu;
    let r = rapport_de_lecture(name.as_str(), lu);
    proof {
        if let Ok(c) = lu_vu {
            assert(r matches Ok(rap) && rapporte(rap, rap.nom@, c@));
        }
    }
    r
}

} // verus!
