//! Sources of text behind one trait; reading an empty source is an error.

use vstd::prelude::*;
use crate::es::message_io;
use crate::texte::{joindre, joindre_chaines, vues};

verus! {

/// What can go wrong while reading a source.
#[derive(Debug)]
pub enum ReadError {
    /// The source could not be read.
    Io(std::io::Error),
    /// The source holds no text.
    Empty,
}

impl ReadError {
    /// The message of the error.
    pub fn message(&self) -> (r: String)
        ensures
            match self {
                ReadError::Io(_) => "erreur I/O : "@.is_prefix_of(r@),
                ReadError::Empty => r@ == "source vide"@,
            },
    {
        match self {
            ReadError::Io(e) => message_io("erreur I/O : ", e),
            ReadError::Empty => String::from_str("source vide"),
        }
    }
}

/// A source of text.
pub trait Readable {
    /// All the text of the source.
    fn read_content(&self) -> Result<String, ReadError>;

    /// What kind of source it is; unless a source says otherwise, "source
    /// inconnue".
    fn describe(&self) -> (r: &str)
        default_ensures
            r@ == "source inconnue"@,
    {
        "source inconnue"
    }
}

/// The outcome of a read that gave `lu`: an empty text is refused.
pub open spec fn accepte(lu: Seq<char>) -> bool {
    lu.len() > 0
}

/// Refuses an empty text, keeps any other.
fn non_vide(contenu: String) -> (r: Result<String, ReadError>)
    ensures
        accepte(contenu@) ==> (r matches Ok(s) && s@ == contenu@),
        !accepte(contenu@) ==> r matches Err(ReadError::Empty),
{
    if contenu.as_str().is_empty() {
        Err(ReadError::Empty)
    } else {
        Ok(contenu)
    }
}

/// A file on disk, named by its path.
pub struct FileReader {
    path: String,
}

impl FileReader {
    /// A reader of the file at `path`.
    pub fn new(path: &str) -> (r: Self)
        ensures
            r.chemin() == path@,
    {
        FileReader { path: path.to_owned() }
    }

    /// The path of the file.
    pub closed spec fn chemin(&self) -> Seq<char> {
        self.path@
    }

    /// The path of the file.
    pub fn path(&self) -> (r: &str)
        ensures
            r@ == self.chemin(),
    {
        self.path.as_str()
    }

    /// What kind of source it is.
    pub fn describe(&self) -> (r: &str)
        ensures
            r@ == "fichier disque"@,
    {
        "fichier disque"
    }

    /// The outcome of reading the file, given what the read gave: its
    /// failure, or its text, refused when empty.
    pub fn accepter(&self, lu: Result<String, std::io::Error>) -> (r: Result<String, ReadError>)
        ensures
            match lu {
                Err(e) => r == Err::<String, ReadError>(ReadError::Io(e)),
                Ok(c) => (accepte(c@) ==> (r matches Ok(s) && s@ == c@)) && (!accepte(c@)
                    ==> r matches Err(ReadError::Empty)),
            },
    {
        match lu {
            Err(e) => Err(ReadError::Io(e)),
            Ok(c) => non_vide(c),
        }
    }
}

/// Text held in memory.
pub struct MemoryReader {
    content: String,
}

impl MemoryReader {
    /// A reader of `content`.
    pub fn new(content: &str) -> (r: Self)
        ensures
            r.contenu() == content@,
    {
        MemoryReader { content: content.to_owned() }
    }

    /// The text held.
    pub closed spec fn contenu(&self) -> Seq<char> {
        self.content@
    }
}

impl Readable for MemoryReader {
    /// The text held; an empty text is refused.
    fn read_content(&self) -> (r: Result<String, ReadError>)
        ensures
            accepte(self.contenu()) ==> (r matches Ok(s) && s@ == self.contenu()),
            !accepte(self.contenu()) ==> r matches Err(ReadError::Empty),
    {
        non_vide(self.content.clone())
    }

    fn describe(&self) -> (r: &str)
        ensures
            r@ == "buffer mémoire"@,
    {
        "buffer mémoire"
    }
}

/// The standard input.
pub struct StdinReader;

impl StdinReader {
    /// What kind of source it is.
    pub fn describe(&self) -> (r: &str)
        ensures
            r@ == "stdin"@,
    {
        "stdin"
    }

    /// The outcome of reading the input, given the lines it gave (or the
    /// failure of one of them): the lines joined by `'\n'`, refused when
    /// that is empty.
    pub fn accepter(&self, lu: Result<Vec<String>, std::io::Error>) -> (r: Result<String, ReadError>)
        ensures
            match lu {
                Err(e) => r == Err::<String, ReadError>(ReadError::Io(e)),
                Ok(ls) => {
                    let c = joindre(vues(ls@), "\n"@);
                    &&& accepte(c) ==> (r matches Ok(s) && s@ == c)
                    &&& !accepte(c) ==> r matches Err(ReadError::Empty)
                },
            },
    {
        match lu {
            Err(e) => Err(ReadError::Io(e)),
            Ok(ls) => non_vide(joindre_chaines(&ls, "\n")),
        }
    }
}

} // verus!
