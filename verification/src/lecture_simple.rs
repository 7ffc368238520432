//! Sources whose reading hands back the text or the reading failure.

use vstd::prelude::*;

verus! {

/// A source of text.
pub trait Readable {
    /// All the text of the source.
    fn read(&mut self) -> Result<String, std::io::Error>;
}

/// A file on disk, named by its path.
pub struct FileReader {
    pub path: String,
}

/// Text held in memory.
pub struct MemoryReader {
    pub content: String,
}

impl Readable for MemoryReader {
    /// The text held; reading it never fails and changes nothing.
    fn read(&mut self) -> (r: Result<String, std::io::Error>)
        ensures
            final(self).content@ == old(self).content@,
            r matches Ok(s) && s@ == old(self).content@,
    {
        Ok(self.content.clone())
    }
}

/// The standard input.
pub struct StdinReader;

} // verus!
