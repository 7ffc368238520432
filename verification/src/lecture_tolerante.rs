//! A file source whose failure to read becomes a message in place of the
//! text.

use vstd::prelude::*;

verus! {

/// A file on disk, named by its path.
pub struct FileReader {
    pub path: String,
}

impl FileReader {
    /// The text of the file, given what reading it gave; a failure gives
    /// the message "Erreur lecture fichier".
    pub fn contenu_ou_message(&self, lu: Result<String, std::io::Error>) -> (r: String)
        ensures
            match lu {
                Ok(c) => r@ == c@,
                Err(_) => r@ == "Erreur lecture fichier"@,
            },
    {
        match lu {
            Ok(c) => c,
            Err(_) => String::from_str("Erreur lecture fichier"),
        }
    }
}

} // verus!
