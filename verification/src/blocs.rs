//! Gathering the bytes that a reader hands out block after block, until it
//! hands out none, then decoding them as UTF-8.

use vstd::prelude::*;
use vstd::utf8::{decode_utf8, valid_utf8};
use crate::es::chaine_depuis_utf8;

verus! {

/// The bytes gathered so far.
pub struct Accumulateur {
    octets: Vec<u8>,
}

impl Accumulateur {
    /// Nothing gathered yet.
    pub fn new() -> (r: Self)
        ensures
            r.octets() == Seq::<u8>::empty(),
    {
        Accumulateur { octets: Vec::new() }
    }

    /// The bytes gathered so far.
    pub closed spec fn octets(&self) -> Seq<u8> {
        self.octets@
    }

    /// Takes the first `count` bytes of `bloc`, the reader's last answer;
    /// returns whether reading goes on, that is whether `count` is not 0.
    pub fn ajouter(&mut self, bloc: &[u8], count: usize) -> (continuer: bool)
        requires
            count <= bloc@.len(),
        ensures
            continuer == (count != 0),
            final(self).octets() == old(self).octets() + bloc@.take(count as int),
    {
        let mut i: usize = 0;
        while i < count
            invariant
                i <= count <= bloc@.len(),
                self.octets@ == old(self).octets@ + bloc@.take(i as int),
            decreases count - i,
        {
            self.octets.push(bloc[i]);
            assert(bloc@.take(i + 1) =~= bloc@.take(i as int).push(bloc@[i as int]));
            i += 1;
        }
        count != 0
    }

    /// The text that the bytes encode, or the decoding error when they are
    /// not UTF-8.
    pub fn terminer(self) -> (r: Result<String, std::string::FromUtf8Error>)
        ensures
            r is Ok <==> valid_utf8(self.octets()),
            r matches Ok(s) ==> s@ == decode_utf8(self.octets()),
    {
        chaine_depuis_utf8(self.octets)
    }
}

} // verus!
