//! Standard types that the library's errors carry, the one decoding of
//! bytes into text that it needs, and the standard writings of values that
//! its error messages hold.

use vstd::prelude::*;
use vstd::utf8::{decode_utf8, valid_utf8};
use crate::texte::{ajouter, decimal, ecrire_decimal};

verus! {

/// `std::io::Error`, carried through the library's errors.
#[verifier::external_type_specification]
#[verifier::external_body]
pub struct ExIoError(std::io::Error);

/// `std::string::FromUtf8Error`, carried through the library's errors.
#[verifier::external_type_specification]
#[verifier::external_body]
pub struct ExFromUtf8Error(std::string::FromUtf8Error);

/// `String::from_utf8`: succeeds exactly on valid UTF-8, and then the
/// string's characters are the ones the bytes encode, as the standard
/// library documents.
#[verifier::external_body]
pub(crate) fn chaine_depuis_utf8(octets: Vec<u8>) -> (r: Result<String, std::string::FromUtf8Error>)
    ensures
        r is Ok <==> valid_utf8(octets@),
        r matches Ok(s) ==> s@ == decode_utf8(octets@),
{
    String::from_utf8(octets)
}

/// The message of an I/O error, as `Display` writes it. For an error that
/// the operating system reports it is the system's own text, which rests
/// on the machine: nothing is stated of it.
#[verifier::external_body]
fn texte_io(e: &std::io::Error) -> (r: String) {
    format!("{}", e)
}

/// The message of a `FromUtf8Error`, as `Display` writes it. The standard
/// library documents no form for it: nothing is stated of it.
#[verifier::external_body]
fn texte_utf8(e: &std::string::FromUtf8Error) -> (r: String) {
    format!("{}", e)
}

/// How `Debug` writes the text `s`: quoted, with its special characters
/// escaped.
pub uninterp spec fn forme_debug(s: Seq<char>) -> Seq<char>;

/// `<str as Debug>`: the text written as `forme_debug` says.
#[verifier::external_body]
pub(crate) fn citer(s: &str) -> (r: String)
    ensures
        r@ == forme_debug(s@),
{
    format!("{:?}", s)
}

/// `prefixe` followed by the message of the I/O error `e`.
pub(crate) fn message_io(prefixe: &str, e: &std::io::Error) -> (r: String)
    ensures
        prefixe@.is_prefix_of(r@),
{
    let mut s = String::from_str(prefixe);
    let d = texte_io(e);
    ajouter(&mut s, d.as_str());
    assert((prefixe@ + d@).subrange(0, prefixe@.len() as int) =~= prefixe@);
    s
}

/// `prefixe` followed by the message of the decoding error `e`.
pub(crate) fn message_utf8(prefixe: &str, e: &std::string::FromUtf8Error) -> (r: String)
    ensures
        prefixe@.is_prefix_of(r@),
{
    let mut s = String::from_str(prefixe);
    let d = texte_utf8(e);
    ajouter(&mut s, d.as_str());
    assert((prefixe@ + d@).subrange(0, prefixe@.len() as int) =~= prefixe@);
    s
}

/// `avant`, the decimal writing of `n`, then `apres`.
pub(crate) fn avec_nombre(avant: &str, n: usize, apres: &str) -> (r: String)
    ensures
        r@ == avant@ + decimal(n as nat) + apres@,
{
    let mut s = String::from_str(avant);
    ecrire_decimal(&mut s, n as u64);
    ajouter(&mut s, apres);
    s
}

} // verus!
