//! The text form of identifiers. Every identifier is a ULID, a 128-bit
//! number written as 26 characters of Crockford's base 32; the `ulid`
//! crate writes and reads that form.
use vstd::prelude::*;

verus! {

/// The 26-character text that `ulid::Ulid::to_string` writes for `value`.
pub uninterp spec fn ulid_text(value: u128) -> Seq<char>;

/// What `ulid::Ulid::from_string` reads from `text`: the number, or
/// `None` where it reports an error.
pub uninterp spec fn ulid_value(text: Seq<char>) -> Option<u128>;

/// The text form of an identifier, written by `ulid::Ulid::to_string`.
/// Claimed of it: the text is the named one, it has 26 characters (the
/// crate's `ULID_LEN`), and `ulid::Ulid::from_string` reads `value` back
/// from it (the crate's own encode/decode tests).
#[verifier::external_body]
pub(crate) fn ulid_to_string(value: u128) -> (s: String)
    ensures
        s@ == ulid_text(value),
        s@.len() == 26,
        ulid_value(s@) == Some(value),
{
    ulid::Ulid(value).to_string()
}

/// The identifier written in `text`, read by `ulid::Ulid::from_string`;
/// `None` where that reports an error. Claimed of it: the result is the
/// named one, and a text whose length is not 26 characters is refused
/// (the crate checks the byte length first, and a text of 26 bytes but
/// another number of characters holds a byte outside its alphabet).
#[verifier::external_body]
pub(crate) fn ulid_from_str(text: &str) -> (r: Option<u128>)
    ensures
        r == ulid_value(text@),
        text@.len() != 26 ==> r is None,
{
    match ulid::Ulid::from_string(text) {
        Ok(u) => Some(u.0),
        Err(_) => None,
    }
}

} // verus!
