//! Unicode case mapping and character classes, as provided by `std`.
//!
//! These follow the Unicode character database tables that ship with the
//! standard library. The tables are not restated here: each function's
//! result is given a name, and the rest of the library is proved against it.

use vstd::prelude::*;

verus! {

/// What `str::to_lowercase` returns for a string.
pub uninterp spec fn lowercase(s: Seq<char>) -> Seq<char>;

/// Whether `char::is_alphabetic` holds (Unicode `Alphabetic` property).
pub uninterp spec fn alphabetic(c: char) -> bool;

/// Whether `char::is_alphanumeric` holds.
pub uninterp spec fn alphanumeric(c: char) -> bool;

/// The characters that `char::to_uppercase` yields.
pub uninterp spec fn uppercase(c: char) -> Seq<char>;

/// `str::to_lowercase`; the contract names its result `lowercase(s@)`.
#[verifier::external_body]
pub(crate) fn to_lowercase(s: &str) -> (res: String)
    ensures
        res@ == lowercase(s@),
{
    s.to_lowercase()
}

/// `char::is_alphabetic`; the contract names its result `alphabetic(c)`.
#[verifier::external_body]
pub(crate) fn is_alphabetic(c: char) -> (b: bool)
    ensures
        b == alphabetic(c),
{
    c.is_alphabetic()
}

/// `char::is_alphanumeric`; the contract names its result `alphanumeric(c)`.
#[verifier::external_body]
pub(crate) fn is_alphanumeric(c: char) -> (b: bool)
    ensures
        b == alphanumeric(c),
{
    c.is_alphanumeric()
}

/// `char::to_uppercase`, collected into a vector; the contract names the
/// yielded characters `uppercase(c)`.
#[verifier::external_body]
pub(crate) fn to_uppercase(c: char) -> (res: Vec<char>)
    ensures
        res@ == uppercase(c),
{
    c.to_uppercase().collect()
}

} // verus!
