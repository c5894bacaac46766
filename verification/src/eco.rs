//! Strings: the `EcoString` of the `ecow` crate, and string slices, as sequences of characters.

use ecow::EcoString;
use vstd::prelude::*;

verus! {

/// Declares `ecow::EcoString`, a string that is cheap to clone.
#[verifier::external_type_specification]
#[verifier::external_body]
pub struct ExEcoString(EcoString);

/// The characters that an `EcoString` holds, in order.
pub uninterp spec fn eco_chars(s: EcoString) -> Seq<char>;

/// Calls `EcoString::from` on a string slice.
/// Trusted: the result holds exactly the characters of the slice.
#[verifier::external_body]
pub(crate) fn eco_from(s: &str) -> (r: EcoString)
    ensures
        eco_chars(r) == s@,
{
    EcoString::from(s)
}

/// Calls `EcoString::clone`.
/// Trusted: the clone holds the same characters.
#[verifier::external_body]
pub(crate) fn eco_clone(s: &EcoString) -> (r: EcoString)
    ensures
        eco_chars(r) == eco_chars(*s),
{
    s.clone()
}

/// Calls `EcoString::as_str`.
/// Trusted: the slice holds exactly the characters of the string.
#[verifier::external_body]
pub(crate) fn eco_str(s: &EcoString) -> (r: &str)
    ensures
        r@ == eco_chars(*s),
{
    s.as_str()
}

/// Calls `==` between two `EcoString`s.
/// Trusted: they are equal exactly if they hold the same characters.
#[verifier::external_body]
pub(crate) fn eco_eq(a: &EcoString, b: &EcoString) -> (r: bool)
    ensures
        r == (eco_chars(*a) == eco_chars(*b)),
{
    a == b
}

/// Calls `==` between an `EcoString` and a string slice.
/// Trusted: they are equal exactly if they hold the same characters.
#[verifier::external_body]
pub(crate) fn eco_eq_str(a: &EcoString, b: &str) -> (r: bool)
    ensures
        r == (eco_chars(*a) == b@),
{
    a == b
}

/// Calls `==` between two string slices.
/// Trusted: they are equal exactly if they hold the same characters.
#[verifier::external_body]
pub(crate) fn str_eq(a: &str, b: &str) -> (r: bool)
    ensures
        r == (a@ == b@),
{
    a == b
}

} // verus!
