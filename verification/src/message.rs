//! The error messages of content.

use crate::eco::{eco_chars, eco_from};
use ecow::EcoString;
use vstd::prelude::*;
use vstd::string::StringExecFns;

verus! {

/// What the debug formatting of a string makes of its characters.
pub uninterp spec fn debug_chars(s: Seq<char>) -> Seq<char>;

/// Formats a string slice with `{:?}`.
/// Trusted: the result is fixed by the characters of the slice. Which characters are escaped, and
/// how, is left unsaid.
#[verifier::external_body]
pub(crate) fn debug_str(s: &str) -> (r: String)
    ensures
        r@ == debug_chars(s@),
{
    format!("{:?}", s)
}

/// The digit character of a number below ten.
pub open spec fn digit(n: int) -> char {
    ('0' as int + n) as char
}

/// The decimal digits of a number that is not negative, without leading zeros.
pub open spec fn digits(n: int) -> Seq<char>
    decreases n,
{
    if n < 10 {
        seq![digit(n)]
    } else {
        digits(n / 10).push(digit(n % 10))
    }
}

/// A number in decimal, with a sign if it is negative.
pub open spec fn decimal(n: int) -> Seq<char> {
    if n < 0 {
        seq!['-'] + digits(-n)
    } else {
        digits(n)
    }
}

/// A number below ten as a string.
fn digit_str(n: u64) -> (r: &'static str)
    requires
        n < 10,
    ensures
        r@ == seq![digit(n as int)],
{
    proof {
        reveal_strlit("0");
        reveal_strlit("1");
        reveal_strlit("2");
        reveal_strlit("3");
        reveal_strlit("4");
        reveal_strlit("5");
        reveal_strlit("6");
        reveal_strlit("7");
        reveal_strlit("8");
        reveal_strlit("9");
    }
    match n {
        0 => "0",
        1 => "1",
        2 => "2",
        3 => "3",
        4 => "4",
        5 => "5",
        6 => "6",
        7 => "7",
        8 => "8",
        _ => "9",
    }
}

/// Writes a number that is not negative to the end of a string, in decimal.
fn append_digits(s: &mut String, n: u64)
    ensures
        final(s)@ == old(s)@ + digits(n as int),
    decreases n,
{
    if n >= 10 {
        append_digits(s, n / 10);
    }
    s.append(digit_str(n % 10));
    assert(s@ =~= old(s)@ + digits(n as int));
}

/// Writes a number to the end of a string, in decimal.
fn append_decimal(s: &mut String, n: i64)
    ensures
        final(s)@ == old(s)@ + decimal(n as int),
{
    if n < 0 {
        proof {
            reveal_strlit("-");
        }
        s.append("-");
        append_digits(s, (-(n + 1)) as u64 + 1);
    } else {
        append_digits(s, n as u64);
    }
    assert(s@ =~= old(s)@ + decimal(n as int));
}

/// What the message about a missing field says, given the quoted name.
pub open spec fn missing_field_chars(quoted: Seq<char>) -> Seq<char> {
    "content does not contain field "@ + quoted
}

/// The missing key access error message, given the quoted name.
pub fn missing_field_message(quoted: &str) -> (r: EcoString)
    ensures
        eco_chars(r) == missing_field_chars(quoted@),
{
    let mut message = String::new();
    message.append("content does not contain field ");
    message.append(quoted);
    assert(message@ =~= missing_field_chars(quoted@));
    eco_from(message.as_str())
}

/// The missing key access error message.
pub fn missing_field(key: &str) -> (r: EcoString)
    ensures
        eco_chars(r) == missing_field_chars(debug_chars(key@)),
{
    let quoted = debug_str(key);
    missing_field_message(quoted.as_str())
}

/// What the message about an impossible repetition says.
pub open spec fn repeat_chars(n: int) -> Seq<char> {
    "cannot repeat this content "@ + decimal(n) + " times"@
}

/// The error message about an impossible repetition.
pub(crate) fn repeat_message(n: i64) -> (r: EcoString)
    ensures
        eco_chars(r) == repeat_chars(n as int),
{
    let mut message = String::new();
    message.append("cannot repeat this content ");
    append_decimal(&mut message, n);
    message.append(" times");
    assert(message@ =~= repeat_chars(n as int));
    eco_from(message.as_str())
}

} // verus!
