//! What the messages say.

use crate::message::{decimal, digit, digits, missing_field_chars, repeat_chars};
use vstd::prelude::*;

verus! {

/// The digits of a number are decimal digits, without a leading zero unless there is only one,
/// and read from left to right they give the number.
pub proof fn law_digits(n: int)
    requires
        0 <= n,
    ensures
        digits(n).len() > 0,
        digits(n).len() > 1 ==> digits(n)[0] != '0',
        forall|i: int| 0 <= i < digits(n).len() ==> '0' <= #[trigger] digits(n)[i] <= '9',
        digits(n).fold_left(0int, |value: int, c: char| 10 * value + (c as int - '0' as int)) == n,
    decreases n,
{
    let f = |value: int, c: char| 10 * value + (c as int - '0' as int);
    let all = digits(n);
    if n < 10 {
        assert(all.drop_last() =~= seq![]);
        reveal_with_fuel(Seq::fold_left, 2);
        assert(all.last() == digit(n));
        assert(digit(n) as int == '0' as int + n);
    } else {
        law_digits(n / 10);
        let rest = digits(n / 10);
        assert(all.drop_last() =~= rest);
        assert(all.last() == digit(n % 10));
        assert(digit(n % 10) as int == '0' as int + n % 10);
        assert(all[0] == rest[0]);
        if n < 100 {
            assert(rest == seq![digit(n / 10)]);
            assert(digit(n / 10) as int == '0' as int + n / 10);
        } else {
            law_digits(n / 10 / 10);
        }
        assert forall|i: int| 0 <= i < all.len() implies '0' <= #[trigger] all[i] <= '9' by {
            if i < rest.len() {
                assert(all[i] == rest[i]);
            }
        }
    }
}

/// A number that is not negative is written as its digits; a negative one as a minus sign and
/// the digits of its opposite.
pub proof fn law_decimal(n: int)
    ensures
        n >= 0 ==> decimal(n) == digits(n),
        n < 0 ==> decimal(n).len() > 0 && decimal(n)[0] == '-' && decimal(n).skip(1) == decimal(-n),
{
    if n < 0 {
        assert(decimal(n).skip(1) =~= digits(-n));
    }
}

/// The message about an impossible repetition names the number.
pub proof fn law_repeat_message(n: int)
    ensures
        ({
            let message = repeat_chars(n);
            let before = "cannot repeat this content "@;
            let after = " times"@;
            &&& message.len() == before.len() + decimal(n).len() + after.len()
            &&& message.take(before.len() as int) == before
            &&& message.skip(before.len() as int).take(decimal(n).len() as int) == decimal(n)
            &&& message.skip((before.len() + decimal(n).len()) as int) == after
        }),
{
    let message = repeat_chars(n);
    let before = "cannot repeat this content "@;
    let after = " times"@;
    assert(message.take(before.len() as int) =~= before);
    assert(message.skip(before.len() as int).take(decimal(n).len() as int) =~= decimal(n));
    assert(message.skip((before.len() + decimal(n).len()) as int) =~= after);
}

/// The message about a missing field ends with the quoted name.
pub proof fn law_missing_field_message(quoted: Seq<char>)
    ensures
        ({
            let message = missing_field_chars(quoted);
            let before = "content does not contain field "@;
            &&& message.len() == before.len() + quoted.len()
            &&& message.take(before.len() as int) == before
            &&& message.skip(before.len() as int) == quoted
        }),
{
    let message = missing_field_chars(quoted);
    let before = "content does not contain field "@;
    assert(message.take(before.len() as int) =~= before);
    assert(message.skip(before.len() as int) =~= quoted);
}

} // verus!
