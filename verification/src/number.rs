//! The number at the head of a text of digits.

use atoi::FromRadix10Checked;
use vstd::prelude::*;

verus! {

/// Whether `byte` is one of the ASCII digits `0` to `9`.
pub open spec fn is_digit(byte: u8) -> bool {
    0x30 <= byte <= 0x39
}

/// Length of the longest run of digits that `text` starts with.
pub open spec fn digit_run(text: Seq<u8>) -> nat
    decreases text.len(),
{
    if text.len() > 0 && is_digit(text[0]) {
        1 + digit_run(text.drop_first())
    } else {
        0
    }
}

/// The number that a sequence of digits writes in base ten; the empty
/// sequence writes 0.
pub open spec fn decimal(digits: Seq<u8>) -> nat
    decreases digits.len(),
{
    if digits.len() == 0 {
        0
    } else {
        10 * decimal(digits.drop_last()) + (digits.last() - 0x30) as nat
    }
}

/// The number written by the digits that `text` starts with: 0 where it
/// starts with none. What follows the digits does not count.
pub open spec fn leading_number(text: Seq<u8>) -> nat {
    decimal(text.take(digit_run(text) as int))
}

/// `atoi::FromRadix10Checked::from_radix_10_checked` for `u64`: reads the
/// digits that `text` starts with, without sign. It gives the number they
/// write, or `None` where that number is above `u64::MAX`, and beside it how
/// many digits there were.
#[verifier::external_body]
pub(crate) fn from_radix_10_checked(text: &[u8]) -> (parsed: (Option<u64>, usize))
    ensures
        parsed.1 == digit_run(text@),
        leading_number(text@) <= u64::MAX ==> parsed.0 == Some(leading_number(text@) as u64),
        leading_number(text@) > u64::MAX ==> parsed.0 is None,
{
    u64::from_radix_10_checked(text)
}

} // verus!
