//! What comes from outside: random ids and the system's clock.

use vstd::prelude::*;

use crate::text::digit_char;
use crate::time::{in_range, Timestamp};

verus! {

/// The character for a hexadecimal digit.
pub open spec fn hex_char(digit: nat) -> char {
    if digit < 10 {
        digit_char(digit)
    } else {
        (87 + digit) as char
    }
}

/// The last `count` hexadecimal digits of a number.
pub open spec fn hex_digits(number: nat, count: nat) -> Seq<char>
    decreases count,
{
    if count == 0 {
        Seq::empty()
    } else {
        hex_digits(number / 16, (count - 1) as nat).push(hex_char(number % 16))
    }
}

/// An id as it is written: 32 lower-case hexadecimal digits in five groups, with hyphens between.
pub open spec fn id_text(id: u128) -> Seq<char> {
    let digits = hex_digits(id as nat, 32);
    digits.subrange(0, 8) + seq!['-'] + digits.subrange(8, 12) + seq!['-'] + digits.subrange(12, 16)
        + seq!['-'] + digits.subrange(16, 20) + seq!['-'] + digits.subrange(20, 32)
}

/// Whether an id is marked as a random one: version 4 of the variant of RFC 9562.
pub open spec fn random_id(id: u128) -> bool {
    &&& (id as int / 0x1000_0000_0000_0000_0000) % 16 == 4
    &&& (id as int / 0x4000_0000_0000_0000) % 4 == 2
}

/// `Uuid::new_v4`. The id is random but for the marks of its version and variant.
#[verifier::external_body]
pub(crate) fn new_id() -> (id: u128)
    ensures
        random_id(id),
{
    uuid::Uuid::new_v4().as_u128()
}

/// `Uuid`'s `Display`, which writes an id with hyphens.
#[verifier::external_body]
pub(crate) fn write_id(id: u128) -> (text: String)
    ensures
        text@ == id_text(id),
{
    uuid::Uuid::from_u128(id).to_string()
}

/// `jiff::Timestamp::now`, which reads the system's clock. The claim is that the reading is in the
/// range of time; which instant it is, is left to the machine. The call panics if the clock is set to
/// a time out of range.
#[verifier::external_body]
pub(crate) fn clock() -> (now: Timestamp)
    ensures
        in_range(now@),
{
    let now = jiff::Timestamp::now();
    Timestamp::new(now.as_second(), now.subsec_nanosecond()).expect("an instant of the same range")
}

} // verus!
