//! Entity ids and clock readings, taken from the `uuid` and `chrono` crates.

use vstd::prelude::*;

verus! {

/// The lower-case hexadecimal digit for `n` (`0 <= n < 16`).
pub open spec fn hex_char(n: int) -> char {
    if n < 10 {
        (n + 48) as char
    } else {
        (n + 87) as char
    }
}

/// Which of the 32 hex digits sits at position `j` of the hyphenated form.
pub open spec fn hex_position(j: int) -> int {
    if j < 8 {
        j
    } else if j < 13 {
        j - 1
    } else if j < 18 {
        j - 2
    } else if j < 23 {
        j - 3
    } else {
        j - 4
    }
}

/// The `i`-th hex digit of `id`, most significant first.
pub open spec fn nibble(id: u128, i: int) -> int {
    ((id as int) / vstd::arithmetic::power::pow(16, (31 - i) as nat)) % 16
}

/// The hyphenated lower-case form of a UUID, `8-4-4-4-12` hex digits of its
/// big-endian value.
pub open spec fn uuid_text(id: u128) -> Seq<char> {
    Seq::new(
        36,
        |j: int|
            if j == 8 || j == 13 || j == 18 || j == 23 {
                '-'
            } else {
                hex_char(nibble(id, hex_position(j)))
            },
    )
}

/// `Uuid::to_string` of the UUID with value `id`: its hyphenated lower-case
/// form, as the crate's `Display` (via `LowerHex` and `as_hyphenated`) writes
/// it.
#[verifier::external_body]
pub(crate) fn uuid_string(id: u128) -> (s: String)
    ensures
        s@ == uuid_text(id),
{
    uuid::Uuid::from_u128(id).to_string()
}

/// `Uuid::now_v7`: a fresh time-ordered id. Its value depends on the clock
/// and on chance; what every such id carries is the version number 7 (the
/// high nibble of byte 6) and the RFC variant `10` (the top bits of byte 8).
#[verifier::external_body]
pub(crate) fn new_v7_id() -> (id: u128)
    ensures
        (id >> 76u128) & 0xfu128 == 7u128,
        (id >> 62u128) & 3u128 == 2u128,
{
    uuid::Uuid::now_v7().as_u128()
}

} // verus!
