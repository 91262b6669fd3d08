//! The textual and byte forms of account UUIDs, from the `uuid` crate.

use vstd::prelude::*;
use vstd::arithmetic::power2::pow2;

verus! {

/// The `i`-th hexadecimal digit of `uuid`, from the most significant, for
/// `0 <= i < 32`.
pub open spec fn nibble(uuid: u128, i: int) -> int {
    (uuid as int / pow2((4 * (31 - i)) as nat) as int) % 16
}

/// The lowercase hexadecimal digit for `d`, `0 <= d < 16`.
pub open spec fn hex_digit(d: int) -> char {
    if d < 10 {
        (('0' as int) + d) as char
    } else {
        (('a' as int) + d - 10) as char
    }
}

/// The number of hyphens before position `p` of the hyphenated form.
pub open spec fn hyphens_before(p: int) -> int {
    (if p > 8 { 1int } else { 0 }) + (if p > 13 { 1int } else { 0 }) + (if p > 18 { 1int } else { 0 })
        + (if p > 23 { 1int } else { 0 })
}

/// The hyphenated form of `uuid`: its 32 lowercase hexadecimal digits, most
/// significant first, in groups of 8, 4, 4, 4 and 12 joined by hyphens.
pub open spec fn hyphenated(uuid: u128) -> Seq<char> {
    Seq::new(
        36,
        |p: int|
            if p == 8 || p == 13 || p == 18 || p == 23 {
                '-'
            } else {
                hex_digit(nibble(uuid, p - hyphens_before(p)))
            },
    )
}

/// `uuid::Uuid::to_string` on the UUID with the value `uuid`: its hyphenated
/// lowercase form, which `Display` writes (`format_hyphenated` in the crate).
#[verifier::external_body]
pub(crate) fn uuid_text(uuid: u128) -> (text: String)
    ensures
        text@ == hyphenated(uuid),
{
    uuid::Uuid::from_u128(uuid).to_string()
}

/// The `i`-th byte of `uuid` in big-endian order, for `0 <= i < 16`.
pub open spec fn uuid_byte(uuid: u128, i: int) -> u8 {
    ((uuid as int / pow2((8 * (15 - i)) as nat) as int) % 256) as u8
}

/// `uuid::Uuid::as_bytes` on the UUID with the value `uuid`: its sixteen
/// bytes in big-endian order (`from_u128` stores `to_be_bytes`).
#[verifier::external_body]
pub(crate) fn uuid_bytes(uuid: u128) -> (bytes: [u8; 16])
    ensures
        forall|i: int| 0 <= i < 16 ==> #[trigger] bytes[i] == uuid_byte(uuid, i),
{
    *uuid::Uuid::from_u128(uuid).as_bytes()
}

/// The first eight characters of the hyphenated form of `uuid`: the eight
/// most significant hexadecimal digits.
pub open spec fn spec_short_uuid(uuid: u128) -> Seq<char> {
    Seq::new(8, |i: int| hex_digit(nibble(uuid, i)))
}

/// The first eight characters of the hyphenated form of `uuid`, by which an
/// account without a name is shown.
pub fn short_uuid(uuid: u128) -> (short: String)
    ensures
        short@ == spec_short_uuid(uuid),
        short@ == hyphenated(uuid).subrange(0, 8),
{
    let text = uuid_text(uuid);
    let head = text.as_str().substring_char(0, 8);
    let short = head.to_owned();
    assert(short@ =~= spec_short_uuid(uuid));
    short
}

} // verus!
