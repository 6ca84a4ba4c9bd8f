//! 128-bit identifiers: derivation, generation and textual form.
//!
//! An identifier is held as the `u128` whose big-endian bytes are the UUID's
//! sixteen bytes, so that `<` on the integer is the order of the UUIDs.

use vstd::prelude::*;

verus! {

/// The nil identifier: all bits zero.
pub const NIL: u128 = 0;

/// Bits of an identifier that hold its version and variant.
pub const VERSION_VARIANT_MASK: u128 = 0x0000_0000_0000_f000_c000_0000_0000_0000;

/// Version 4 with the RFC 9562 variant, at the place of `VERSION_VARIANT_MASK`.
pub const RANDOM_VERSION_VARIANT: u128 = 0x0000_0000_0000_4000_8000_0000_0000_0000;

/// The name-based (SHA-1) identifier derived from a namespace identifier and
/// the UTF-8 bytes of a name.
pub uninterp spec fn uuid_v5(namespace: u128, name: Seq<char>) -> u128;

/// The sixteen lower-case hexadecimal digits, by value.
pub open spec fn hex_digits() -> Seq<char> {
    seq!['0', '1', '2', '3', '4', '5', '6', '7', '8', '9', 'a', 'b', 'c', 'd', 'e', 'f']
}

/// The `k`-th of the 32 hexadecimal digits of `id`, most significant first.
pub open spec fn hex_digit_at(id: u128, k: int) -> char {
    hex_digits()[((id >> ((4 * (31 - k)) as u128)) & 0xf) as int]
}

/// Hyphenated lower-case text of an identifier: 36 characters, hyphens at
/// positions 8, 13, 18 and 23, hexadecimal digits elsewhere.
pub open spec fn hyphenated(id: u128) -> Seq<char> {
    Seq::new(
        36,
        |i: int|
            if i == 8 || i == 13 || i == 18 || i == 23 {
                '-'
            } else if i < 8 {
                hex_digit_at(id, i)
            } else if i < 13 {
                hex_digit_at(id, i - 1)
            } else if i < 18 {
                hex_digit_at(id, i - 2)
            } else if i < 23 {
                hex_digit_at(id, i - 3)
            } else {
                hex_digit_at(id, i - 4)
            },
    )
}

/// True of the identifiers that carry version 4 and the RFC 9562 variant.
pub open spec fn is_random_version(id: u128) -> bool {
    id & VERSION_VARIANT_MASK == RANDOM_VERSION_VARIANT
}

/// Calls `uuid::Uuid::new_v5`. Trusted: the result is the name-based
/// identifier of `namespace` and the bytes of `name`, a function of the two
/// alone.
#[verifier::external_body]
pub(crate) fn derive_v5(namespace: u128, name: &str) -> (id: u128)
    ensures
        id == uuid_v5(namespace, name@),
{
    uuid::Uuid::new_v5(&uuid::Uuid::from_u128(namespace), name.as_bytes()).as_u128()
}

/// Calls `uuid::Uuid::new_v4`. Trusted: whatever the random bits, the version
/// and variant bits are those of a version 4 identifier.
#[verifier::external_body]
pub(crate) fn random_v4() -> (id: u128)
    ensures
        is_random_version(id),
{
    uuid::Uuid::new_v4().as_u128()
}

/// Calls `to_string` of `uuid::Uuid`. Trusted: the text is the hyphenated
/// lower-case form.
#[verifier::external_body]
pub(crate) fn format_hyphenated(id: u128) -> (text: String)
    ensures
        text@ == hyphenated(id),
{
    uuid::Uuid::from_u128(id).to_string()
}

/// Calls `chrono::Utc::now` and takes its `timestamp_micros`. Trusted with
/// nothing claimed: the clock may return any instant.
#[verifier::external_body]
pub(crate) fn utc_now_micros() -> (micros: i64) {
    chrono::Utc::now().timestamp_micros()
}

/// A version 4 identifier is never nil.
pub proof fn lemma_random_is_not_nil(id: u128)
    requires
        is_random_version(id),
    ensures
        id != NIL,
{
    assert(id & 0x0000_0000_0000_f000_c000_0000_0000_0000 == 0x0000_0000_0000_4000_8000_0000_0000_0000
        ==> id != 0) by (bit_vector);
}

/// A fresh random identifier.
pub fn new_shard_id() -> (id: u128)
    ensures
        is_random_version(id),
        id != NIL,
{
    let id: u128 = random_v4();
    proof {
        lemma_random_is_not_nil(id);
    }
    id
}

} // verus!
