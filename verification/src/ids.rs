//! 64-bit wire identities and their legacy two-word representation.
//!
//! On the legacy boundary an identity is written as two 32-bit words; packing
//! is `((high as u32 as i64) << 32) | (low as u32 as i64)` and is exactly
//! invertible.

use vstd::prelude::*;

verus! {

/// The 64-bit identity built from the two 32-bit legacy words.
pub open spec fn pack_id(high: i32, low: i32) -> i64 {
    ((((high as u32) as u64) << 32u64) | ((low as u32) as u64)) as i64
}

/// The high 32-bit word of a packed identity.
pub open spec fn id_high(id: i64) -> i32 {
    ((((id as u64) >> 32u64) as u32) as i32)
}

/// The low 32-bit word of a packed identity.
pub open spec fn id_low(id: i64) -> i32 {
    (((id as u64) as u32) as i32)
}

/// Packs the two legacy 32-bit words into one 64-bit identity.
pub fn convert_to_id(high: i32, low: i32) -> (r: i64)
    ensures
        r == pack_id(high, low),
{
    let hu: u64 = (high as u32) as u64;
    let lu: u64 = (low as u32) as u64;
    #[verifier::truncate] (((hu << 32u64) | lu) as i64)
}

/// Splits a 64-bit identity back into its high and low 32-bit words.
pub fn convert_from_id(id: i64) -> (r: (i32, i32))
    ensures
        r.0 == id_high(id),
        r.1 == id_low(id),
{
    let u: u64 = id as u64;
    let high: i32 = #[verifier::truncate] (((u >> 32u64) as u32) as i32);
    let low: i32 = #[verifier::truncate] ((u as u32) as i32);
    (high, low)
}

/// Packing then unpacking an identity returns the original pair of words.
pub proof fn lemma_id_round_trip(high: i32, low: i32)
    ensures
        id_high(pack_id(high, low)) == high,
        id_low(pack_id(high, low)) == low,
{
    assert(((((((high as u32) as u64) << 32u64) | ((low as u32) as u64)) as i64 as u64 >> 32u64)
        as u32 as i32) == high) by (bit_vector);
    assert((((((high as u32) as u64) << 32u64) | ((low as u32) as u64)) as i64 as u64 as u32
        as i32) == low) by (bit_vector);
}

/// Unpacking then packing returns the original identity.
pub proof fn lemma_id_words_round_trip(id: i64)
    ensures
        pack_id(id_high(id), id_low(id)) == id,
{
    assert((((((id as u64 >> 32u64) as u32 as i32 as u32) as u64) << 32u64) | ((id as u64 as u32
        as i32 as u32) as u64)) as i64 == id) by (bit_vector);
}

/// The order-preserving shift of an identity into the unsigned range:
/// the signed value plus 2^63, reduced modulo 2^64.
pub open spec fn wrapped_id_key(x: i64) -> u64 {
    ((((x as u64) as int) + 0x8000_0000_0000_0000int) % 0x1_0000_0000_0000_0000int) as u64
}

/// Maps a signed identity to an unsigned key that preserves the signed order.
pub fn wrap_to_u64(x: i64) -> (r: u64)
    ensures
        r == wrapped_id_key(x),
{
    (x as u64).wrapping_add(u64::MAX / 2 + 1)
}

/// The unsigned key preserves the order of signed identities.
pub proof fn lemma_wrap_to_u64_ordered(x: i64, y: i64)
    ensures
        x <= y <==> wrapped_id_key(x) <= wrapped_id_key(y),
{
    assert(x <= y <==> ((x as u64) ^ 0x8000_0000_0000_0000u64) <= ((y as u64)
        ^ 0x8000_0000_0000_0000u64)) by (bit_vector);
    lemma_wrap_key_is_xor(x);
    lemma_wrap_key_is_xor(y);
}

proof fn lemma_wrap_key_is_xor(x: i64)
    ensures
        wrapped_id_key(x) == ((x as u64) ^ 0x8000_0000_0000_0000u64),
{
    let u = x as u64;
    assert(((u as int + 0x8000_0000_0000_0000int) % 0x1_0000_0000_0000_0000int) as u64 == (u
        ^ 0x8000_0000_0000_0000u64)) by (bit_vector);
}

} // verus!
