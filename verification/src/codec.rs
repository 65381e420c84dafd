//! The byte-level wire model, and the trusted calls into the SCALE codec
//! that produce those bytes at run time.

use vstd::prelude::*;

verus! {

/// The `count` little-endian base-256 digits of `v` (`v` is taken modulo
/// 256^count; all encoded values are in range, so nothing is lost).
pub open spec fn le_bytes(v: int, count: nat) -> Seq<u8>
    decreases count,
{
    if count == 0 {
        Seq::empty()
    } else {
        seq![(v % 256) as u8] + le_bytes(v / 256, (count - 1) as nat)
    }
}

pub proof fn lemma_le_bytes_len(v: int, count: nat)
    ensures
        le_bytes(v, count).len() == count,
    decreases count,
{
    if count > 0 {
        lemma_le_bytes_len(v / 256, (count - 1) as nat);
    }
}

/// A one-byte little-endian encoding is the byte itself.
pub proof fn lemma_le_bytes_single(b: u8)
    ensures
        le_bytes(b as int, 1) == seq![b],
{
    reveal_with_fuel(le_bytes, 2);
    assert(le_bytes(b as int, 1) =~= seq![b]);
}

/// The SCALE compact encoding of a collection length `n` (meaningful for
/// `n <= u32::MAX`): two mode bits in the lowest bits of the first byte,
/// then the value, little-endian.
pub open spec fn compact_prefix(n: nat) -> Seq<u8>
    recommends
        n <= u32::MAX,
{
    if n < 64 {
        le_bytes(4 * n as int, 1)
    } else if n < 16384 {
        le_bytes(4 * n as int + 1, 2)
    } else if n < 1073741824 {
        le_bytes(4 * n as int + 2, 4)
    } else {
        seq![3u8] + le_bytes(n as int, 4)
    }
}

/// Relies on `parity_scale_codec`'s `Encode` for `bool`: a single byte,
/// 1 for true and 0 for false.
#[verifier::external_body]
pub(crate) fn scale_encode_bool(v: bool, out: &mut Vec<u8>)
    ensures
        final(out)@ == old(out)@ + seq![if v { 1u8 } else { 0u8 }],
{
    parity_scale_codec::Encode::encode_to(&v, out);
}

/// Relies on `parity_scale_codec`'s `Encode` for `u8`: the byte itself.
#[verifier::external_body]
pub(crate) fn scale_encode_u8(v: u8, out: &mut Vec<u8>)
    ensures
        final(out)@ == old(out)@ + le_bytes(v as int, 1),
{
    parity_scale_codec::Encode::encode_to(&v, out);
}

/// Relies on `parity_scale_codec`'s `Encode` for `u16`: two bytes,
/// little-endian.
#[verifier::external_body]
pub(crate) fn scale_encode_u16(v: u16, out: &mut Vec<u8>)
    ensures
        final(out)@ == old(out)@ + le_bytes(v as int, 2),
{
    parity_scale_codec::Encode::encode_to(&v, out);
}

/// Relies on `parity_scale_codec`'s `Encode` for `u32`: four bytes,
/// little-endian.
#[verifier::external_body]
pub(crate) fn scale_encode_u32(v: u32, out: &mut Vec<u8>)
    ensures
        final(out)@ == old(out)@ + le_bytes(v as int, 4),
{
    parity_scale_codec::Encode::encode_to(&v, out);
}

/// Relies on `parity_scale_codec`'s `Encode` for `u64`: eight bytes,
/// little-endian.
#[verifier::external_body]
pub(crate) fn scale_encode_u64(v: u64, out: &mut Vec<u8>)
    ensures
        final(out)@ == old(out)@ + le_bytes(v as int, 8),
{
    parity_scale_codec::Encode::encode_to(&v, out);
}

/// Relies on `parity_scale_codec`'s `Encode` for `u128`: sixteen bytes,
/// little-endian.
#[verifier::external_body]
pub(crate) fn scale_encode_u128(v: u128, out: &mut Vec<u8>)
    ensures
        final(out)@ == old(out)@ + le_bytes(v as int, 16),
{
    parity_scale_codec::Encode::encode_to(&v, out);
}

/// Relies on `parity_scale_codec`'s `Encode` for `[u8]`: the compact
/// encoding of the length, then the bytes themselves, unchanged. The
/// codec refuses (with a panic) slices longer than `u32::MAX`.
#[verifier::external_body]
pub(crate) fn scale_encode_bytes(b: &Vec<u8>, out: &mut Vec<u8>)
    requires
        b@.len() <= u32::MAX,
    ensures
        final(out)@ == old(out)@ + compact_prefix(b@.len()) + b@,
{
    parity_scale_codec::Encode::encode_to(b.as_slice(), out);
}

} // verus!
