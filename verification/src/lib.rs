//! Primitives for build-time constant obfuscation: a case-folding,
//! NUL-skipping string hash, a splitmix-style bit mixer with per-key entropy
//! derivation, and a UTF-8 to UTF-16 transcoder.
//!
//! Every operation is a pure, total function over its explicit inputs; the
//! contracts pin each result to a spec-level model of the same computation.
use vstd::prelude::*;

pub mod hash;
pub mod wide;

pub use hash::hash_bytes;
pub use hash::hash_cstr;
pub use hash::hash_utf8;

verus! {

use vstd::utf8::encode_utf8;
use vstd::wrapping::u64_specs;

use crate::hash::hash_of;

/// The splitmix finalizer: an avalanche mix of a 64-bit value by two rounds of
/// XOR-shift and wrapping multiplication, after a wrapping add of the golden
/// ratio increment.
pub open spec fn splitmix_of(seed: u64) -> u64 {
    let next: u64 = u64_specs::wrapping_add(seed, 0x9E37_79B9_7F4A_7C15);
    let z1: u64 = u64_specs::wrapping_mul(next ^ (next >> 30), 0xBF58_476D_1CE4_E5B9);
    let z2: u64 = u64_specs::wrapping_mul(z1 ^ (z1 >> 27), 0x94D0_49BB_1331_11EB);
    z2 ^ (z2 >> 31)
}

/// The entropy derived from a mixing seed and the bytes of a key string: the
/// key's hash is widened and mixed, folded into the seed by XOR, and the
/// combination is mixed once more.
pub open spec fn entropy_of(seed: u64, key_bytes: Seq<u8>) -> u64 {
    splitmix_of(seed ^ splitmix_of(hash_of(key_bytes) as u64))
}

/// The mixing seed used when no override is supplied: the mixed hash of the
/// fallback string.
pub open spec fn default_seed() -> u64 {
    splitmix_of(hash_of(encode_utf8("FIXED"@)) as u64)
}

/// Bit-mixing finalizer.
///
/// Takes an intermediate hash that may not be thoroughly mixed and increases
/// its entropy to obtain a better distribution.
pub fn splitmix(seed: u64) -> (r: u64)
    ensures
        r == splitmix_of(seed),
{
    let next: u64 = seed.wrapping_add(0x9E37_79B9_7F4A_7C15);
    let mut z: u64 = next;
    z = (z ^ (z >> 30)).wrapping_mul(0xBF58_476D_1CE4_E5B9);
    z = (z ^ (z >> 27)).wrapping_mul(0x94D0_49BB_1331_11EB);
    z ^ (z >> 31)
}

/// Derives a mixing seed from an override string: the string is hashed,
/// widened, and passed through the mixer. Callers that honour an external
/// override hand its value here; absent an override the fallback is `"FIXED"`.
pub fn seed_from(source: &str) -> (r: u64)
    ensures
        r == splitmix_of(hash_of(encode_utf8(source@)) as u64),
{
    splitmix(hash_utf8(source) as u64)
}

/// Produces pseudorandom entropy from the given string under an explicit
/// mixing seed.
///
/// The result is a pure function of the seed and the string: two call sites
/// that supply identical keys deterministically receive identical entropy, so
/// each logical call site must use a distinct key (for example by salting it
/// with its own position) to obtain an independent value.
pub fn entropy_with(seed: u64, string: &str) -> (r: u64)
    ensures
        r == entropy_of(seed, encode_utf8(string@)),
{
    splitmix(seed ^ splitmix(hash_utf8(string) as u64))
}

/// Produces pseudorandom entropy from the given string under the default
/// mixing seed.
///
/// Deterministic: identical key strings always yield identical entropy (see
/// [`entropy_with`]), which keeps results reproducible across builds.
pub fn entropy(string: &str) -> (r: u64)
    ensures
        r == entropy_of(default_seed(), encode_utf8(string@)),
{
    let seed: u64 = seed_from("FIXED");
    entropy_with(seed, string)
}

/// Maps an entropy value to `u8` by modulo-`2^8` truncation.
pub fn cast_u8(value: u64) -> (r: u8)
    ensures
        r == value as u8,
{
    #[verifier::truncate]
    (value as u8)
}

/// Maps an entropy value to `u16` by modulo-`2^16` truncation.
pub fn cast_u16(value: u64) -> (r: u16)
    ensures
        r == value as u16,
{
    #[verifier::truncate]
    (value as u16)
}

/// Maps an entropy value to `u32` by modulo-`2^32` truncation.
pub fn cast_u32(value: u64) -> (r: u32)
    ensures
        r == value as u32,
{
    #[verifier::truncate]
    (value as u32)
}

/// Maps an entropy value to `u64`: the value itself.
pub fn cast_u64(value: u64) -> (r: u64)
    ensures
        r == value,
{
    value
}

/// Maps an entropy value to `usize` by truncation to the pointer width.
pub fn cast_usize(value: u64) -> (r: usize)
    ensures
        r == value as usize,
{
    #[verifier::truncate]
    (value as usize)
}

/// Maps an entropy value to `i8`: the low 8 bits reinterpreted as two's
/// complement.
pub fn cast_i8(value: u64) -> (r: i8)
    ensures
        r == value as i8,
{
    #[verifier::truncate]
    (value as i8)
}

/// Maps an entropy value to `i16`: the low 16 bits reinterpreted as two's
/// complement.
pub fn cast_i16(value: u64) -> (r: i16)
    ensures
        r == value as i16,
{
    #[verifier::truncate]
    (value as i16)
}

/// Maps an entropy value to `i32`: the low 32 bits reinterpreted as two's
/// complement.
pub fn cast_i32(value: u64) -> (r: i32)
    ensures
        r == value as i32,
{
    #[verifier::truncate]
    (value as i32)
}

/// Maps an entropy value to `i64`: the full 64 bits reinterpreted as two's
/// complement.
pub fn cast_i64(value: u64) -> (r: i64)
    ensures
        r == value as i64,
{
    #[verifier::truncate]
    (value as i64)
}

/// Maps an entropy value to `isize`: truncation to the pointer width,
/// reinterpreted as two's complement.
pub fn cast_isize(value: u64) -> (r: isize)
    ensures
        r == value as isize,
{
    #[verifier::truncate]
    (value as isize)
}

/// Maps an entropy value to `bool`: true exactly when the value, read as a
/// 64-bit two's complement integer, is non-negative (its sign bit is clear).
pub fn cast_bool(value: u64) -> (r: bool)
    ensures
        r == (value as i64 >= 0),
{
    #[verifier::truncate]
    (value as i64) >= 0
}

/// The IEEE 754 single-precision bit pattern of a value in `[1.0, 2.0)`: the
/// biased exponent is fixed at `0x7F` (the encoding of 1.0) and the 23-bit
/// mantissa is drawn from the high bits of the truncated entropy value.
/// Reading the result as a float's bits yields a value in `[1.0, 2.0)`.
pub fn cast_f32_bits(value: u64) -> (r: u32)
    ensures
        r == (0x3F80_0000u32 | ((value as u32) >> 9)),
        0x3F80_0000 <= r < 0x4000_0000,
{
    let low: u32 = #[verifier::truncate]
    (value as u32);
    proof {
        assert(0x3F80_0000u32 <= (0x3F80_0000u32 | (low >> 9)) < 0x4000_0000u32) by (bit_vector);
    }
    0x3F80_0000u32 | (low >> 9)
}

/// The IEEE 754 double-precision bit pattern of a value in `[1.0, 2.0)`: the
/// biased exponent is fixed at `0x3FF` (the encoding of 1.0) and the 52-bit
/// mantissa is drawn from the high bits of the entropy value. Reading the
/// result as a float's bits yields a value in `[1.0, 2.0)`.
pub fn cast_f64_bits(value: u64) -> (r: u64)
    ensures
        r == (0x3FF0_0000_0000_0000u64 | (value >> 12)),
        0x3FF0_0000_0000_0000 <= r < 0x4000_0000_0000_0000,
{
    proof {
        assert(0x3FF0_0000_0000_0000u64 <= (0x3FF0_0000_0000_0000u64 | (value >> 12))
            < 0x4000_0000_0000_0000u64) by (bit_vector);
    }
    0x3FF0_0000_0000_0000u64 | (value >> 12)
}

/// Purity of the hash, stated explicitly: any two results of hashing the same
/// byte sequence are equal.
pub proof fn lemma_hash_deterministic(r1: u32, r2: u32, bytes: Seq<u8>)
    requires
        r1 == hash_of(bytes),
        r2 == hash_of(bytes),
    ensures
        r1 == r2,
{
}

/// Purity of entropy derivation, stated explicitly: any two results derived
/// from the same seed and the same key bytes are equal.
pub proof fn lemma_entropy_deterministic(r1: u64, r2: u64, seed: u64, key_bytes: Seq<u8>)
    requires
        r1 == entropy_of(seed, key_bytes),
        r2 == entropy_of(seed, key_bytes),
    ensures
        r1 == r2,
{
}

} // verus!
