//! A modified DJB2-XOR fold over bytes: NUL bytes are skipped, every byte at
//! or below ASCII `'Z'` is case-folded upward by `0x20`, and each contributing
//! byte is combined into the accumulator by a wrapping multiply-by-33 and XOR.
use vstd::prelude::*;

verus! {

use vstd::utf8::encode_utf8;
use vstd::utf8::is_ascii_chars;
use vstd::utf8::is_ascii_chars_encode_utf8;
use vstd::wrapping::u32_specs;

/// The case fold applied to each contributing byte: every byte at or below
/// `0x5A` (ASCII `'Z'`) is shifted up by `0x20`. This maps the uppercase
/// ASCII letters onto their lowercase forms; bytes below `'A'` shift too,
/// a deliberate coarseness of this hash family that its documented fixtures
/// depend on.
pub open spec fn fold_byte(b: u8) -> u8 {
    if b <= 0x5A {
        (b + 0x20) as u8
    } else {
        b
    }
}

/// One step of the fold: a NUL byte leaves the accumulator unchanged; any
/// other byte is case-folded and combined by wrapping multiply-by-33 and XOR.
pub open spec fn hash_step(acc: u32, b: u8) -> u32 {
    if b == 0 {
        acc
    } else {
        u32_specs::wrapping_mul(acc, 33) ^ (fold_byte(b) as u32)
    }
}

/// The hash of a byte sequence: the left fold of [`hash_step`] over the bytes
/// in order, starting from 3581.
pub open spec fn hash_of(bytes: Seq<u8>) -> u32
    decreases bytes.len(),
{
    if bytes.len() == 0 {
        3581u32
    } else {
        hash_step(hash_of(bytes.drop_last()), bytes.last())
    }
}

/// The index of the first NUL byte of a sequence, or its length when no NUL
/// occurs.
pub open spec fn first_nul(bytes: Seq<u8>) -> int
    decreases bytes.len(),
{
    if bytes.len() == 0 {
        0
    } else if bytes.first() == 0 {
        0
    } else {
        1 + first_nul(bytes.drop_first())
    }
}

/// Hash of a UTF-8 string's raw bytes.
pub fn hash_utf8(source: &str) -> (r: u32)
    ensures
        r == hash_of(encode_utf8(source@)),
{
    hash_bytes(source.as_bytes())
}

/// Hash of an arbitrary byte sequence. NUL bytes anywhere in the sequence are
/// skipped, so interior and trailing NULs never affect the result.
pub fn hash_bytes(buf: &[u8]) -> (r: u32)
    ensures
        r == hash_of(buf@),
{
    let mut result: u32 = 3581;
    let mut index: usize = 0;
    while index < buf.len()
        invariant
            index <= buf@.len(),
            result == hash_of(buf@.take(index as int)),
        decreases buf@.len() - index,
    {
        let val = buf[index];
        proof {
            assert(buf@.take(index + 1).drop_last() =~= buf@.take(index as int));
        }
        if val != 0 {
            let value: u32 = (if val <= 0x5A {
                val + 0x20
            } else {
                val
            }) as u32;
            result = result.wrapping_mul(33) ^ value;
        }
        index += 1;
    }
    proof {
        assert(buf@.take(buf@.len() as int) =~= buf@);
    }
    result
}

/// Hash of a NUL-terminated byte sequence: processing stops at the first NUL
/// byte, so bytes after it never contribute (unlike [`hash_bytes`], which
/// skips interior NULs and continues).
pub fn hash_cstr(buf: &[u8]) -> (r: u32)
    ensures
        r == hash_of(buf@.take(first_nul(buf@))),
{
    let mut result: u32 = 3581;
    let mut index: usize = 0;
    loop
        invariant
            index <= buf@.len(),
            forall|j: int| 0 <= j < index ==> buf@[j] != 0,
            result == hash_of(buf@.take(index as int)),
        ensures
            index as int == first_nul(buf@),
        decreases buf@.len() - index,
    {
        if index >= buf.len() {
            proof {
                lemma_first_nul_is(buf@, index as int);
            }
            break;
        }
        let val = buf[index];
        if val == 0 {
            proof {
                lemma_first_nul_is(buf@, index as int);
            }
            break;
        }
        proof {
            assert(buf@.take(index + 1).drop_last() =~= buf@.take(index as int));
        }
        let value: u32 = (if val <= 0x5A {
            val + 0x20
        } else {
            val
        }) as u32;
        result = result.wrapping_mul(33) ^ value;
        index += 1;
    }
    result
}

/// [`first_nul`] is exactly the position bounded below by NUL-free bytes and,
/// when inside the sequence, holding a NUL itself.
pub proof fn lemma_first_nul_is(bytes: Seq<u8>, i: int)
    requires
        0 <= i <= bytes.len(),
        forall|j: int| 0 <= j < i ==> bytes[j] != 0,
        i < bytes.len() ==> bytes[i] == 0,
    ensures
        first_nul(bytes) == i,
    decreases bytes.len(),
{
    if bytes.len() == 0 {
    } else if bytes.first() == 0 {
        assert(i == 0);
    } else {
        assert(i >= 1);
        assert(forall|j: int| 0 <= j < i - 1 ==> bytes.drop_first()[j] == bytes[j + 1]);
        lemma_first_nul_is(bytes.drop_first(), i - 1);
    }
}

/// The NUL-terminated hash truncates at the first NUL: for any NUL-free
/// prefix, the model that [`hash_cstr`] returns on the terminated sequence is
/// the plain hash of the prefix, whatever follows the terminator.
pub proof fn lemma_cstr_stops_at_first_nul(prefix: Seq<u8>, rest: Seq<u8>)
    requires
        forall|j: int| 0 <= j < prefix.len() ==> prefix[j] != 0,
    ensures
        hash_of(
            (prefix + seq![0u8] + rest).take(first_nul(prefix + seq![0u8] + rest)),
        ) == hash_of(prefix),
{
    let full = prefix + seq![0u8] + rest;
    lemma_first_nul_is(full, prefix.len() as int);
    assert(full.take(prefix.len() as int) =~= prefix);
}

/// Appending a single NUL byte leaves the hash unchanged.
pub proof fn lemma_hash_push_nul(bytes: Seq<u8>)
    ensures
        hash_of(bytes.push(0)) == hash_of(bytes),
{
    assert(bytes.push(0).drop_last() =~= bytes);
}

/// Trailing NUL bytes are immaterial: appending a run of three NUL bytes
/// leaves the hash unchanged.
pub proof fn lemma_hash_ignores_trailing_nuls(bytes: Seq<u8>)
    ensures
        hash_of(bytes + seq![0u8, 0u8, 0u8]) == hash_of(bytes),
{
    lemma_hash_push_nul(bytes);
    lemma_hash_push_nul(bytes.push(0));
    lemma_hash_push_nul(bytes.push(0).push(0));
    assert(bytes + seq![0u8, 0u8, 0u8] =~= bytes.push(0).push(0).push(0));
}

/// A NUL byte anywhere in a sequence is skipped: hashing around it is the
/// same as hashing the sequence with the NUL removed.
pub proof fn lemma_hash_skips_nul(before: Seq<u8>, after: Seq<u8>)
    ensures
        hash_of(before + seq![0u8] + after) == hash_of(before + after),
    decreases after.len(),
{
    if after.len() == 0 {
        lemma_hash_push_nul(before);
        assert(before + seq![0u8] + after =~= before.push(0));
        assert(before + after =~= before);
    } else {
        lemma_hash_skips_nul(before, after.drop_last());
        assert((before + seq![0u8] + after).drop_last() =~= before + seq![0u8]
            + after.drop_last());
        assert((before + after).drop_last() =~= before + after.drop_last());
        assert((before + seq![0u8] + after).last() == after.last());
        assert((before + after).last() == after.last());
    }
}

/// The byte-level ASCII upcase: letters `'a'..='z'` are shifted down by
/// `0x20`; every other byte is unchanged.
pub open spec fn upper_ascii(b: u8) -> u8 {
    if 0x61 <= b <= 0x7A {
        (b - 0x20) as u8
    } else {
        b
    }
}

/// A byte sequence with every ASCII lowercase letter upcased.
pub open spec fn upper_ascii_all(bytes: Seq<u8>) -> Seq<u8> {
    bytes.map_values(|b: u8| upper_ascii(b))
}

/// Case-insensitivity of the hash: upcasing the ASCII letters of a byte
/// sequence leaves its hash unchanged.
pub proof fn lemma_hash_case_insensitive(bytes: Seq<u8>)
    ensures
        hash_of(upper_ascii_all(bytes)) == hash_of(bytes),
    decreases bytes.len(),
{
    if bytes.len() == 0 {
        assert(upper_ascii_all(bytes) =~= Seq::<u8>::empty());
    } else {
        lemma_hash_case_insensitive(bytes.drop_last());
        assert(upper_ascii_all(bytes).drop_last() =~= upper_ascii_all(bytes.drop_last()));
        assert(upper_ascii_all(bytes).last() == upper_ascii(bytes.last()));
        assert(fold_byte(upper_ascii(bytes.last())) == fold_byte(bytes.last()));
    }
}

/// Case-insensitivity at the string level: an ASCII string and its ASCII
/// uppercased form hash alike.
pub proof fn lemma_hash_utf8_case_insensitive(s: Seq<char>, t: Seq<char>)
    requires
        is_ascii_chars(s),
        is_ascii_chars(t),
        t.len() == s.len(),
        forall|i: int| 0 <= i < s.len() ==> (t[i] as u8) == upper_ascii(s[i] as u8),
    ensures
        hash_of(encode_utf8(t)) == hash_of(encode_utf8(s)),
{
    is_ascii_chars_encode_utf8(s);
    is_ascii_chars_encode_utf8(t);
    assert(encode_utf8(t) =~= upper_ascii_all(encode_utf8(s)));
    lemma_hash_case_insensitive(encode_utf8(s));
}

} // verus!
