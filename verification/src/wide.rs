//! UTF-8 to UTF-16 transcoding: a lenient one-code-point UTF-8 decoder, a
//! code-unit counter, and an encoder that emits surrogate pairs for code
//! points at or above `0x10000`.
//!
//! Decoding goes by byte patterns alone: a lead byte with too few bytes after
//! it, or a byte matching no lead pattern, simply stops the decode (treated
//! as end of input) rather than raising an error.
use vstd::prelude::*;

verus! {

use vstd::utf8::encode_utf8;

/// One lenient UTF-8 decoding step at byte offset `i`: the decoded code point
/// and the offset just past its encoding, or `None` when no lead pattern with
/// enough following bytes matches.
pub open spec fn utf8_next(bytes: Seq<u8>, i: int) -> Option<(u32, int)> {
    let n = bytes.len() as int;
    if 0 <= i && i < n && bytes[i] & 0x80 == 0x00 {
        Some((bytes[i] as u32, i + 1))
    } else if 0 <= i && i + 1 < n && bytes[i] & 0xE0 == 0xC0 {
        Some((((bytes[i] as u32 & 0x1F) << 6) | (bytes[i + 1] as u32 & 0x3F), i + 2))
    } else if 0 <= i && i + 2 < n && bytes[i] & 0xF0 == 0xE0 {
        Some(
            (((bytes[i] as u32 & 0x0F) << 12) | ((bytes[i + 1] as u32 & 0x3F) << 6) | (bytes[i
                + 2] as u32 & 0x3F), i + 3),
        )
    } else if 0 <= i && i + 3 < n && bytes[i] & 0xF8 == 0xF0 {
        Some(
            (((bytes[i] as u32 & 0x07) << 18) | ((bytes[i + 1] as u32 & 0x3F) << 12) | ((bytes[i
                + 2] as u32 & 0x3F) << 6) | (bytes[i + 3] as u32 & 0x3F), i + 4),
        )
    } else {
        None
    }
}

/// The UTF-16 code units of one code point: the point itself below `0x10000`,
/// else its high and low surrogates.
pub open spec fn units_of(c: u32) -> Seq<u16> {
    if c >= 0x10000 {
        seq![
            (0xD800 + ((c - 0x10000) / 0x400)) as u16,
            (0xDC00 + ((c - 0x10000) % 0x400)) as u16,
        ]
    } else {
        seq![c as u16]
    }
}

/// The UTF-16 code units decoded from byte offset `i` onward, stopping at the
/// first position where no code point decodes.
pub open spec fn wide_from(bytes: Seq<u8>, i: int) -> Seq<u16>
    decreases bytes.len() - i,
{
    match utf8_next(bytes, i) {
        Some((c, j)) => units_of(c) + wide_from(bytes, j),
        None => Seq::empty(),
    }
}

/// The full UTF-16 encoding of a byte sequence read as UTF-8.
pub open spec fn wide_of(bytes: Seq<u8>) -> Seq<u16> {
    wide_from(bytes, 0)
}

/// Decodes one code point at byte offset `i`, returning it with the offset
/// just past its encoding; `None` stops the decode.
pub fn next(bytes: &[u8], i: usize) -> (r: Option<(u32, usize)>)
    ensures
        (match r {
            Some((c, j)) => utf8_next(bytes@, i as int) == Some::<(u32, int)>((c, j as int)) && i
                < j <= bytes@.len() && c < 0x200000,
            None => utf8_next(bytes@, i as int) is None,
        }),
{
    let n = bytes.len();
    if i < n {
        let a = bytes[i];
        if a & 0x80 == 0x00 {
            return Some((a as u32, i + 1));
        }
        if a & 0xE0 == 0xC0 && n - i >= 2 {
            let b = bytes[i + 1];
            proof {
                assert(((a as u32 & 0x1F) << 6) | (b as u32 & 0x3F) < 0x200000u32) by (bit_vector);
            }
            return Some((((a as u32 & 0x1F) << 6) | (b as u32 & 0x3F), i + 2));
        }
        if a & 0xF0 == 0xE0 && n - i >= 3 {
            let b = bytes[i + 1];
            let c = bytes[i + 2];
            proof {
                assert(((a as u32 & 0x0F) << 12) | ((b as u32 & 0x3F) << 6) | (c as u32 & 0x3F)
                    < 0x200000u32) by (bit_vector);
            }
            return Some(
                (((a as u32 & 0x0F) << 12) | ((b as u32 & 0x3F) << 6) | (c as u32 & 0x3F), i + 3),
            );
        }
        if a & 0xF8 == 0xF0 && n - i >= 4 {
            let b = bytes[i + 1];
            let c = bytes[i + 2];
            let d = bytes[i + 3];
            proof {
                assert(((a as u32 & 0x07) << 18) | ((b as u32 & 0x3F) << 12) | ((c as u32 & 0x3F)
                    << 6) | (d as u32 & 0x3F) < 0x200000u32) by (bit_vector);
            }
            return Some(
                (((a as u32 & 0x07) << 18) | ((b as u32 & 0x3F) << 12) | ((c as u32 & 0x3F) << 6)
                    | (d as u32 & 0x3F), i + 4),
            );
        }
    }
    None
}

/// A code point at or above `0x10000` decodes only from a four-byte lead, so
/// one decoding step never emits more code units than the bytes it consumed.
pub proof fn lemma_units_le_consumed(bytes: Seq<u8>, i: int)
    requires
        utf8_next(bytes, i) is Some,
    ensures
        units_of(utf8_next(bytes, i)->Some_0.0).len() <= utf8_next(bytes, i)->Some_0.1 - i,
{
    if i + 1 < bytes.len() && bytes[i] & 0xE0 == 0xC0 {
        let a = bytes[i];
        let b = bytes[i + 1];
        assert(((a as u32 & 0x1F) << 6) | (b as u32 & 0x3F) < 0x10000u32) by (bit_vector);
    }
    if i + 2 < bytes.len() && bytes[i] & 0xF0 == 0xE0 {
        let a = bytes[i];
        let b = bytes[i + 1];
        let c2 = bytes[i + 2];
        assert(((a as u32 & 0x0F) << 12) | ((b as u32 & 0x3F) << 6) | (c2 as u32 & 0x3F)
            < 0x10000u32) by (bit_vector);
    }
}

/// Each decoded code point contributes no more code units than the bytes it
/// consumed, so the full decode from offset `i` yields at most the remaining
/// byte count.
pub proof fn lemma_wide_from_len_bound(bytes: Seq<u8>, i: int)
    requires
        0 <= i <= bytes.len(),
    ensures
        wide_from(bytes, i).len() <= bytes.len() - i,
    decreases bytes.len() - i,
{
    match utf8_next(bytes, i) {
        Some((c, j)) => {
            lemma_units_le_consumed(bytes, i);
            lemma_wide_from_len_bound(bytes, j);
        },
        None => {},
    }
}

/// Counts the UTF-16 code units the string's code points need: one for each
/// code point below `0x10000`, two for each at or above it.
pub fn len(s: &str) -> (r: usize)
    ensures
        r == wide_of(encode_utf8(s@)).len(),
{
    let bytes = s.as_bytes();
    let n = bytes.len();
    let mut i: usize = 0;
    let mut total: usize = 0;
    proof {
        lemma_wide_from_len_bound(bytes@, 0);
    }
    loop
        invariant
            i <= bytes@.len(),
            bytes@.len() == n,
            bytes@ == encode_utf8(s@),
            total == wide_of(bytes@).len() - wide_from(bytes@, i as int).len(),
            wide_of(bytes@).len() <= bytes@.len(),
        ensures
            i <= bytes@.len(),
            bytes@ == encode_utf8(s@),
            total == wide_of(bytes@).len() - wide_from(bytes@, i as int).len(),
            wide_from(bytes@, i as int).len() == 0,
        decreases bytes@.len() - i,
    {
        match next(bytes, i) {
            Some((chr, tail)) => {
                proof {
                    lemma_units_le_consumed(bytes@, i as int);
                    lemma_wide_from_len_bound(bytes@, tail as int);
                    assert(wide_from(bytes@, i as int) == units_of(chr) + wide_from(
                        bytes@,
                        tail as int,
                    ));
                }
                if chr >= 0x10000 {
                    total = total + 2;
                } else {
                    total = total + 1;
                }
                i = tail;
            },
            None => {
                break;
            },
        }
    }
    total
}

/// Encodes the string's code points as UTF-16 code units in order, emitting a
/// surrogate pair for each code point at or above `0x10000`. The caller
/// supplies the exact code-unit count, as computed by [`len`].
pub fn encode(s: &str, len: usize) -> (r: Vec<u16>)
    requires
        len == wide_of(encode_utf8(s@)).len(),
    ensures
        r@ == wide_of(encode_utf8(s@)),
        r@.len() == len,
{
    let bytes = s.as_bytes();
    let mut data: Vec<u16> = Vec::new();
    let mut i: usize = 0;
    loop
        invariant
            i <= bytes@.len(),
            bytes@ == encode_utf8(s@),
            data@ + wide_from(bytes@, i as int) == wide_of(bytes@),
        ensures
            data@ + wide_from(bytes@, i as int) == wide_of(bytes@),
            wide_from(bytes@, i as int).len() == 0,
        decreases bytes@.len() - i,
    {
        match next(bytes, i) {
            Some((chr, tail)) => {
                if chr >= 0x10000 {
                    data.push((0xD800 + (chr - 0x10000) / 0x400) as u16);
                    data.push((0xDC00 + (chr - 0x10000) % 0x400) as u16);
                } else {
                    data.push(chr as u16);
                }
                proof {
                    assert(data@ + wide_from(bytes@, tail as int) =~= wide_of(bytes@));
                }
                i = tail;
            },
            None => {
                break;
            },
        }
    }
    proof {
        assert(data@ =~= wide_of(bytes@));
    }
    data
}

/// A surrogate pair: every code point in the supplementary planes encodes to
/// exactly two code units, the first a high surrogate in `0xD800..=0xDBFF`
/// and the second a low surrogate in `0xDC00..=0xDFFF`.
pub proof fn lemma_surrogate_pair(c: u32)
    requires
        0x10000 <= c <= 0x10FFFF,
    ensures
        units_of(c).len() == 2,
        0xD800 <= units_of(c)[0] <= 0xDBFF,
        0xDC00 <= units_of(c)[1] <= 0xDFFF,
{
    assert((c - 0x10000) / 0x400 <= 0x3FF) by (nonlinear_arith)
        requires
            0x10000 <= c <= 0x10FFFF,
    ;
    assert((c - 0x10000) % 0x400 <= 0x3FF) by (nonlinear_arith)
        requires
            0x10000 <= c <= 0x10FFFF,
    ;
}

} // verus!
