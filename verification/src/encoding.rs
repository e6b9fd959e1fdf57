//! A UTF-8 validity check over raw bytes.
//!
//! The metadata scanner only trusts captured process output that decodes
//! as text; this module decides, in verified code, whether a byte
//! sequence is a well-formed UTF-8 encoding, against the encoding
//! definition in `vstd::utf8`.

use vstd::prelude::*;
use vstd::utf8::*;

verus! {

/// Whether `b` has the continuation-byte bit pattern `10xxxxxx`.
fn is_continuation(b: u8) -> (r: bool)
    ensures
        r == is_continuation_byte(b),
{
    0x80 <= b && b <= 0xBF
}

/// Crossing one well-formed scalar keeps overall validity unchanged.
proof fn lemma_scalar_step(s: Seq<u8>, i: int, w: int)
    requires
        0 <= i,
        i + w <= s.len(),
        valid_first_scalar(s.skip(i)),
        length_of_first_scalar(s.skip(i)) == w,
    ensures
        valid_utf8(s.skip(i)) == valid_utf8(s.skip(i + w)),
{
    let t = s.skip(i);
    assert(t.len() != 0);
    assert(pop_first_scalar(t) =~= s.skip(i + w));
}

/// A malformed first scalar makes the whole remainder invalid.
proof fn lemma_scalar_reject(s: Seq<u8>, i: int)
    requires
        0 <= i < s.len(),
        !valid_first_scalar(s.skip(i)),
    ensures
        !valid_utf8(s.skip(i)),
{
    assert(s.skip(i).len() != 0);
}

/// Returns the byte width of the well-formed scalar whose encoding
/// starts at position `i`, or 0 when no well-formed scalar starts there.
fn scalar_len_at(bytes: &Vec<u8>, i: usize) -> (w: usize)
    requires
        i < bytes@.len(),
    ensures
        w == 0 ==> !valid_first_scalar(bytes@.skip(i as int)),
        w != 0 ==> valid_first_scalar(bytes@.skip(i as int)) && length_of_first_scalar(
            bytes@.skip(i as int),
        ) == w && i + w <= bytes@.len(),
{
    let ghost t = bytes@.skip(i as int);
    let n = bytes.len();
    let b0 = bytes[i];
    proof {
        assert(t.len() == n - i);
        assert(t[0] == b0);
    }
    if b0 <= 0x7F {
        // One-byte scalar: the value is at most 0x7F, far below the
        // surrogate range.
        proof {
            assert(((b0 & 0x7F) as u32) <= 0x7F) by (bit_vector);
        }
        1
    } else if 0xC0 <= b0 && b0 <= 0xDF {
        if n - i >= 2 {
            let b1 = bytes[i + 1];
            proof {
                assert(t[1] == b1);
            }
            if is_continuation(b1) && 0xC2 <= b0 {
                proof {
                    assert(0x80 <= ((((b0 & 0x1F) as u32) << 6) | ((b1 & 0x3F) as u32)) && ((((b0
                        & 0x1F) as u32) << 6) | ((b1 & 0x3F) as u32)) <= 0x7FF) by (bit_vector)
                        requires
                            0xC2 <= b0 && b0 <= 0xDF,
                    ;
                }
                2
            } else {
                proof {
                    if is_continuation_byte(b1) {
                        // Only 0xC0 and 0xC1 remain: an overlong
                        // two-byte form of a value below 0x80.
                        assert(((((b0 & 0x1F) as u32) << 6) | ((b1 & 0x3F) as u32)) < 0x80)
                            by (bit_vector)
                            requires
                                0xC0 <= b0 && b0 <= 0xC1 && 0x80 <= b1,
                        ;
                    }
                }
                0
            }
        } else {
            0
        }
    } else if 0xE0 <= b0 && b0 <= 0xEF {
        if n - i >= 3 {
            let b1 = bytes[i + 1];
            let b2 = bytes[i + 2];
            proof {
                assert(t[1] == b1);
                assert(t[2] == b2);
            }
            if is_continuation(b1) && is_continuation(b2) && !(b0 == 0xE0 && b1 < 0xA0) && !(b0
                == 0xED && b1 >= 0xA0) {
                proof {
                    assert({
                        let cp = (((b0 & 0x0F) as u32) << 12) | ((((b1 & 0x3F) as u32)) << 6) | ((
                        b2 & 0x3F) as u32);
                        0x800 <= cp && cp <= 0xFFFF && !(0xD800 <= cp && cp <= 0xDFFF)
                    }) by (bit_vector)
                        requires
                            0xE0 <= b0 && b0 <= 0xEF && 0x80 <= b1 && b1 <= 0xBF && !(b0 == 0xE0
                                && b1 < 0xA0) && !(b0 == 0xED && b1 >= 0xA0),
                    ;
                }
                3
            } else {
                proof {
                    if is_continuation_byte(b1) && is_continuation_byte(b2) {
                        if b0 == 0xE0 && b1 < 0xA0 {
                            // Overlong three-byte form of a value below 0x800.
                            assert(((((b0 & 0x0F) as u32) << 12) | ((((b1 & 0x3F) as u32)) << 6) | (
                            (b2 & 0x3F) as u32)) < 0x800) by (bit_vector)
                                requires
                                    b0 == 0xE0 && 0x80 <= b1 && b1 < 0xA0,
                            ;
                        } else {
                            // The encoded value falls in the surrogate range.
                            assert({
                                let cp = (((b0 & 0x0F) as u32) << 12) | ((((b1 & 0x3F) as u32))
                                    << 6) | ((b2 & 0x3F) as u32);
                                0xD800 <= cp && cp <= 0xDFFF
                            }) by (bit_vector)
                                requires
                                    b0 == 0xED && 0xA0 <= b1 && b1 <= 0xBF && 0x80 <= b2 && b2
                                        <= 0xBF,
                            ;
                        }
                    }
                }
                0
            }
        } else {
            0
        }
    } else if 0xF0 <= b0 && b0 <= 0xF7 {
        if n - i >= 4 {
            let b1 = bytes[i + 1];
            let b2 = bytes[i + 2];
            let b3 = bytes[i + 3];
            proof {
                assert(t[1] == b1);
                assert(t[2] == b2);
                assert(t[3] == b3);
            }
            if is_continuation(b1) && is_continuation(b2) && is_continuation(b3) && !(b0 == 0xF0
                && b1 < 0x90) && (b0 < 0xF4 || (b0 == 0xF4 && b1 < 0x90)) {
                proof {
                    assert({
                        let cp = (((b0 & 0x07) as u32) << 18) | ((((b1 & 0x3F) as u32)) << 12) | ((
                        ((b2 & 0x3F) as u32)) << 6) | ((b3 & 0x3F) as u32);
                        0x10000 <= cp && cp <= 0x10FFFF
                    }) by (bit_vector)
                        requires
                            0xF0 <= b0 && b0 <= 0xF4 && 0x80 <= b1 && b1 <= 0xBF && !(b0 == 0xF0
                                && b1 < 0x90) && (b0 < 0xF4 || (b0 == 0xF4 && b1 < 0x90)),
                    ;
                }
                4
            } else {
                proof {
                    if is_continuation_byte(b1) && is_continuation_byte(b2)
                        && is_continuation_byte(b3) {
                        if b0 == 0xF0 && b1 < 0x90 {
                            // Overlong four-byte form of a value below 0x10000.
                            assert(((((b0 & 0x07) as u32) << 18) | ((((b1 & 0x3F) as u32)) << 12) | (
                            (((b2 & 0x3F) as u32)) << 6) | ((b3 & 0x3F) as u32)) < 0x10000)
                                by (bit_vector)
                                requires
                                    b0 == 0xF0 && 0x80 <= b1 && b1 < 0x90,
                            ;
                        } else {
                            // The encoded value lies above the last scalar.
                            assert(((((b0 & 0x07) as u32) << 18) | ((((b1 & 0x3F) as u32)) << 12) | (
                            (((b2 & 0x3F) as u32)) << 6) | ((b3 & 0x3F) as u32)) > 0x10FFFF)
                                by (bit_vector)
                                requires
                                    ((b0 == 0xF4 && 0x90 <= b1) || (0xF5 <= b0 && b0 <= 0xF7)) && b1
                                        <= 0xBF,
                            ;
                        }
                    }
                }
                0
            }
        } else {
            0
        }
    } else {
        // A continuation byte in leading position, or a byte above 0xF7:
        // no encoding starts with it.
        0
    }
}

/// The shape of a well-formed first scalar: its width fits in the
/// sequence, a multibyte encoding starts at 0xC0 or above, and every
/// byte after the leading one is a continuation byte.
pub proof fn lemma_first_scalar_shape(s: Seq<u8>)
    requires
        valid_first_scalar(s),
    ensures
        1 <= length_of_first_scalar(s) <= s.len(),
        length_of_first_scalar(s) == 1 ==> is_leading_byte_width_1(s[0]),
        length_of_first_scalar(s) >= 2 ==> s[0] >= 0xC0,
        length_of_first_scalar(s) >= 2 ==> is_continuation_byte(s[1]),
        length_of_first_scalar(s) >= 3 ==> is_continuation_byte(s[2]),
        length_of_first_scalar(s) >= 4 ==> is_continuation_byte(s[3]),
{
}

/// A single byte at or below 0x7F is by itself well-formed UTF-8.
pub proof fn lemma_single_ascii_byte_valid(b: u8)
    requires
        b <= 0x7F,
    ensures
        valid_utf8(seq![b]),
{
    reveal_with_fuel(valid_utf8, 2);
    let s = seq![b];
    assert(s.len() == 1 && s[0] == b);
    assert(((b & 0x7F) as u32) <= 0x7F) by (bit_vector);
    assert(valid_first_scalar(s));
    assert(pop_first_scalar(s) =~= Seq::<u8>::empty());
    assert(valid_utf8(Seq::<u8>::empty()));
}

/// In well-formed UTF-8, a position holding a one-byte (ASCII) scalar
/// is a scalar boundary, and so is the position just after it.
pub proof fn lemma_ascii_boundaries(s: Seq<u8>, p: int)
    requires
        valid_utf8(s),
        0 <= p < s.len(),
        is_leading_byte_width_1(s[p]),
    ensures
        is_char_boundary(s, p),
        is_char_boundary(s, p + 1),
    decreases s.len(),
{
    assert(s.len() != 0);
    lemma_first_scalar_shape(s);
    let w = length_of_first_scalar(s);
    if p == 0 {
        reveal_with_fuel(is_char_boundary, 2);
        assert(w == 1);
        assert(is_char_boundary(s, 1));
    } else {
        if p < w {
            assert(p == 1 || p == 2 || p == 3);
            assert(is_continuation_byte(s[p]));
            assert(false);
        }
        assert(pop_first_scalar(s) =~= s.skip(w));
        lemma_ascii_boundaries(s.skip(w), p - w);
    }
}

/// Decides whether `bytes` is a well-formed UTF-8 encoding.
pub fn is_utf8(bytes: &Vec<u8>) -> (r: bool)
    ensures
        r == valid_utf8(bytes@),
{
    let n = bytes.len();
    let mut i: usize = 0;
    proof {
        assert(bytes@.skip(0) =~= bytes@);
    }
    while i < n
        invariant
            i <= n,
            n == bytes@.len(),
            valid_utf8(bytes@) == valid_utf8(bytes@.skip(i as int)),
        decreases n - i,
    {
        let w = scalar_len_at(bytes, i);
        if w == 0 {
            proof {
                lemma_scalar_reject(bytes@, i as int);
            }
            return false;
        }
        proof {
            lemma_scalar_step(bytes@, i as int, w as int);
        }
        i = i + w;
    }
    proof {
        assert(bytes@.skip(n as int) =~= Seq::<u8>::empty());
    }
    true
}

} // verus!
