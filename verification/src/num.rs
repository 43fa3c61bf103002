use vstd::prelude::*;

verus! {

// Numeric coercions over IEEE-754 *bit patterns*.
//
// The crate carries floating-point payloads as their bit patterns and never
// computes with the numbers, so the coercions the message type owes its
// callers — widen a binary32 to a binary64, read an unsigned integer as a
// binary64, truncate a binary64 toward zero to an unsigned integer — are
// defined here directly on the bits, exactly as the standard embedding and
// round-to-nearest-even prescribe.

/// Index of the highest set bit: `msb64(m)` is the `k` with
/// `2^k <= m < 2^(k+1)` (and `0` for `m == 0`).
pub open spec fn msb64(m: u64) -> u64
    decreases m,
{
    if m < 2 {
        0
    } else {
        (1 + msb64(m / 2)) as u64
    }
}

proof fn lemma_msb64_bound(m: u64, b: u64)
    requires
        1 <= b <= 63,
        m < (1u64 << b),
    ensures
        msb64(m) < b,
    decreases b,
{
    if m < 2 {
    } else {
        assert(b >= 2 && (m / 2) < (1u64 << ((b - 1) as u64))) by (bit_vector)
            requires
                m >= 2 && 1 <= b <= 63 && m < (1u64 << b),
        ;
        lemma_msb64_bound(m / 2, (b - 1) as u64);
    }
}

proof fn lemma_msb64_le63(m: u64)
    ensures
        msb64(m) <= 63,
{
    if m < 2 {
    } else {
        assert((m / 2) < (1u64 << 63)) by (bit_vector);
        lemma_msb64_bound(m / 2, 63);
    }
}

proof fn lemma_msb64_shift(m: u64)
    requires
        m >= 1,
    ensures
        (m >> msb64(m)) == 1,
    decreases m,
{
    if m < 2 {
        assert(m >> 0 == m) by (bit_vector);
    } else {
        lemma_msb64_shift(m / 2);
        let j = msb64(m / 2);
        assert((m / 2) < (1u64 << 63)) by (bit_vector);
        lemma_msb64_bound(m / 2, 63);
        assert((m >> ((1 + j) as u64)) == ((m / 2) >> j)) by (bit_vector)
            requires
                j <= 62,
        ;
    }
}

/// Highest set bit of a positive word, with the facts callers need.
fn top_bit(m: u64) -> (k: u64)
    requires
        m >= 1,
    ensures
        k == msb64(m),
        k <= 63,
        (m >> k) == 1,
    decreases m,
{
    proof {
        lemma_msb64_le63(m);
        lemma_msb64_shift(m);
    }
    if m < 2 {
        0
    } else {
        let j = top_bit(m / 2);
        1 + j
    }
}

/// The binary64 bit pattern denoting the same number as binary32 bit
/// pattern `b`: sign kept, exponent rebiased, significand left-aligned;
/// subnormals are normalized, infinities and NaNs keep their payload.
pub open spec fn widen_f32_bits(b: u32) -> u64 {
    let s: u64 = (b >> 31) as u64;
    let e: u64 = ((b >> 23) & 0xFF) as u64;
    let m: u64 = (b & 0x7FFFFF) as u64;
    if e == 255 {
        (s << 63) | (0x7FFu64 << 52) | (m << 29)
    } else if e == 0 {
        if m == 0 {
            s << 63
        } else {
            widen_f32_subnormal(s, m)
        }
    } else {
        (s << 63) | (((e + 896) as u64) << 52) | (m << 29)
    }
}

/// Normalization of a binary32 subnormal (`m` is the raw 23-bit
/// significand, `0 < m < 2^23`): the leading bit becomes implicit and the
/// exponent records its position.
pub open spec fn widen_f32_subnormal(s: u64, m: u64) -> u64 {
    let k = msb64(m);
    (s << 63) | (((k + 874) as u64) << 52) | (((m - (1u64 << k)) as u64) << ((52 - k) as u64))
}

/// Widen a binary32 bit pattern to the binary64 bit pattern of the same
/// number.
pub fn widen_f32(b: u32) -> (r: u64)
    ensures
        r == widen_f32_bits(b),
{
    let s: u64 = (b >> 31) as u64;
    let e: u64 = ((b >> 23) & 0xFF) as u64;
    let m: u64 = (b & 0x7FFFFF) as u64;
    assert(s <= 1 && e <= 255 && m <= 0x7FFFFF) by (bit_vector)
        requires
            s == ((b >> 31) as u64) && e == (((b >> 23) & 0xFF) as u64) && m == ((b & 0x7FFFFF)
                as u64),
    ;
    if e == 255 {
        (s << 63) | (0x7FFu64 << 52) | (m << 29)
    } else if e == 0 {
        if m == 0 {
            s << 63
        } else {
            let k = top_bit(m);
            assert(k <= 22 && (1u64 << k) <= m) by (bit_vector)
                requires
                    1 <= m <= 0x7FFFFF && k <= 63 && (m >> k) == 1,
            ;
            (s << 63) | ((k + 874) << 52) | ((m - (1u64 << k)) << (52 - k))
        }
    } else {
        (s << 63) | ((e + 896) << 52) | (m << 29)
    }
}

/// The binary64 bit pattern nearest to integer `v` (round to nearest, ties
/// to even): exact for `v < 2^53`, otherwise the low bits are rounded into
/// the 53-bit significand, carrying into the exponent when they overflow
/// it.
pub open spec fn u64_to_f64_bits(v: u64) -> u64 {
    if v == 0 {
        0
    } else {
        let k = msb64(v);
        if k <= 52 {
            (((k + 1023) as u64) << 52) | (((v - (1u64 << k)) as u64) << ((52 - k) as u64))
        } else {
            let sh = (k - 52) as u64;
            let q = v >> sh;
            let rem = v & (((1u64 << sh) - 1) as u64);
            let half = 1u64 << ((sh - 1) as u64);
            let up = rem > half || (rem == half && (q & 1) == 1);
            let q2 = if up {
                (q + 1) as u64
            } else {
                q
            };
            if q2 == (1u64 << 53) {
                ((k + 1024) as u64) << 52
            } else {
                (((k + 1023) as u64) << 52) | ((q2 - 0x10000000000000u64) as u64)
            }
        }
    }
}

/// Read an unsigned 64-bit integer as the nearest binary64, as a bit
/// pattern.
pub fn u64_to_f64(v: u64) -> (r: u64)
    ensures
        r == u64_to_f64_bits(v),
{
    if v == 0 {
        0
    } else {
        let k = top_bit(v);
        if k <= 52 {
            assert((1u64 << k) <= v) by (bit_vector)
                requires
                    v >= 1 && k <= 63 && (v >> k) == 1,
            ;
            ((k + 1023) << 52) | ((v - (1u64 << k)) << (52 - k))
        } else {
            let sh = k - 52;
            let q = v >> sh;
            assert(0x10000000000000u64 <= q && q <= 0x1FFFFFFFFFFFFFu64) by (bit_vector)
                requires
                    53 <= k <= 63 && sh == k - 52 && (v >> k) == 1 && q == (v >> sh),
            ;
            assert((1u64 << sh) >= 2) by (bit_vector)
                requires
                    1 <= sh <= 11,
            ;
            let rem = v & ((1u64 << sh) - 1);
            let half = 1u64 << (sh - 1);
            let up = rem > half || (rem == half && (q & 1) == 1);
            let q2 = if up {
                q + 1
            } else {
                q
            };
            if q2 == (1u64 << 53) {
                (k + 1024) << 52
            } else {
                ((k + 1023) << 52) | (q2 - 0x10000000000000u64)
            }
        }
    }
}

/// Truncate the number denoted by binary64 bit pattern `b` toward zero and
/// clamp it into `u64`: NaNs and negative values give `0`, values at or
/// above `2^64` give `u64::MAX` — the saturating conversion a Rust `as`
/// cast performs.
pub open spec fn trunc_f64_bits_u64(b: u64) -> u64 {
    let s = b >> 63;
    let e = (b >> 52) & 0x7FF;
    let f = b & 0xFFFFFFFFFFFFF;
    if e == 0x7FF {
        if f != 0 {
            0  // NaN
        } else if s == 1 {
            0  // negative infinity
        } else {
            u64::MAX  // positive infinity
        }
    } else if s == 1 {
        0  // negative numbers truncate toward zero, then clamp at zero
    } else if e < 1023 {
        0  // magnitude below one
    } else if e >= 1087 {
        u64::MAX  // magnitude at or above 2^64
    } else {
        let p = (e - 1023) as u64;
        let m = f | 0x10000000000000u64;
        if p <= 52 {
            m >> ((52 - p) as u64)
        } else {
            m << ((p - 52) as u64)
        }
    }
}

/// Truncate a binary64 bit pattern toward zero into `u64`, saturating.
pub fn trunc_f64_u64(b: u64) -> (r: u64)
    ensures
        r == trunc_f64_bits_u64(b),
{
    let s = b >> 63;
    let e = (b >> 52) & 0x7FF;
    let f = b & 0xFFFFFFFFFFFFF;
    assert(s <= 1 && e <= 0x7FF && f <= 0xFFFFFFFFFFFFF) by (bit_vector)
        requires
            s == (b >> 63) && e == ((b >> 52) & 0x7FF) && f == (b & 0xFFFFFFFFFFFFF),
    ;
    if e == 0x7FF {
        if f != 0 {
            0
        } else if s == 1 {
            0
        } else {
            u64::MAX
        }
    } else if s == 1 {
        0
    } else if e < 1023 {
        0
    } else if e >= 1087 {
        u64::MAX
    } else {
        let p = e - 1023;
        let m = f | 0x10000000000000u64;
        if p <= 52 {
            m >> (52 - p)
        } else {
            m << (p - 52)
        }
    }
}

/// Truncate a binary64 bit pattern toward zero into `usize`, saturating:
/// the behaviour of a Rust `as usize` cast on any platform width.
pub open spec fn trunc_f64_bits_usize(b: u64) -> usize {
    let t = trunc_f64_bits_u64(b);
    if t > usize::MAX as u64 {
        usize::MAX
    } else {
        t as usize
    }
}

/// Truncate a binary64 bit pattern toward zero into `usize`, saturating.
pub fn trunc_f64_usize(b: u64) -> (r: usize)
    ensures
        r == trunc_f64_bits_usize(b),
{
    let t = trunc_f64_u64(b);
    if t > usize::MAX as u64 {
        usize::MAX
    } else {
        t as usize
    }
}

} // verus!
