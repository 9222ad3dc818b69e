//! Conversion of `f32` color channels, given as IEEE-754 bit patterns, to
//! bytes the way `(channel * 255.0) as u8` converts them: the product is
//! rounded to `f32` (nearest, ties to even) and then truncated toward zero,
//! saturating at 0 and 255, with NaN giving 0.
use vstd::prelude::*;
use vstd::arithmetic::power2::{pow2, lemma2_to64, lemma_pow2_adds, lemma_pow2_strictly_increases, lemma_pow2_pos};

verus! {

/// The unit that leaves `n` with at most 24 significant bits: the least power
/// of two `p` with `n / p < 2^24`.
pub open spec fn spec_sig24_unit(n: nat) -> nat
    decreases n,
{
    if n < 0x100_0000 {
        1
    } else {
        2 * spec_sig24_unit(n / 2)
    }
}

/// `n` rounded to a multiple of its 24-bit unit, to nearest, ties to an even
/// multiple: the significand rounding of an `f32`.
pub open spec fn spec_round24(n: nat) -> nat {
    let p = spec_sig24_unit(n);
    let q = n / p;
    let rem = n % p;
    if p > 1 && (rem > p / 2 || (rem == p / 2 && q % 2 == 1)) {
        (q + 1) * p
    } else {
        q * p
    }
}

/// The byte `(f * 255.0) as u8` gives for the `f32` `f` whose bits are `bits`.
pub open spec fn spec_channel_to_u8(bits: u32) -> u8 {
    let sign = bits / 0x8000_0000;
    let exp = (bits / 0x80_0000) % 0x100;
    let man = bits % 0x80_0000;
    if exp == 0xff {
        // Infinity saturates; NaN gives zero.
        if man == 0 && sign == 0 {
            255
        } else {
            0
        }
    } else if sign == 1 {
        0
    } else if exp >= 127 {
        // At least 1.0: the product is at least 255.
        255
    } else if exp == 0 {
        // Zero or subnormal: the product is below 1.
        0
    } else {
        // (man + 2^23) * 2^(exp - 150), times 255, rounded, truncated.
        let v = spec_round24(255 * (man + 0x80_0000) as nat) / pow2((150 - exp) as nat);
        if v > 255 {
            255
        } else {
            v as u8
        }
    }
}

fn round24(n: u64) -> (r: u64)
    requires
        n < 0x1_0000_0000,
    ensures
        r == spec_round24(n as nat),
        r <= 2 * n,
{
    let mut m: u64 = n;
    let mut p: u64 = 1;
    while m >= 0x100_0000
        invariant
            p >= 1,
            m == n / p,
            p * m <= n,
            n < 0x1_0000_0000,
            spec_sig24_unit(n as nat) == p * spec_sig24_unit(m as nat),
            p > 1 ==> m >= 0x80_0000,
        decreases m,
    {
        assert(p < 256) by (nonlinear_arith)
            requires
                p * m <= n,
                m >= 0x100_0000,
                n < 0x1_0000_0000,
                p >= 1,
        ;
        let ghost old_m = m;
        let ghost old_p = p;
        m = m / 2;
        p = p * 2;
        proof {
            vstd::arithmetic::div_mod::lemma_div_denominator(n as int, old_p as int, 2);
            assert(spec_sig24_unit(old_m as nat) == 2 * spec_sig24_unit(m as nat));
            assert(spec_sig24_unit(n as nat) == p * spec_sig24_unit(m as nat)) by (nonlinear_arith)
                requires
                    spec_sig24_unit(n as nat) == old_p * spec_sig24_unit(old_m as nat),
                    spec_sig24_unit(old_m as nat) == 2 * spec_sig24_unit(m as nat),
                    p == old_p * 2,
            ;
            assert(p * m <= n) by (nonlinear_arith)
                requires
                    m == n / p,
                    p >= 1,
            ;
        }
    }
    assert(spec_sig24_unit(m as nat) == 1);
    assert(spec_sig24_unit(n as nat) == p) by (nonlinear_arith)
        requires
            spec_sig24_unit(n as nat) == p * spec_sig24_unit(m as nat),
            spec_sig24_unit(m as nat) == 1,
    ;
    let q = m;
    let rem = n % p;
    let half = p / 2;
    proof {
        vstd::arithmetic::div_mod::lemma_fundamental_div_mod(n as int, p as int);
    }
    if p > 1 && (rem > half || (rem == half && q % 2 == 1)) {
        assert((q + 1) * p <= 2 * n) by (nonlinear_arith)
            requires
                p * q + rem == n,
                p > 1,
                q >= 0x80_0000,
                rem >= 0,
        ;
        (q + 1) * p
    } else {
        assert(q * p <= n) by (nonlinear_arith)
            requires
                p * q + rem == n,
                rem >= 0,
        ;
        q * p
    }
}

/// `(f * 255.0) as u8` for the `f32` `f` with bits `bits`.
pub fn channel_to_u8(bits: u32) -> (r: u8)
    ensures
        r == spec_channel_to_u8(bits),
{
    let sign = bits / 0x8000_0000;
    let exp = (bits / 0x80_0000) % 0x100;
    let man = bits % 0x80_0000;
    if exp == 0xff {
        return if man == 0 && sign == 0 {
            255
        } else {
            0
        };
    }
    if sign == 1 {
        return 0;
    }
    if exp >= 127 {
        return 255;
    }
    if exp == 0 {
        return 0;
    }
    let m: u64 = man as u64 + 0x80_0000;
    let n: u64 = 255 * m;
    let r = round24(n);
    let sh: u64 = 150 - exp as u64;
    let v: u64 = if sh >= 40 {
        proof {
            lemma2_to64();
            lemma_pow2_adds(32, 8);
            lemma_pow2_pos(sh as nat);
            if sh > 40 {
                lemma_pow2_strictly_increases(40, sh as nat);
            }
            assert(r < pow2(40));
            assert((r as nat) / pow2(sh as nat) == 0) by (nonlinear_arith)
                requires
                    r < pow2(40),
                    pow2(40) <= pow2(sh as nat),
            ;
        }
        0
    } else {
        proof {
            vstd::bits::lemma_u64_shr_is_div(r, sh);
        }
        r >> sh
    };
    if v > 255 {
        255
    } else {
        v as u8
    }
}

/// A color's four `f32` channels, as bits, to bytes.
pub fn color_to_rgba8(bits: [u32; 4]) -> (r: [u8; 4])
    ensures
        forall|i: int| 0 <= i < 4 ==> r[i] == spec_channel_to_u8(#[trigger] bits[i]),
{
    [channel_to_u8(bits[0]), channel_to_u8(bits[1]), channel_to_u8(bits[2]), channel_to_u8(bits[3])]
}

/// Whole channels convert exactly: `1.0` gives 255 and `0.0` gives 0.
pub proof fn law_unit_channels()
    ensures
        spec_channel_to_u8(0x3F80_0000) == 255,
        spec_channel_to_u8(0) == 0,
{
}

} // verus!
