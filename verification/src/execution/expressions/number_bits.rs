//! Comparing and truncating IEEE 754 doubles by their bits.
//!
//! A double other than NaN is ordered by its sign and by the lower 63 bits
//! of its representation, read as an integer.

use vstd::arithmetic::power2::pow2;
use vstd::prelude::*;

verus! {

/// The bits of negative zero: the sign bit alone.
pub const SIGN: u64 = 0x8000_0000_0000_0000;

/// The lower 63 bits of infinity.
pub const INFINITE: u64 = 0x7FF0_0000_0000_0000;

/// One step of the exponent.
pub const HIDDEN_BIT: u64 = 0x10_0000_0000_0000;

/// The representation without its sign bit.
pub open spec fn magnitude(bits: u64) -> int {
    if bits >= SIGN {
        bits - SIGN
    } else {
        bits as int
    }
}

/// Whether the bits stand for no number.
pub open spec fn is_nan(bits: u64) -> bool {
    magnitude(bits) > INFINITE
}

/// Whether the bits stand for a finite number.
pub open spec fn is_finite(bits: u64) -> bool {
    magnitude(bits) < INFINITE
}

/// An integer that orders the numbers: equal for both zeros, and smaller
/// for a smaller number.
pub open spec fn rank(bits: u64) -> int {
    if bits >= SIGN {
        -magnitude(bits)
    } else {
        magnitude(bits)
    }
}

/// The integer part of a finite number's magnitude.
pub open spec fn integer_part(bits: u64) -> nat {
    let exponent = magnitude(bits) / HIDDEN_BIT as int;
    let significand = HIDDEN_BIT + magnitude(bits) % HIDDEN_BIT as int;
    if exponent == 0 {
        0
    } else if exponent >= 1075 {
        (significand * pow2((exponent - 1075) as nat)) as nat
    } else {
        (significand / pow2((1075 - exponent) as nat) as int) as nat
    }
}

/// The position that a number names in a list: none for a negative or
/// non-finite number. A number too large for a position names the first.
pub open spec fn position(bits: u64) -> Option<nat> {
    if !is_finite(bits) || rank(bits) < 0 {
        None
    } else if integer_part(bits) > usize::MAX {
        Some(0)
    } else {
        Some(integer_part(bits))
    }
}

fn magnitude_of(bits: u64) -> (r: u64)
    ensures
        r == magnitude(bits),
{
    if bits >= SIGN {
        bits - SIGN
    } else {
        bits
    }
}

/// Whether the bits stand for no number.
pub fn nan(bits: u64) -> (r: bool)
    ensures
        r == is_nan(bits),
{
    magnitude_of(bits) > INFINITE
}

/// Whether the first number is less than the second; neither is NaN.
pub fn less(a: u64, b: u64) -> (r: bool)
    ensures
        r == (rank(a) < rank(b)),
{
    let x: u64 = magnitude_of(a);
    let y: u64 = magnitude_of(b);
    if a >= SIGN {
        if b >= SIGN {
            y < x
        } else {
            x > 0 || y > 0
        }
    } else if b >= SIGN {
        false
    } else {
        x < y
    }
}

/// The position that a number names in a list.
pub fn to_position(bits: u64) -> (r: Option<usize>)
    ensures
        match r {
            Some(i) => position(bits) == Some(i as nat),
            None => position(bits) is None,
        },
{
    let m: u64 = magnitude_of(bits);
    if m >= INFINITE || (bits >= SIGN && m > 0) {
        return None;
    }
    let exponent: u64 = m / HIDDEN_BIT;
    let significand: u64 = HIDDEN_BIT + m % HIDDEN_BIT;
    proof {
        assert(exponent < 2048) by {
            vstd::arithmetic::div_mod::lemma_div_by_multiple_is_strongly_ordered(
                m as int,
                0x8000_0000_0000_0000,
                2048,
                HIDDEN_BIT as int,
            );
        }
    }
    if exponent == 0 {
        return Some(0);
    }
    if exponent < 1075 {
        let shift: u64 = 1075 - exponent;
        if shift >= 64 {
            proof {
                vstd::arithmetic::power2::lemma_pow2_strictly_increases(53, shift as nat);
                assert(pow2(53) == 0x20_0000_0000_0000) by {
                    vstd::arithmetic::power2::lemma2_to64();
                    vstd::arithmetic::power2::lemma2_to64_rest();
                }
                vstd::arithmetic::div_mod::lemma_basic_div(
                    significand as int,
                    pow2(shift as nat) as int,
                );
            }
            return Some(0);
        }
        let whole: u64 = significand >> shift;
        proof {
            vstd::bits::lemma_u64_shr_is_div(significand, shift);
        }
        if whole > usize::MAX as u64 {
            return Some(0);
        }
        return Some(whole as usize);
    }
    let shift: u64 = exponent - 1075;
    if shift > 11 {
        proof {
            assert(pow2(12) == 4096) by {
                vstd::arithmetic::power2::lemma2_to64();
            }
            if shift > 12 {
                vstd::arithmetic::power2::lemma_pow2_strictly_increases(12, shift as nat);
            }
            assert(significand * pow2(shift as nat) >= 0x10_0000_0000_0000 * 4096)
                by (nonlinear_arith)
                requires
                    significand >= 0x10_0000_0000_0000,
                    pow2(shift as nat) >= 4096,
            ;
        }
        return Some(0);
    }
    proof {
        assert(pow2(11) == 2048) by {
            vstd::arithmetic::power2::lemma2_to64();
        }
        if shift < 11 {
            vstd::arithmetic::power2::lemma_pow2_strictly_increases(shift as nat, 11);
        }
        assert(significand * pow2(shift as nat) <= 0x1F_FFFF_FFFF_FFFF * 2048)
            by (nonlinear_arith)
            requires
                significand <= 0x1F_FFFF_FFFF_FFFF,
                pow2(shift as nat) <= 2048,
        ;
        vstd::bits::lemma_u64_shl_is_mul(significand, shift);
    }
    let whole: u64 = significand << shift;
    if whole > usize::MAX as u64 {
        return Some(0);
    }
    Some(whole as usize)
}

/// The bits beyond those of infinity, under either sign, stand for no number;
/// those below them for a finite one.
pub proof fn law_beyond_infinity_is_nan(bits: u64)
    ensures
        is_nan(bits) <==> (0x7FF0_0000_0000_0000 < bits < 0x8000_0000_0000_0000 || bits
            > 0xFFF0_0000_0000_0000),
        is_finite(bits) <==> (bits < 0x7FF0_0000_0000_0000 || 0x8000_0000_0000_0000 <= bits
            < 0xFFF0_0000_0000_0000),
{
}

/// A number without its sign ranks by its bits, and the number of the other
/// sign ranks as far on the other side of zero; both zeros rank alike.
pub proof fn law_sign_mirrors_rank(bits: u64)
    requires
        bits < 0x8000_0000_0000_0000,
    ensures
        rank(bits) == bits,
        rank((bits + 0x8000_0000_0000_0000) as u64) == -rank(bits),
{
}

/// The integer part of `2^k * (1 + f / 2^52)` is the integer that is at most
/// the number and less than one below it; a number below one has none.
pub proof fn law_integer_part_is_floor(k: int, f: int, bits: u64)
    requires
        -1022 <= k <= 1023,
        0 <= f < 0x10_0000_0000_0000,
        bits == (1023 + k) * 0x10_0000_0000_0000 + f,
    ensures
        0 <= k <= 52 ==> integer_part(bits) * pow2((52 - k) as nat) <= 0x10_0000_0000_0000 + f < (
        integer_part(bits) + 1) * pow2((52 - k) as nat),
        k > 52 ==> integer_part(bits) == (0x10_0000_0000_0000 + f) * pow2((k - 52) as nat),
        k < 0 ==> integer_part(bits) == 0,
        is_finite(bits),
        rank(bits) > 0,
{
    let h: int = 0x10_0000_0000_0000;
    let e: int = 1023 + k;
    assert(1 <= e <= 2046);
    assert(magnitude(bits) == e * h + f) by {
        assert(e * h + f < 0x8000_0000_0000_0000) by (nonlinear_arith)
            requires
                e <= 2046,
                h == 0x10_0000_0000_0000,
                f < h,
        ;
    }
    vstd::arithmetic::div_mod::lemma_fundamental_div_mod_converse(e * h + f, h, e, f);
    let s: int = h + f;
    if k <= 52 {
        let d: int = pow2((52 - k) as nat) as int;
        vstd::arithmetic::power2::lemma_pow2_pos((52 - k) as nat);
        vstd::arithmetic::div_mod::lemma_fundamental_div_mod(s, d);
        vstd::arithmetic::div_mod::lemma_mod_bound(s, d);
        vstd::arithmetic::div_mod::lemma_div_pos_is_pos(s, d);
        let q = s / d;
        assert(q * d <= s < (q + 1) * d) by (nonlinear_arith)
            requires
                s == d * q + s % d,
                0 <= s % d < d,
        ;
        assert(pow2(0) == 1) by {
            vstd::arithmetic::power2::lemma2_to64();
        }
        assert(s * 1 == s && s < (s + 1) * 1);
        if k < 0 {
            vstd::arithmetic::power2::lemma_pow2_strictly_increases(52, (52 - k) as nat);
            vstd::arithmetic::power2::lemma_pow2_unfold(53);
            if k < -1 {
                vstd::arithmetic::power2::lemma_pow2_strictly_increases(53, (52 - k) as nat);
            }
            assert(pow2(53) == 0x20_0000_0000_0000) by {
                vstd::arithmetic::power2::lemma2_to64();
                vstd::arithmetic::power2::lemma2_to64_rest();
            }
            assert(d >= 0x20_0000_0000_0000);
            vstd::arithmetic::div_mod::lemma_basic_div(s, d);
        }
    }
    assert(e * h >= h) by (nonlinear_arith)
        requires
            e >= 1,
            h == 0x10_0000_0000_0000,
    ;
    assert(e * h + f < 0x7FF0_0000_0000_0000) by (nonlinear_arith)
        requires
            e <= 2046,
            h == 0x10_0000_0000_0000,
            f < h,
    ;
}

/// A negative number and one that is not finite name no position; both zeros
/// name the first. Any other number names the position of its integer part,
/// as far as positions go.
pub proof fn law_position_is_integer_part(bits: u64)
    ensures
        bits > 0x8000_0000_0000_0000 ==> position(bits) is None,
        0x7FF0_0000_0000_0000 <= bits < 0x8000_0000_0000_0000 ==> position(bits) is None,
        bits < 0x7FF0_0000_0000_0000 && integer_part(bits) <= usize::MAX ==> position(bits) == Some(
            integer_part(bits),
        ),
        bits < 0x7FF0_0000_0000_0000 && integer_part(bits) > usize::MAX ==> position(bits) == Some(
            0nat,
        ),
        bits == 0x8000_0000_0000_0000 || bits == 0 ==> position(bits) == Some(0nat),
{
    assert(0int / 0x10_0000_0000_0000 == 0);
}

} // verus!
