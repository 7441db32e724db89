//! The real number a decomposition stands for, and the proof that the
//! order of `order::cmp_spec` is the real-number order.
//!
//! A finite double with raw exponent field `e` and decomposed mantissa `m`
//! has the real value ± m * 2^(e - 1075): for a normal value the mantissa
//! carries the implicit bit and the bias of 1023 plus the 52 fraction
//! places give 1075, and for a subnormal one the extra left shift of the
//! mantissa makes the same scale come out. Multiplying every value by the
//! common factor 2^1075 turns the reals in question into integers, which
//! `scaled_value` gives exactly; comparing scaled values is comparing the
//! doubles as real numbers.

use vstd::prelude::*;

use crate::Float;
use crate::order::cmp_spec;
use core::cmp::Ordering;
use vstd::arithmetic::mul::{lemma_mul_inequality, lemma_mul_strict_inequality};
use vstd::arithmetic::power2::{
    lemma2_to64,
    lemma2_to64_rest,
    lemma_pow2_adds,
    lemma_pow2_pos,
    lemma_pow2_strictly_increases,
    pow2,
};

verus! {

/// The magnitude of the value, scaled by 2^1075: mantissa times two to
/// the raw exponent field.
pub open spec fn magnitude(f: Float) -> int
    recommends
        f.exponent >= 0,
{
    f.mantissa * pow2(f.exponent as nat)
}

/// The real number the decomposition stands for, scaled by 2^1075.
pub open spec fn scaled_value(f: Float) -> int
    recommends
        f.exponent >= 0,
{
    if f.sign {
        magnitude(f)
    } else {
        -magnitude(f)
    }
}

/// On well-formed values the magnitude orders exactly as the pair
/// (exponent, mantissa) does lexicographically, and determines it: the
/// mantissa ranges are narrow enough that no two distinct pairs share a
/// magnitude.
pub proof fn lemma_magnitude_orders(a: Float, b: Float)
    requires
        a.wf(),
        b.wf(),
    ensures
        magnitude(a) < magnitude(b) <==> (a.exponent < b.exponent || (a.exponent == b.exponent
            && a.mantissa < b.mantissa)),
        magnitude(a) == magnitude(b) <==> (a.exponent == b.exponent && a.mantissa == b.mantissa),
{
    if a.exponent < b.exponent {
        lemma_magnitude_grows(a, b);
    } else if b.exponent < a.exponent {
        lemma_magnitude_grows(b, a);
    } else {
        let e = a.exponent as nat;
        lemma_pow2_pos(e);
        if a.mantissa < b.mantissa {
            lemma_mul_strict_inequality(a.mantissa as int, b.mantissa as int, pow2(e) as int);
        } else if b.mantissa < a.mantissa {
            lemma_mul_strict_inequality(b.mantissa as int, a.mantissa as int, pow2(e) as int);
        }
    }
}

/// A strictly larger exponent means a strictly larger magnitude, whatever
/// the mantissas: the largest mantissa at one exponent stays below the
/// smallest normal mantissa one binade up.
proof fn lemma_magnitude_grows(a: Float, b: Float)
    requires
        a.wf(),
        b.wf(),
        a.exponent < b.exponent,
    ensures
        magnitude(a) < magnitude(b),
{
    let ea = a.exponent as nat;
    let eb = b.exponent as nat;
    lemma2_to64();
    lemma2_to64_rest();
    lemma_pow2_pos(ea);
    lemma_pow2_pos(eb);
    // magnitude(a) < 2^53 * 2^ea == 2^(ea + 53)
    lemma_mul_strict_inequality(a.mantissa as int, pow2(53) as int, pow2(ea) as int);
    lemma_pow2_adds(53, ea);
    // 2^(ea + 53) <= 2^(eb + 52), since ea < eb
    if ea + 53 < eb + 52 {
        lemma_pow2_strictly_increases(ea + 53, eb + 52);
    }
    // 2^(eb + 52) == 2^52 * 2^eb <= magnitude(b), since b is normal
    lemma_pow2_adds(52, eb);
    lemma_mul_inequality(pow2(52) as int, b.mantissa as int, pow2(eb) as int);
}

/// A magnitude is zero only for a zero: a well-formed value with a zero
/// magnitude has mantissa zero, hence exponent zero.
proof fn lemma_magnitude_zero(f: Float)
    requires
        f.wf(),
        magnitude(f) == 0,
    ensures
        f.mantissa == 0,
        f.exponent == 0,
{
    lemma_pow2_pos(f.exponent as nat);
    if f.mantissa > 0 {
        lemma_mul_inequality(1, f.mantissa as int, pow2(f.exponent as nat) as int);
    }
}

/// The order agrees with real-number order on all well-formed pairs,
/// with one documented exception: the two zeros have the same scaled
/// value but different signs, and the order places the negative zero
/// strictly below the positive one, where IEEE comparison would call
/// them equal.
pub proof fn lemma_cmp_matches_scaled_value(a: Float, b: Float)
    requires
        a.wf(),
        b.wf(),
    ensures
        scaled_value(a) < scaled_value(b) ==> cmp_spec(a, b) == Ordering::Less,
        scaled_value(a) > scaled_value(b) ==> cmp_spec(a, b) == Ordering::Greater,
        scaled_value(a) == scaled_value(b) && a.sign == b.sign ==> a == b && cmp_spec(a, b)
            == Ordering::Equal,
        scaled_value(a) == scaled_value(b) && a.sign != b.sign ==> a.mantissa == 0 && b.mantissa
            == 0 && cmp_spec(a, b) == (if b.sign {
            Ordering::Less
        } else {
            Ordering::Greater
        }),
{
    lemma_magnitude_orders(a, b);
    lemma_pow2_pos(a.exponent as nat);
    lemma_pow2_pos(b.exponent as nat);
    if a.mantissa > 0 {
        lemma_mul_inequality(1, a.mantissa as int, pow2(a.exponent as nat) as int);
    }
    if b.mantissa > 0 {
        lemma_mul_inequality(1, b.mantissa as int, pow2(b.exponent as nat) as int);
    }
    if scaled_value(a) == scaled_value(b) && a.sign != b.sign {
        lemma_magnitude_zero(a);
        lemma_magnitude_zero(b);
    }
}

} // verus!
