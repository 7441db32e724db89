//! Exact decomposition of 64-bit floating-point values.
//!
//! A finite double is split into its sign, its raw (unbiased) exponent
//! field, and its mantissa with the implicit leading bit made explicit.
//! The triple is a bijection with the original bit pattern, so the
//! decomposition round-trips losslessly, and it carries a total order
//! that agrees with real-number order (see `order` and `value`).
//!
//! The caller reinterprets a double's storage as a `u64` (`f64::to_bits`)
//! before handing it to this crate, and back (`f64::from_bits`) on the
//! way out; everything in between is plain integer logic.

use vstd::prelude::*;

pub mod order;
pub mod value;

verus! {

/// The stored 52-bit fraction of a double's bit pattern.
pub open spec fn frac_field(bits: u64) -> u64 {
    bits & 0xfffffffffffff
}

/// The raw 11-bit exponent field of a double's bit pattern, unbiased.
pub open spec fn exp_field(bits: u64) -> u64 {
    (bits >> 52) & 0x7ff
}

/// True when the sign bit (bit 63) is clear, i.e. the value is non-negative.
pub open spec fn sign_field(bits: u64) -> bool {
    bits >> 63 == 0
}

/// A bit pattern stands for a finite value exactly when its exponent
/// field is not all ones (all ones encodes NaN and the two infinities).
pub open spec fn is_finite_bits(bits: u64) -> bool {
    exp_field(bits) != 0x7ff
}

/// A double decomposed into sign, raw exponent field, and mantissa.
///
/// For a normal value the mantissa holds the 52 stored fraction bits with
/// the implicit leading one restored at bit 52, so it lies in
/// [2^52, 2^53). For a subnormal value (exponent field 0, which includes
/// the two zeros) it holds the fraction shifted left by one, with no
/// leading bit. The exponent is the raw field, 0 to 2046 for finite
/// values; 0 signals a subnormal. `sign` is true for non-negative values.
#[derive(Debug, Clone, Copy, PartialEq, Eq, Structural)]
pub struct Float {
    /// Significant bits, with (normal) or without (subnormal) the leading one.
    pub mantissa: u64,
    /// Raw unbiased exponent field; 0 signals a subnormal value.
    pub exponent: i16,
    /// True for non-negative values, false for negative ones.
    pub sign: bool,
}

/// The decomposition of a bit pattern, as `from_bits` performs it.
pub open spec fn decompose(bits: u64) -> Float {
    Float {
        mantissa: if exp_field(bits) == 0 {
            frac_field(bits) << 1
        } else {
            frac_field(bits) | 0x10000000000000
        },
        exponent: exp_field(bits) as i16,
        sign: sign_field(bits),
    }
}

/// The bit pattern a decomposed value reassembles to, as `to_bits`
/// performs it. An exponent at or below zero is treated as subnormal,
/// mirroring `decompose` exactly at the smallest-normal boundary.
pub open spec fn recompose(f: Float) -> u64 {
    (if f.sign {
        0u64
    } else {
        0x8000000000000000u64
    }) | (if f.exponent <= 0 {
        (f.mantissa >> 1) & 0xfffffffffffff
    } else {
        ((f.exponent as u64) << 52) | (f.mantissa & 0xfffffffffffff)
    })
}

impl Float {
    /// The shape every decomposition of a finite bit pattern has: the
    /// exponent field of a finite double, and a mantissa in the range the
    /// exponent dictates (an even value below 2^53 for subnormals, a
    /// value with bit 52 set for normals).
    pub open spec fn wf(self) -> bool {
        &&& 0 <= self.exponent <= 2046
        &&& if self.exponent == 0 {
            self.mantissa < 0x20000000000000 && self.mantissa % 2 == 0
        } else {
            0x10000000000000 <= self.mantissa < 0x20000000000000
        }
    }

    /// Packs the three components, unchecked.
    pub fn new(mantissa: u64, exponent: i16, sign: bool) -> (r: Self)
        ensures
            r == (Float { mantissa, exponent, sign }),
    {
        Self { mantissa, exponent, sign }
    }

    /// Decomposes the bit pattern of a double. Yields nothing exactly when
    /// the pattern encodes NaN or an infinity; on every finite pattern it
    /// yields the well-formed decomposition, which reassembles to the very
    /// same bits.
    pub fn from_bits(bits: u64) -> (r: Option<Self>)
        ensures
            r is Some <==> is_finite_bits(bits),
            r matches Some(f) ==> f == decompose(bits) && f.wf() && recompose(f) == bits,
    {
        let exponent_field: u64 = (bits >> 52) & 0x7ff;
        if exponent_field == 0x7ff {
            return None;
        }
        let sign: bool = bits >> 63 == 0;
        let exponent: i16 = exponent_field as i16;
        let mantissa: u64 = if exponent == 0 {
            (bits & 0xfffffffffffff) << 1
        } else {
            (bits & 0xfffffffffffff) | 0x10000000000000
        };
        proof {
            assert((bits >> 52) & 0x7ff < 0x800) by (bit_vector);
            assert(((bits >> 52) & 0x7ff) as i16 == 0 <==> (bits >> 52) & 0x7ff == 0);
            assert((bits & 0xfffffffffffff) << 1 < 0x20000000000000 && ((bits
                & 0xfffffffffffff) << 1) % 2 == 0) by (bit_vector);
            assert(0x10000000000000 <= ((bits & 0xfffffffffffff) | 0x10000000000000)
                < 0x20000000000000) by (bit_vector);
            lemma_round_trip(bits);
        }
        Some(Self { mantissa, exponent, sign })
    }

    /// Reassembles the bit pattern of the double this decomposition stands
    /// for. Total: on a well-formed value it is the exact inverse of
    /// `from_bits`, and the result is a finite pattern.
    pub fn to_bits(&self) -> (r: u64)
        ensures
            r == recompose(*self),
            self.wf() ==> is_finite_bits(r) && decompose(r) == *self,
    {
        let sign_bit: u64 = if !self.sign {
            1u64 << 63
        } else {
            0
        };
        let (mantissa_bits, exp_bits): (u64, u64) = if self.exponent <= 0 {
            ((self.mantissa >> 1) & 0xfffffffffffff, 0u64)
        } else {
            (self.mantissa & 0xfffffffffffff, (self.exponent as u64) << 52)
        };
        proof {
            assert(1u64 << 63 == 0x8000000000000000) by (bit_vector);
            assert(sign_bit | exp_bits | mantissa_bits == sign_bit | (exp_bits | mantissa_bits))
                by (bit_vector);
            assert(sign_bit | (0u64 | mantissa_bits) == sign_bit | mantissa_bits) by (bit_vector);
            if self.wf() {
                lemma_recompose_inverts(*self);
            }
        }
        sign_bit | exp_bits | mantissa_bits
    }
}

/// Decomposing a finite bit pattern and reassembling it gives the original
/// pattern back, bit for bit — including the zeros, the subnormals, and
/// the largest finite magnitudes.
pub proof fn lemma_round_trip(bits: u64)
    requires
        is_finite_bits(bits),
    ensures
        recompose(decompose(bits)) == bits,
{
    assert(((bits >> 52) & 0x7ff) as i16 as u64 == (bits >> 52) & 0x7ff) by (bit_vector);
    assert(((bits >> 52) & 0x7ff) as i16 >= 0) by (bit_vector);
    if exp_field(bits) == 0 {
        assert((bits >> 52) & 0x7ff == 0 ==> ((if bits >> 63 == 0 {
            0u64
        } else {
            0x8000000000000000u64
        }) | ((((bits & 0xfffffffffffff) << 1) >> 1) & 0xfffffffffffff)) == bits) by (bit_vector);
    } else {
        assert((bits >> 52) & 0x7ff != 0 && (bits >> 52) & 0x7ff != 0x7ff ==> ((if bits >> 63 == 0 {
            0u64
        } else {
            0x8000000000000000u64
        }) | ((((bits >> 52) & 0x7ff) << 52) | (((bits & 0xfffffffffffff) | 0x10000000000000)
            & 0xfffffffffffff))) == bits) by (bit_vector);
    }
}

/// Reassembling a well-formed decomposition gives a finite pattern whose
/// decomposition is the value itself: with `lemma_round_trip`, the triple
/// is a bijection with the finite bit patterns.
pub proof fn lemma_recompose_inverts(f: Float)
    requires
        f.wf(),
    ensures
        is_finite_bits(recompose(f)),
        decompose(recompose(f)) == f,
{
    let m = f.mantissa;
    let e = f.exponent;
    if f.exponent == 0 {
        if f.sign {
            assert(m < 0x20000000000000 && m % 2 == 0 ==> {
                let b = 0u64 | ((m >> 1) & 0xfffffffffffff);
                (b >> 52) & 0x7ff == 0 && (b & 0xfffffffffffff) << 1 == m && b >> 63 == 0
            }) by (bit_vector);
        } else {
            assert(m < 0x20000000000000 && m % 2 == 0 ==> {
                let b = 0x8000000000000000u64 | ((m >> 1) & 0xfffffffffffff);
                (b >> 52) & 0x7ff == 0 && (b & 0xfffffffffffff) << 1 == m && b >> 63 != 0
            }) by (bit_vector);
        }
    } else {
        if f.sign {
            assert(0x10000000000000 <= m < 0x20000000000000 && 0 < e <= 2046 ==> {
                let b = 0u64 | (((e as u64) << 52) | (m & 0xfffffffffffff));
                &&& (b >> 52) & 0x7ff == e as u64
                &&& (b >> 52) & 0x7ff != 0
                &&& (b >> 52) & 0x7ff != 0x7ff
                &&& ((b >> 52) & 0x7ff) as i16 == e
                &&& ((b & 0xfffffffffffff) | 0x10000000000000) == m
                &&& b >> 63 == 0
            }) by (bit_vector);
        } else {
            assert(0x10000000000000 <= m < 0x20000000000000 && 0 < e <= 2046 ==> {
                let b = 0x8000000000000000u64 | (((e as u64) << 52) | (m & 0xfffffffffffff));
                &&& (b >> 52) & 0x7ff == e as u64
                &&& (b >> 52) & 0x7ff != 0
                &&& (b >> 52) & 0x7ff != 0x7ff
                &&& ((b >> 52) & 0x7ff) as i16 == e
                &&& ((b & 0xfffffffffffff) | 0x10000000000000) == m
                &&& b >> 63 != 0
            }) by (bit_vector);
        }
    }
}

} // verus!
