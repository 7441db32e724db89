//! The total order on decomposed doubles.
//!
//! Negative values come first; among non-negatives a larger exponent, and
//! on a tie a larger mantissa, means a greater value; among negatives both
//! comparisons are reversed, since a larger magnitude means a smaller
//! value. The order is deliberately strict about signed zero: the
//! decomposition of -0.0 is ordered strictly below that of +0.0, where
//! IEEE comparison would call them equal. That keeps the order total and
//! antisymmetric over distinct representations.

use vstd::prelude::*;

use crate::Float;
use core::cmp::Ordering;

verus! {

/// The order `Float::cmp` computes: sign first, then exponent and
/// mantissa, both reversed when the shared sign is negative.
pub open spec fn cmp_spec(a: Float, b: Float) -> Ordering {
    if a.sign != b.sign {
        if b.sign {
            Ordering::Less
        } else {
            Ordering::Greater
        }
    } else if a.sign {
        if a.exponent != b.exponent {
            if a.exponent < b.exponent {
                Ordering::Less
            } else {
                Ordering::Greater
            }
        } else if a.mantissa != b.mantissa {
            if a.mantissa < b.mantissa {
                Ordering::Less
            } else {
                Ordering::Greater
            }
        } else {
            Ordering::Equal
        }
    } else {
        if a.exponent != b.exponent {
            if a.exponent > b.exponent {
                Ordering::Less
            } else {
                Ordering::Greater
            }
        } else if a.mantissa != b.mantissa {
            if a.mantissa > b.mantissa {
                Ordering::Less
            } else {
                Ordering::Greater
            }
        } else {
            Ordering::Equal
        }
    }
}

impl Float {
    /// Compares two decomposed values in the total order: negatives below
    /// non-negatives, then by exponent and mantissa, reversed among
    /// negatives. See `value::lemma_cmp_matches_scaled_value` for the
    /// proof that this agrees with real-number order.
    pub fn cmp(&self, other: &Self) -> (r: Ordering)
        ensures
            r == cmp_spec(*self, *other),
    {
        if self.sign != other.sign {
            if other.sign {
                Ordering::Less
            } else {
                Ordering::Greater
            }
        } else if self.sign {
            if self.exponent != other.exponent {
                if self.exponent < other.exponent {
                    Ordering::Less
                } else {
                    Ordering::Greater
                }
            } else if self.mantissa != other.mantissa {
                if self.mantissa < other.mantissa {
                    Ordering::Less
                } else {
                    Ordering::Greater
                }
            } else {
                Ordering::Equal
            }
        } else {
            if self.exponent != other.exponent {
                if self.exponent > other.exponent {
                    Ordering::Less
                } else {
                    Ordering::Greater
                }
            } else if self.mantissa != other.mantissa {
                if self.mantissa > other.mantissa {
                    Ordering::Less
                } else {
                    Ordering::Greater
                }
            } else {
                Ordering::Equal
            }
        }
    }
}

impl PartialOrd for Float {
    fn partial_cmp(&self, other: &Self) -> (r: Option<Ordering>) {
        Some(self.cmp(other))
    }
}

impl vstd::std_specs::cmp::PartialOrdSpecImpl for Float {
    open spec fn obeys_partial_cmp_spec() -> bool {
        true
    }

    open spec fn partial_cmp_spec(&self, other: &Self) -> Option<Ordering> {
        Some(cmp_spec(*self, *other))
    }
}

/// The order calls two values equal exactly when they are the same
/// triple. In particular the decompositions of -0.0 and +0.0, which
/// differ in sign, are not equal in this order.
pub proof fn lemma_cmp_equal_iff(a: Float, b: Float)
    ensures
        cmp_spec(a, b) == Ordering::Equal <==> a == b,
{
}

/// Antisymmetry: swapping the operands reverses the verdict, so for any
/// pair exactly one of `a < b`, `a == b`, `a > b` holds.
pub proof fn lemma_cmp_antisymmetric(a: Float, b: Float)
    ensures
        cmp_spec(a, b) == Ordering::Less <==> cmp_spec(b, a) == Ordering::Greater,
        cmp_spec(a, b) == Ordering::Equal <==> cmp_spec(b, a) == Ordering::Equal,
{
}

/// Transitivity of the strict order.
pub proof fn lemma_cmp_transitive(a: Float, b: Float, c: Float)
    requires
        cmp_spec(a, b) == Ordering::Less,
        cmp_spec(b, c) == Ordering::Less,
    ensures
        cmp_spec(a, c) == Ordering::Less,
{
}

} // verus!
