//! Signs of function values, the only thing the solver needs to know about
//! a function value in order to keep a root bracketed.

use vstd::prelude::*;

verus! {

/// The sign of a function value.
#[derive(Clone, Copy, Debug, PartialEq, Eq, Structural)]
pub enum Sign {
    /// Below zero.
    Negative,
    /// Exactly zero.
    Zero,
    /// Above zero.
    Positive,
}

impl Sign {
    /// The sign of a real number.
    pub open spec fn of(v: real) -> Sign {
        if v < 0real {
            Sign::Negative
        } else if v == 0real {
            Sign::Zero
        } else {
            Sign::Positive
        }
    }

    /// Whether the product of a value of this sign and a value of sign
    /// `other` is at most zero: one of them is zero, or they differ.
    pub open spec fn product_nonpositive(self, other: Sign) -> bool {
        self is Zero || other is Zero || self != other
    }

    /// Decides whether a value of this sign and a value of sign `other`
    /// have a product that is at most zero.
    pub fn opposes(self, other: Sign) -> (r: bool)
        ensures
            r == self.product_nonpositive(other),
    {
        match (self, other) {
            (Sign::Negative, Sign::Negative) => false,
            (Sign::Positive, Sign::Positive) => false,
            _ => true,
        }
    }
}

/// The sign test agrees with the product test on real numbers:
/// `a * b <= 0` exactly when the signs of `a` and `b` oppose.
pub proof fn product_test_is_sign_test(a: real, b: real)
    ensures
        Sign::of(a).product_nonpositive(Sign::of(b)) <==> a * b <= 0real,
{
    assert(a < 0real && b < 0real ==> a * b > 0real) by (nonlinear_arith);
    assert(a > 0real && b > 0real ==> a * b > 0real) by (nonlinear_arith);
    assert(a < 0real && b > 0real ==> a * b < 0real) by (nonlinear_arith);
    assert(a > 0real && b < 0real ==> a * b < 0real) by (nonlinear_arith);
    assert(a == 0real || b == 0real ==> a * b == 0real) by (nonlinear_arith);
}

} // verus!
