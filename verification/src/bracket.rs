//! Brackets: two abscissae with what is known of the function at each, and
//! the rule by which a candidate point replaces one of them.

use crate::sign::Sign;
use vstd::prelude::*;

verus! {

/// What evaluating the function and its derivative at one point gives.
#[derive(Clone, Copy, Debug, PartialEq)]
pub struct Evaluation<T> {
    /// The function value.
    pub f: T,
    /// The derivative value.
    pub df: T,
    /// The sign of the function value.
    pub sign: Sign,
}

/// A point together with the function's value, derivative and sign there.
#[derive(Clone, Copy, Debug, PartialEq)]
pub struct Sample<T> {
    /// The point.
    pub x: T,
    /// The function value at the point.
    pub f: T,
    /// The derivative value at the point.
    pub df: T,
    /// The sign of the function value at the point.
    pub sign: Sign,
}

/// One of the two endpoints of a bracket.
#[derive(Clone, Copy, Debug, PartialEq, Eq, Structural)]
pub enum Endpoint {
    /// The first endpoint of the bracket.
    First,
    /// The second endpoint of the bracket.
    Second,
}

/// Why a solve stopped without a root.
#[derive(Clone, Copy, Debug, PartialEq, Eq, Structural)]
pub enum SolveError {
    /// A candidate had the same strict sign as both endpoints, so neither
    /// half of the bracket shows a sign change.
    SignInvariantViolated,
    /// The iteration cap was reached before either stopping test passed.
    IterationLimit,
}

/// An interval given by its two endpoints, each with its cached evaluation.
#[derive(Clone, Copy, Debug, PartialEq)]
pub struct Bracket<T> {
    /// The first endpoint, by convention the lower one.
    pub first: Sample<T>,
    /// The second endpoint.
    pub second: Sample<T>,
}

impl<T> Sample<T> {
    /// The sample at `x` whose cached values are those of `e`.
    pub open spec fn taken_at(x: T, e: Evaluation<T>) -> Sample<T> {
        Sample { x, f: e.f, df: e.df, sign: e.sign }
    }
}

impl<T: Copy> Sample<T> {
    /// The sample at `x` whose cached values are those of `e`.
    pub fn at(x: T, e: Evaluation<T>) -> (s: Sample<T>)
        ensures
            s == Sample::taken_at(x, e),
    {
        Sample { x, f: e.f, df: e.df, sign: e.sign }
    }
}

impl<T> Bracket<T> {
    /// The sign-change condition: the function values at the two endpoints
    /// have a product that is at most zero.
    pub open spec fn brackets_root(self) -> bool {
        self.first.sign.product_nonpositive(self.second.sign)
    }

    /// The bracket in which `candidate` has taken the place of the given
    /// endpoint; the other endpoint keeps its cached evaluation.
    pub open spec fn replaced(self, which: Endpoint, candidate: Sample<T>) -> Bracket<T> {
        match which {
            Endpoint::First => Bracket { first: candidate, second: self.second },
            Endpoint::Second => Bracket { first: self.first, second: candidate },
        }
    }

    /// Which endpoint `candidate` replaces. If the candidate and the first
    /// endpoint show a sign change, the first half is kept and the candidate
    /// becomes the second endpoint; else, if the candidate and the second
    /// endpoint show one, the candidate becomes the first endpoint; else
    /// neither half brackets a root.
    pub open spec fn displaced(self, candidate: Sample<T>) -> Option<Endpoint> {
        if candidate.sign.product_nonpositive(self.first.sign) {
            Some(Endpoint::Second)
        } else if candidate.sign.product_nonpositive(self.second.sign) {
            Some(Endpoint::First)
        } else {
            None
        }
    }

    /// The outcome of narrowing this bracket with `candidate`.
    pub open spec fn refined(self, candidate: Sample<T>) -> Result<(Bracket<T>, Endpoint), SolveError> {
        match self.displaced(candidate) {
            Some(which) => Ok((self.replaced(which, candidate), which)),
            None => Err(SolveError::SignInvariantViolated),
        }
    }

}

impl<T: Copy> Bracket<T> {
    /// Narrows the bracket with a candidate point: returns the half that
    /// still shows a sign change, and the endpoint that the candidate
    /// replaced, or `SignInvariantViolated` if neither half shows one.
    pub fn refine(&self, candidate: Sample<T>) -> (r: Result<(Bracket<T>, Endpoint), SolveError>)
        ensures
            r == self.refined(candidate),
    {
        if candidate.sign.opposes(self.first.sign) {
            Ok((Bracket { first: self.first, second: candidate }, Endpoint::Second))
        } else if candidate.sign.opposes(self.second.sign) {
            Ok((Bracket { first: candidate, second: self.second }, Endpoint::First))
        } else {
            Err(SolveError::SignInvariantViolated)
        }
    }
}

} // verus!
