//! A hybrid bracketing root finder: bisection accelerated by inverse cubic
//! Hermite interpolation, with false position as the fallback and a forced
//! bisection every fifth iteration or after a stall.
//!
//! The solver is generic in the scalar type and never does arithmetic on
//! scalars itself. Everything numeric (evaluating the function, forming a
//! candidate, comparing against the tolerance) is asked of a [`Numerics`]
//! implementation; every decision (which step to take, which half of the
//! bracket to keep, when to stop, when to force a bisection) is made here.
//!
//! - [`sign`] and [`bracket`]: signs of function values, brackets, and the
//!   rule by which a candidate replaces an endpoint.
//! - [`solver`]: the state machine, as a model and as executable state.
//! - [`driver`]: the loop over a `Numerics` implementation, with what it
//!   guarantees of a whole solve.
//! - [`exact`]: the candidate formulas over the real numbers.
//! - [`convergence`]: the bound on the width of the bracket.

pub mod bracket;
pub mod convergence;
pub mod driver;
pub mod exact;
pub mod sign;
pub mod solver;

pub use bracket::{Bracket, Endpoint, Evaluation, Sample, SolveError};
pub use driver::{inv_cubic_solve, Numerics};
pub use sign::Sign;
pub use solver::{CoordinateChangeFlag, Measure, Poll, Solver, SolverState, Step, BISECTION_FREQ};
