//! The driver: the loop that asks a [`Numerics`] implementation for every
//! number and every comparison, and lets the solver's state machine decide.
//!
//! The numerics are not specified here. What the driver guarantees is
//! stated relative to whatever an implementation promises of its own
//! methods: the run is one that the state machine allows, with every
//! measure, candidate and evaluation one that the numerics could return.

use crate::bracket::{Bracket, Endpoint, Evaluation, Sample, SolveError};
use crate::solver::{sign_change_is_invariant, Measure, Poll, Solver, SolverState, Step};
use vstd::prelude::*;

verus! {

/// The arithmetic that the solver leaves to its caller, for one function,
/// its derivative and one scalar type.
///
/// No method carries a contract: the driver runs with every
/// implementation, and what it guarantees relates its result to what the
/// implementation guarantees of these methods.
pub trait Numerics<T> {
    /// The function's value, its derivative and the value's sign at `x`.
    fn evaluate(&self, x: T) -> Evaluation<T>;

    /// The comparisons of the bracket's cached values against `tol` and
    /// against each other.
    fn measure(&self, bracket: &Bracket<T>, tol: T) -> Measure;

    /// The midpoint of the bracket.
    fn midpoint(&self, bracket: &Bracket<T>) -> T;

    /// The inverse cubic candidate: the cubic through the two endpoints of
    /// the inverse function, evaluated at zero.
    fn inverse_cubic(&self, bracket: &Bracket<T>) -> T;

    /// Whether `x` lies strictly between the bracket's endpoints.
    fn strictly_inside(&self, bracket: &Bracket<T>, x: T) -> bool;

    /// The false-position candidate: where the chord through the two
    /// endpoints crosses zero.
    fn false_position(&self, bracket: &Bracket<T>) -> T;

    /// Called once at the start of every iteration, before the stopping
    /// test, with the number of steps taken so far and the current bracket.
    fn observe(&self, steps: u64, bracket: &Bracket<T>);
}

/// Whether `measure` is one that the numerics may report of the bracket of
/// `state`.
pub open spec fn measures<T, N: Numerics<T>>(
    numerics: &N,
    tol: T,
    state: SolverState<T>,
    measure: Measure,
) -> bool {
    call_ensures(N::measure, (numerics, &state.bracket, tol), measure)
}

/// Whether the numerics may report a measure of `state` on which the
/// solver goes on to take a step.
pub open spec fn continues<T, N: Numerics<T>>(numerics: &N, tol: T, state: SolverState<T>) -> bool {
    exists|measure: Measure| #[trigger]
        measures(numerics, tol, state, measure) && state.polled(measure) is Step
}

/// Whether `x` is a point that the numerics may give for the step that
/// `state` takes next: the midpoint for a bisection; for an interpolation
/// the inverse cubic candidate where the numerics find it strictly inside
/// the bracket, and the false-position candidate where they do not.
pub open spec fn chooses<T, N: Numerics<T>>(numerics: &N, state: SolverState<T>, x: T) -> bool {
    if state.bisects() {
        call_ensures(N::midpoint, (numerics, &state.bracket), x)
    } else {
        exists|cubic: T| #[trigger]
            call_ensures(N::inverse_cubic, (numerics, &state.bracket), cubic) && {
                ||| x == cubic && call_ensures(
                    N::strictly_inside,
                    (numerics, &state.bracket, cubic),
                    true,
                )
                ||| falls_back(numerics, state, cubic, x)
            }
    }
}

/// Whether the numerics may find `cubic` not strictly inside the bracket of
/// `state` and give `x` as the false-position candidate.
pub open spec fn falls_back<T, N: Numerics<T>>(
    numerics: &N,
    state: SolverState<T>,
    cubic: T,
    x: T,
) -> bool {
    &&& call_ensures(N::strictly_inside, (numerics, &state.bracket, cubic), false)
    &&& call_ensures(N::false_position, (numerics, &state.bracket), x)
}

/// Whether `candidate` is a sample that the numerics may give for the step
/// that `state` takes next: a point that they choose, with an evaluation
/// that they may return there.
pub open spec fn proposes<T, N: Numerics<T>>(
    numerics: &N,
    state: SolverState<T>,
    candidate: Sample<T>,
) -> bool {
    &&& chooses(numerics, state, candidate.x)
    &&& exists|e: Evaluation<T>| #[trigger]
        call_ensures(N::evaluate, (numerics, candidate.x), e) && candidate == Sample::taken_at(
            candidate.x,
            e,
        )
}

/// Whether the steps with `candidates` are a run of the solver from
/// `start`: before each step the numerics report a measure on which the
/// solver goes on, the candidate is one that they propose, and the step
/// succeeds.
pub open spec fn follows<T, N: Numerics<T>>(
    numerics: &N,
    tol: T,
    start: SolverState<T>,
    candidates: Seq<Sample<T>>,
) -> bool
    decreases candidates.len(),
{
    candidates.len() == 0 || {
        let state = start.after(candidates.drop_last());
        &&& follows(numerics, tol, start, candidates.drop_last())
        &&& continues(numerics, tol, state)
        &&& proposes(numerics, state, candidates.last())
        &&& state.verdict(candidates.last()) is Ok
    }
}

/// Whether a run that has reached `end` may stop there with the result
/// `r`: with the best endpoint, on a measure that passes a stopping test;
/// with `IterationLimit`, on a measure that passes none when the step
/// limit is reached; with `SignInvariantViolated`, on a proposed candidate
/// with which the step fails.
pub open spec fn concludes<T, N: Numerics<T>>(
    numerics: &N,
    tol: T,
    end: SolverState<T>,
    r: Result<T, SolveError>,
) -> bool {
    match r {
        Ok(x) => exists|measure: Measure| #[trigger]
            measures(numerics, tol, end, measure) && end.polled(measure) == Poll::Converged(x),
        Err(SolveError::IterationLimit) => exists|measure: Measure| #[trigger]
            measures(numerics, tol, end, measure) && end.polled(measure) == Poll::<T>::Exhausted,
        Err(SolveError::SignInvariantViolated) => continues(numerics, tol, end) && exists|
            candidate: Sample<T>,
        | #[trigger]
            proposes(numerics, end, candidate) && end.verdict(candidate) == Err::<
                Endpoint,
                SolveError,
            >(SolveError::SignInvariantViolated),
    }
}

/// Whether a solve from `start` may end in `end` with the result `r`.
pub open spec fn solves<T, N: Numerics<T>>(
    numerics: &N,
    tol: T,
    start: SolverState<T>,
    end: SolverState<T>,
    r: Result<T, SolveError>,
) -> bool {
    &&& exists|candidates: Seq<Sample<T>>| #[trigger]
        follows(numerics, tol, start, candidates) && end == start.after(candidates)
    &&& concludes(numerics, tol, end, r)
}

/// The step limit that a cap stands for: the cap itself, or, without a
/// cap, as many steps as a `u64` can count.
pub open spec fn step_limit(max_steps: Option<u64>) -> nat {
    match max_steps {
        Some(limit) => limit as nat,
        None => u64::MAX as nat,
    }
}

impl<T: Copy> Solver<T> {
    /// Iterates until a stopping test passes, the step limit is reached or
    /// a step fails, and returns the best endpoint or the error.
    ///
    /// Each iteration observes, measures and polls; on `Poll::Step` it
    /// takes the midpoint for a bisection, and for an interpolation the
    /// inverse cubic candidate if that lies strictly inside the bracket and
    /// the false-position candidate otherwise; it evaluates the function at
    /// the candidate and advances with it.
    ///
    /// The final state and the result are those of a solve from the
    /// initial state.
    pub fn run<N: Numerics<T>>(&mut self, tol: T, numerics: &N) -> (r: Result<T, SolveError>)
        ensures
            solves(numerics, tol, old(self)@, final(self)@, r),
    {
        let ghost start = self@;
        let ghost mut taken: Seq<Sample<T>> = Seq::empty();
        loop
            invariant
                start == old(self)@,
                self@ == start.after(taken),
                follows(numerics, tol, start, taken),
            decreases self@.limit - self@.steps,
        {
            let bracket = self.bracket();
            numerics.observe(self.steps(), &bracket);
            let measure = numerics.measure(&bracket, tol);
            assert(measures(numerics, tol, self@, measure));
            let x = match self.poll(measure) {
                Poll::Converged(best) => {
                    return Ok(best);
                },
                Poll::Exhausted => {
                    return Err(SolveError::IterationLimit);
                },
                Poll::Step(Step::Bisection) => numerics.midpoint(&bracket),
                Poll::Step(Step::Interpolation) => {
                    let cubic = numerics.inverse_cubic(&bracket);
                    if numerics.strictly_inside(&bracket, cubic) {
                        cubic
                    } else {
                        let chord = numerics.false_position(&bracket);
                        assert(falls_back(numerics, self@, cubic, chord));
                        chord
                    }
                },
            };
            assert(chooses(numerics, self@, x));
            let candidate = Sample::at(x, numerics.evaluate(x));
            assert(proposes(numerics, self@, candidate));
            match self.advance(candidate) {
                Ok(_) => {
                    proof {
                        assert(taken.push(candidate).drop_last() =~= taken);
                        assert(taken.push(candidate).last() == candidate);
                        taken = taken.push(candidate);
                    }
                },
                Err(e) => {
                    return Err(e);
                },
            }
        }
    }
}

/// Finds a root of the function behind `numerics` between `x0` and `x1`:
/// evaluates the function at both, and runs a solver on that bracket with
/// the tolerance `tol`, for at most `max_steps` steps where that is given.
///
/// The result is that of a solve from the bracket whose endpoints are `x0`
/// and `x1`, each with an evaluation that the numerics may return there.
pub fn inv_cubic_solve<T: Copy, N: Numerics<T>>(
    x0: T,
    x1: T,
    tol: T,
    numerics: &N,
    max_steps: Option<u64>,
) -> (r: Result<T, SolveError>)
    ensures
        exists|e0: Evaluation<T>, e1: Evaluation<T>, end: SolverState<T>|
            {
                &&& call_ensures(N::evaluate, (numerics, x0), e0)
                &&& call_ensures(N::evaluate, (numerics, x1), e1)
                &&& #[trigger] solves(
                    numerics,
                    tol,
                    SolverState::initial(
                        Sample::taken_at(x0, e0),
                        Sample::taken_at(x1, e1),
                        step_limit(max_steps),
                    ),
                    end,
                    r,
                )
            },
{
    let e0 = numerics.evaluate(x0);
    let e1 = numerics.evaluate(x1);
    let first = Sample::at(x0, e0);
    let second = Sample::at(x1, e1);
    let mut solver = match max_steps {
        Some(limit) => Solver::with_limit(first, second, limit),
        None => Solver::new(first, second),
    };
    let r = solver.run(tol, numerics);
    assert(solves(
        numerics,
        tol,
        SolverState::initial(
            Sample::taken_at(x0, e0),
            Sample::taken_at(x1, e1),
            step_limit(max_steps),
        ),
        solver@,
        r,
    ));
    r
}

/// A run that takes a step, or starts from a bracket that shows a sign
/// change, ends in a bracket that shows one.
proof fn sign_change_holds_along<T, N: Numerics<T>>(
    numerics: &N,
    tol: T,
    start: SolverState<T>,
    candidates: Seq<Sample<T>>,
)
    requires
        follows(numerics, tol, start, candidates),
    ensures
        candidates.len() > 0 || start.bracket.brackets_root() ==> start.after(
            candidates,
        ).bracket.brackets_root(),
{
    if candidates.len() > 0 {
        sign_change_is_invariant(start.after(candidates.drop_last()), candidates.last());
    }
}

/// Where every measure of the start passes a stopping test, no run takes
/// a step.
proof fn no_step_from_converged_start<T, N: Numerics<T>>(
    numerics: &N,
    tol: T,
    start: SolverState<T>,
    candidates: Seq<Sample<T>>,
)
    requires
        follows(numerics, tol, start, candidates),
        forall|measure: Measure| #[trigger]
            measures(numerics, tol, start, measure) ==> measure.width_below_tol
                || measure.residual_below_tol,
    ensures
        candidates.len() == 0,
    decreases candidates.len(),
{
    if candidates.len() > 0 {
        no_step_from_converged_start(numerics, tol, start, candidates.drop_last());
    }
}

/// The sign-change invariant of a whole solve. From a bracket that shows a
/// sign change, a solve ends in a bracket that shows one, and does not
/// fail with `SignInvariantViolated`.
pub proof fn solve_keeps_sign_change<T, N: Numerics<T>>(
    numerics: &N,
    tol: T,
    start: SolverState<T>,
    end: SolverState<T>,
    r: Result<T, SolveError>,
)
    requires
        solves(numerics, tol, start, end, r),
        start.bracket.brackets_root(),
    ensures
        end.bracket.brackets_root(),
        r != Err::<T, SolveError>(SolveError::SignInvariantViolated),
{
    let candidates = choose|candidates: Seq<Sample<T>>| #[trigger]
        follows(numerics, tol, start, candidates) && end == start.after(candidates);
    sign_change_holds_along(numerics, tol, start, candidates);
    if r == Err::<T, SolveError>(SolveError::SignInvariantViolated) {
        let candidate = choose|candidate: Sample<T>| #[trigger]
            proposes(numerics, end, candidate) && end.verdict(candidate) == Err::<
                Endpoint,
                SolveError,
            >(SolveError::SignInvariantViolated);
        sign_change_is_invariant(end, candidate);
    }
}

/// A solve that fails with `SignInvariantViolated` has taken no step: the
/// bracket that shows no sign change is the one it started from.
pub proof fn solve_fails_only_at_the_start<T, N: Numerics<T>>(
    numerics: &N,
    tol: T,
    start: SolverState<T>,
    end: SolverState<T>,
)
    requires
        solves(
            numerics,
            tol,
            start,
            end,
            Err::<T, SolveError>(SolveError::SignInvariantViolated),
        ),
    ensures
        end == start,
        !start.bracket.brackets_root(),
{
    let candidates = choose|candidates: Seq<Sample<T>>| #[trigger]
        follows(numerics, tol, start, candidates) && end == start.after(candidates);
    sign_change_holds_along(numerics, tol, start, candidates);
    let candidate = choose|candidate: Sample<T>| #[trigger]
        proposes(numerics, end, candidate) && end.verdict(candidate) == Err::<
            Endpoint,
            SolveError,
        >(SolveError::SignInvariantViolated);
    sign_change_is_invariant(end, candidate);
}

/// A solve that returns a root stopped on a measure of its final bracket
/// that passes a stopping test, and the root is the endpoint that this
/// measure finds best.
pub proof fn solve_stops_on_a_passed_test<T, N: Numerics<T>>(
    numerics: &N,
    tol: T,
    start: SolverState<T>,
    end: SolverState<T>,
    x: T,
)
    requires
        solves(numerics, tol, start, end, Ok::<T, SolveError>(x)),
    ensures
        exists|measure: Measure| #[trigger]
            measures(numerics, tol, end, measure) && (measure.width_below_tol
                || measure.residual_below_tol) && x == end.best(measure),
{
    let measure = choose|measure: Measure| #[trigger]
        measures(numerics, tol, end, measure) && end.polled(measure) == Poll::Converged(x);
    assert(measures(numerics, tol, end, measure) && (measure.width_below_tol
        || measure.residual_below_tol) && x == end.best(measure));
}

/// Where every measure that the numerics may report of the initial bracket
/// passes a stopping test, a solve takes no step and returns an endpoint of
/// that bracket.
pub proof fn converged_start_takes_no_step<T, N: Numerics<T>>(
    numerics: &N,
    tol: T,
    start: SolverState<T>,
    end: SolverState<T>,
    r: Result<T, SolveError>,
)
    requires
        solves(numerics, tol, start, end, r),
        forall|measure: Measure| #[trigger]
            measures(numerics, tol, start, measure) ==> measure.width_below_tol
                || measure.residual_below_tol,
    ensures
        end == start,
        r == Ok::<T, SolveError>(start.bracket.first.x) || r == Ok::<T, SolveError>(
            start.bracket.second.x,
        ),
{
    let candidates = choose|candidates: Seq<Sample<T>>| #[trigger]
        follows(numerics, tol, start, candidates) && end == start.after(candidates);
    no_step_from_converged_start(numerics, tol, start, candidates);
}

} // verus!
