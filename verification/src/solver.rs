//! The solver's state machine: what it remembers between iterations, how it
//! chooses the next step, when it stops, and how a candidate moves it on.
//!
//! [`SolverState`] is the mathematical model, with its transitions written
//! as specification functions. [`Solver`] is the executable state, whose
//! view is a `SolverState` and whose methods follow those transitions.

use crate::bracket::{Bracket, Endpoint, Sample, SolveError};
use vstd::prelude::*;

verus! {

/// Every iteration whose number is a multiple of this is a bisection.
pub const BISECTION_FREQ: u64 = 5;

/// Which endpoint the most recent step replaced. `Reset` stands for
/// "neither": it is the value before the first step, and the value that a
/// bisection compares against.
#[derive(Clone, Copy, Debug, PartialEq, Eq, Structural)]
pub enum CoordinateChangeFlag {
    /// The last step replaced the first endpoint.
    First,
    /// The last step replaced the second endpoint.
    Second,
    /// No step is on record.
    Reset,
}

impl CoordinateChangeFlag {
    /// The flag that records a change of the given endpoint.
    pub open spec fn of(which: Endpoint) -> CoordinateChangeFlag {
        match which {
            Endpoint::First => CoordinateChangeFlag::First,
            Endpoint::Second => CoordinateChangeFlag::Second,
        }
    }
}

/// The two kinds of step that the schedule chooses between.
#[derive(Clone, Copy, Debug, PartialEq, Eq, Structural)]
pub enum Step {
    /// Halve the bracket at its midpoint.
    Bisection,
    /// Try the inverse cubic candidate, and use the false-position
    /// candidate if the cubic one is not strictly inside the bracket.
    Interpolation,
}

/// The three comparisons on which the stopping test and the choice of the
/// best endpoint depend.
#[derive(Clone, Copy, Debug, PartialEq, Eq)]
pub struct Measure {
    /// `|f|` at the first endpoint is strictly smaller than at the second.
    pub first_residual_smaller: bool,
    /// The width of the bracket is below the tolerance.
    pub width_below_tol: bool,
    /// The smaller of the two `|f|` is below the tolerance.
    pub residual_below_tol: bool,
}

/// What the solver decides at the start of an iteration.
#[derive(Clone, Copy, Debug, PartialEq)]
pub enum Poll<T> {
    /// A stopping test passed; the payload is the best endpoint.
    Converged(T),
    /// No stopping test passed and no further step is allowed.
    Exhausted,
    /// No stopping test passed; take a step of this kind.
    Step(Step),
}

/// The model of the solver between two iterations.
pub struct SolverState<T> {
    /// The current bracket.
    pub bracket: Bracket<T>,
    /// How many steps have been taken.
    pub steps: nat,
    /// Which endpoint the last step replaced.
    pub last_changed: CoordinateChangeFlag,
    /// Whether a stall was seen, so that the next step must be a bisection.
    pub force_bisection: bool,
    /// How many steps may be taken at most.
    pub limit: nat,
}

impl<T> SolverState<T> {
    /// The state before the first iteration.
    pub open spec fn initial(first: Sample<T>, second: Sample<T>, limit: nat) -> SolverState<T> {
        SolverState {
            bracket: Bracket { first, second },
            steps: 0,
            last_changed: CoordinateChangeFlag::Reset,
            force_bisection: false,
            limit,
        }
    }

    /// The number of the iteration that comes next, counted from one.
    pub open spec fn iteration(self) -> nat {
        self.steps + 1
    }

    /// Whether the next step is a bisection: its iteration number is a
    /// multiple of `BISECTION_FREQ`, or a stall forces it.
    pub open spec fn bisects(self) -> bool {
        self.iteration() % (BISECTION_FREQ as nat) == 0 || self.force_bisection
    }

    /// The kind of the next step.
    pub open spec fn scheduled(self) -> Step {
        if self.bisects() {
            Step::Bisection
        } else {
            Step::Interpolation
        }
    }

    /// Whether the step limit has been reached.
    pub open spec fn exhausted(self) -> bool {
        self.steps >= self.limit
    }

    /// The endpoint with the smaller `|f|`; the second one on a tie.
    pub open spec fn best(self, measure: Measure) -> T {
        if measure.first_residual_smaller {
            self.bracket.first.x
        } else {
            self.bracket.second.x
        }
    }

    /// The decision at the start of an iteration.
    pub open spec fn polled(self, measure: Measure) -> Poll<T> {
        if measure.width_below_tol || measure.residual_below_tol {
            Poll::Converged(self.best(measure))
        } else if self.exhausted() {
            Poll::Exhausted
        } else {
            Poll::Step(self.scheduled())
        }
    }

    /// What a step with `candidate` reports: the endpoint that the candidate
    /// replaces, or why no step is taken.
    pub open spec fn verdict(self, candidate: Sample<T>) -> Result<Endpoint, SolveError> {
        if self.exhausted() {
            Err(SolveError::IterationLimit)
        } else {
            match self.bracket.displaced(candidate) {
                Some(which) => Ok(which),
                None => Err(SolveError::SignInvariantViolated),
            }
        }
    }

    /// Whether replacing `which` now repeats the previous step's change. A
    /// bisection clears the record first, so it never counts as a repeat.
    pub open spec fn stalls(self, which: Endpoint) -> bool {
        !self.bisects() && self.last_changed == CoordinateChangeFlag::of(which)
    }

    /// The state after a step with `candidate`; the state itself where the
    /// verdict is an error.
    pub open spec fn advanced(self, candidate: Sample<T>) -> SolverState<T> {
        match self.verdict(candidate) {
            Ok(which) => SolverState {
                bracket: self.bracket.replaced(which, candidate),
                steps: self.steps + 1,
                last_changed: CoordinateChangeFlag::of(which),
                force_bisection: self.stalls(which),
                limit: self.limit,
            },
            Err(_) => self,
        }
    }

    /// The state after one step with each of `candidates`, in order.
    pub open spec fn after(self, candidates: Seq<Sample<T>>) -> SolverState<T>
        decreases candidates.len(),
    {
        if candidates.len() == 0 {
            self
        } else {
            self.after(candidates.drop_last()).advanced(candidates.last())
        }
    }
}

/// The sign-change invariant, for one step. A step that succeeds leaves a
/// bracket that shows a sign change, whatever the bracket it started from;
/// and from a bracket that shows one, no candidate makes a step fail with
/// `SignInvariantViolated`.
pub proof fn sign_change_is_invariant<T>(state: SolverState<T>, candidate: Sample<T>)
    ensures
        state.verdict(candidate) is Ok ==> state.advanced(candidate).bracket.brackets_root(),
        state.bracket.brackets_root() ==> state.verdict(candidate) != Err::<Endpoint, SolveError>(
            SolveError::SignInvariantViolated,
        ),
        state.bracket.brackets_root() ==> state.advanced(candidate).bracket.brackets_root(),
{
}

/// The sign-change invariant, for every iteration. From a bracket that
/// shows a sign change, the bracket after any sequence of steps shows one.
pub proof fn sign_change_holds_after<T>(state: SolverState<T>, candidates: Seq<Sample<T>>)
    requires
        state.bracket.brackets_root(),
    ensures
        state.after(candidates).bracket.brackets_root(),
    decreases candidates.len(),
{
    if candidates.len() > 0 {
        sign_change_holds_after(state, candidates.drop_last());
        sign_change_is_invariant(state.after(candidates.drop_last()), candidates.last());
    }
}

/// The stall rule. If two consecutive steps replace the same endpoint, and
/// the second of them was not itself a bisection, the step after them is a
/// bisection, whatever its iteration number.
pub proof fn stall_forces_bisection<T>(
    state: SolverState<T>,
    earlier: Sample<T>,
    later: Sample<T>,
)
    requires
        state.verdict(earlier) is Ok,
        state.advanced(earlier).verdict(later) is Ok,
        state.verdict(earlier) == state.advanced(earlier).verdict(later),
        !state.advanced(earlier).bisects(),
    ensures
        state.advanced(earlier).advanced(later).scheduled() == Step::Bisection,
{
}

/// The executable solver state.
#[derive(Clone, Debug)]
pub struct Solver<T> {
    bracket: Bracket<T>,
    steps: u64,
    last_changed: CoordinateChangeFlag,
    force_bisection: bool,
    limit: u64,
}

impl<T> View for Solver<T> {
    type V = SolverState<T>;

    closed spec fn view(&self) -> SolverState<T> {
        SolverState {
            bracket: self.bracket,
            steps: self.steps as nat,
            last_changed: self.last_changed,
            force_bisection: self.force_bisection,
            limit: self.limit as nat,
        }
    }
}

impl<T: Copy> Solver<T> {
    /// A solver on the bracket with the two given endpoints, with no cap on
    /// the number of steps other than what a `u64` can count.
    pub fn new(first: Sample<T>, second: Sample<T>) -> (s: Solver<T>)
        ensures
            s@ == SolverState::initial(first, second, u64::MAX as nat),
    {
        Solver::with_limit(first, second, u64::MAX)
    }

    /// A solver on the bracket with the two given endpoints that takes at
    /// most `limit` steps.
    pub fn with_limit(first: Sample<T>, second: Sample<T>, limit: u64) -> (s: Solver<T>)
        ensures
            s@ == SolverState::initial(first, second, limit as nat),
    {
        Solver {
            bracket: Bracket { first, second },
            steps: 0,
            last_changed: CoordinateChangeFlag::Reset,
            force_bisection: false,
            limit,
        }
    }

    /// The current bracket.
    pub fn bracket(&self) -> (b: Bracket<T>)
        ensures
            b == self@.bracket,
    {
        self.bracket
    }

    /// The number of steps taken so far.
    pub fn steps(&self) -> (n: u64)
        ensures
            n == self@.steps,
    {
        self.steps
    }

    /// The cap on the number of steps.
    pub fn limit(&self) -> (n: u64)
        ensures
            n == self@.limit,
    {
        self.limit
    }

    /// Which endpoint the last step replaced.
    pub fn last_changed(&self) -> (flag: CoordinateChangeFlag)
        ensures
            flag == self@.last_changed,
    {
        self.last_changed
    }

    /// Whether a stall forces the next step to be a bisection.
    pub fn force_bisection(&self) -> (forced: bool)
        ensures
            forced == self@.force_bisection,
    {
        self.force_bisection
    }

    /// The kind of the next step.
    pub fn scheduled(&self) -> (step: Step)
        ensures
            step == self@.scheduled(),
    {
        if self.steps % BISECTION_FREQ == BISECTION_FREQ - 1 || self.force_bisection {
            Step::Bisection
        } else {
            Step::Interpolation
        }
    }

    /// Decides, at the start of an iteration, whether to stop and with
    /// which endpoint, or which kind of step to take.
    pub fn poll(&self, measure: Measure) -> (p: Poll<T>)
        ensures
            p == self@.polled(measure),
    {
        if measure.width_below_tol || measure.residual_below_tol {
            if measure.first_residual_smaller {
                Poll::Converged(self.bracket.first.x)
            } else {
                Poll::Converged(self.bracket.second.x)
            }
        } else if self.steps >= self.limit {
            Poll::Exhausted
        } else {
            Poll::Step(self.scheduled())
        }
    }

    /// Takes one step with `candidate`: narrows the bracket to the half
    /// that shows a sign change, records which endpoint moved, notes a
    /// stall, and counts the step. On an error the state is unchanged.
    pub fn advance(&mut self, candidate: Sample<T>) -> (r: Result<Endpoint, SolveError>)
        ensures
            r == old(self)@.verdict(candidate),
            final(self)@ == old(self)@.advanced(candidate),
    {
        if self.steps >= self.limit {
            return Err(SolveError::IterationLimit);
        }
        let bisects = match self.scheduled() {
            Step::Bisection => true,
            Step::Interpolation => false,
        };
        match self.bracket.refine(candidate) {
            Ok((bracket, which)) => {
                let stalls = !bisects && match (self.last_changed, which) {
                    (CoordinateChangeFlag::First, Endpoint::First) => true,
                    (CoordinateChangeFlag::Second, Endpoint::Second) => true,
                    _ => false,
                };
                self.bracket = bracket;
                self.steps = self.steps + 1;
                self.last_changed = match which {
                    Endpoint::First => CoordinateChangeFlag::First,
                    Endpoint::Second => CoordinateChangeFlag::Second,
                };
                self.force_bisection = stalls;
                Ok(which)
            },
            Err(e) => Err(e),
        }
    }
}

} // verus!
