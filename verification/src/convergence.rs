//! The convergence bound: the width of the bracket at least halves with
//! every `BISECTION_FREQ` steps.
//!
//! The solver does not know what its scalars are worth, so the bound is
//! stated for any reading of scalars as real numbers under which the
//! candidates are where exact arithmetic puts them: inside the bracket,
//! and at the midpoint when the step is a bisection.

use crate::bracket::{Bracket, Sample};
use crate::driver::{follows, proposes, Numerics};
use crate::exact::{bisection_halves_width, midpoint};
use crate::solver::{SolverState, BISECTION_FREQ};
use vstd::prelude::*;

verus! {

/// Two to the power `k`.
pub open spec fn two_to(k: nat) -> real
    decreases k,
{
    if k == 0 {
        1real
    } else {
        2real * two_to((k - 1) as nat)
    }
}

/// The width of a bracket whose scalars are read as reals by `value`.
pub open spec fn width<T>(value: spec_fn(T) -> real, bracket: Bracket<T>) -> real {
    value(bracket.second.x) - value(bracket.first.x)
}

/// Whether `candidate` is where exact arithmetic puts the candidate of the
/// step that `state` takes next: within the bracket, and at its midpoint if
/// that step is a bisection.
pub open spec fn well_placed<T>(
    value: spec_fn(T) -> real,
    state: SolverState<T>,
    candidate: Sample<T>,
) -> bool {
    let lo = value(state.bracket.first.x);
    let hi = value(state.bracket.second.x);
    let c = value(candidate.x);
    &&& lo <= c <= hi
    &&& state.bisects() ==> c == midpoint(lo, hi)
}

/// Whether the steps with `candidates` from `start` all succeed, each with
/// a well placed candidate.
pub open spec fn narrows<T>(
    value: spec_fn(T) -> real,
    start: SolverState<T>,
    candidates: Seq<Sample<T>>,
) -> bool
    decreases candidates.len(),
{
    candidates.len() == 0 || {
        let state = start.after(candidates.drop_last());
        &&& narrows(value, start, candidates.drop_last())
        &&& state.verdict(candidates.last()) is Ok
        &&& well_placed(value, state, candidates.last())
    }
}

/// How many of the `count` iterations that follow `steps` taken steps have
/// a number that is a multiple of `BISECTION_FREQ`.
pub open spec fn scheduled_bisections(steps: nat, count: nat) -> nat {
    ((steps + count) / (BISECTION_FREQ as nat) - steps / (BISECTION_FREQ as nat)) as nat
}

/// A bisection step halves the width, and no step widens the bracket:
/// after a step with a well placed candidate the bracket is at most as wide
/// as before, and exactly half as wide if the step was a bisection.
pub proof fn step_narrows_bracket<T>(
    value: spec_fn(T) -> real,
    state: SolverState<T>,
    candidate: Sample<T>,
)
    requires
        state.verdict(candidate) is Ok,
        well_placed(value, state, candidate),
    ensures
        width(value, state.advanced(candidate).bracket) <= width(value, state.bracket),
        state.bisects() ==> 2real * width(value, state.advanced(candidate).bracket) == width(
            value,
            state.bracket,
        ),
{
    bisection_halves_width(value(state.bracket.first.x), value(state.bracket.second.x));
}

/// Every power of two is positive.
proof fn two_to_is_positive(k: nat)
    ensures
        two_to(k) > 0real,
    decreases k,
{
    if k > 0 {
        two_to_is_positive((k - 1) as nat);
    }
}

/// One step under the bound: a width that is no larger keeps the bound,
/// and half the width keeps it with one more power of two.
proof fn bound_after_step(p: real, before: real, after: real, start: real)
    requires
        p > 0real,
        p * before <= start,
    ensures
        after <= before ==> p * after <= start,
        2real * after == before ==> (2real * p) * after <= start,
{
    assert(after <= before ==> p * after <= p * before) by (nonlinear_arith)
        requires
            p > 0real,
    ;
    assert(2real * after == before ==> (2real * p) * after == p * before) by (nonlinear_arith);
}

/// The bound after any number of steps: the width, times two to the number
/// of scheduled bisections among them, is at most the width at the start.
proof fn width_bound_after<T>(
    value: spec_fn(T) -> real,
    start: SolverState<T>,
    candidates: Seq<Sample<T>>,
)
    requires
        narrows(value, start, candidates),
    ensures
        start.after(candidates).steps == start.steps + candidates.len(),
        two_to(scheduled_bisections(start.steps, candidates.len())) * width(
            value,
            start.after(candidates).bracket,
        ) <= width(value, start.bracket),
    decreases candidates.len(),
{
    let n = candidates.len();
    if n == 0 {
        assert(two_to(0) * width(value, start.bracket) == width(value, start.bracket))
            by (nonlinear_arith)
            requires
                two_to(0) == 1real,
        ;
    } else {
        let prev = start.after(candidates.drop_last());
        let last = candidates.last();
        width_bound_after(value, start, candidates.drop_last());
        step_narrows_bracket(value, prev, last);
        let halved = scheduled_bisections(start.steps, (n - 1) as nat);
        two_to_is_positive(halved);
        bound_after_step(
            two_to(halved),
            width(value, prev.bracket),
            width(value, prev.advanced(last).bracket),
            width(value, start.bracket),
        );
        if (start.steps + n) % (BISECTION_FREQ as nat) == 0 {
            assert(prev.bisects());
            assert(scheduled_bisections(start.steps, n) == halved + 1);
            assert(two_to((halved + 1) as nat) == 2real * two_to(halved));
        } else {
            assert(scheduled_bisections(start.steps, n) == halved);
        }
    }
}

/// The convergence bound. `BISECTION_FREQ * k` successful steps whose
/// candidates are well placed leave a bracket at most `1 / 2^k` as wide.
pub proof fn width_halves_every_five_steps<T>(
    value: spec_fn(T) -> real,
    start: SolverState<T>,
    candidates: Seq<Sample<T>>,
    k: nat,
)
    requires
        narrows(value, start, candidates),
        candidates.len() == BISECTION_FREQ * k,
    ensures
        two_to(k) * width(value, start.after(candidates).bracket) <= width(value, start.bracket),
{
    width_bound_after(value, start, candidates);
    assert(scheduled_bisections(start.steps, candidates.len()) == k);
}

/// From a bracket that shows a sign change, and within the step limit,
/// every step succeeds: steps whose candidates are all well placed narrow
/// the bracket.
pub proof fn valid_bracket_narrows<T>(
    value: spec_fn(T) -> real,
    start: SolverState<T>,
    candidates: Seq<Sample<T>>,
)
    requires
        start.bracket.brackets_root(),
        start.steps + candidates.len() <= start.limit,
        forall|i: int|
            0 <= i < candidates.len() ==> well_placed(
                value,
                #[trigger] start.after(candidates.take(i)),
                candidates[i],
            ),
    ensures
        narrows(value, start, candidates),
        start.after(candidates).steps == start.steps + candidates.len(),
        start.after(candidates).limit == start.limit,
        start.after(candidates).bracket.brackets_root(),
    decreases candidates.len(),
{
    let n = candidates.len();
    if n > 0 {
        let prefix = candidates.drop_last();
        assert forall|i: int| 0 <= i < prefix.len() implies well_placed(
            value,
            #[trigger] start.after(prefix.take(i)),
            prefix[i],
        ) by {
            assert(prefix.take(i) =~= candidates.take(i));
        }
        valid_bracket_narrows(value, start, prefix);
        assert(candidates.take(n - 1) =~= prefix);
    }
}

/// The convergence bound for a run of the driver. Where a property `kept`
/// of the states holds at the start, and the candidates that the numerics
/// propose in states with that property are well placed and keep it, the
/// first `BISECTION_FREQ * k` steps of a run leave a bracket at most
/// `1 / 2^k` as wide.
pub proof fn run_halves_width_every_five_steps<T, N: Numerics<T>>(
    numerics: &N,
    tol: T,
    value: spec_fn(T) -> real,
    kept: spec_fn(SolverState<T>) -> bool,
    start: SolverState<T>,
    candidates: Seq<Sample<T>>,
    k: nat,
)
    requires
        follows(numerics, tol, start, candidates),
        candidates.len() == BISECTION_FREQ * k,
        kept(start),
        forall|state: SolverState<T>, candidate: Sample<T>|
            kept(state) && #[trigger] proposes(numerics, state, candidate) && state.verdict(
                candidate,
            ) is Ok ==> well_placed(value, state, candidate) && kept(
                state.advanced(candidate),
            ),
    ensures
        two_to(k) * width(value, start.after(candidates).bracket) <= width(value, start.bracket),
{
    run_narrows(numerics, tol, value, kept, start, candidates);
    width_halves_every_five_steps(value, start, candidates, k);
}

/// A run whose proposed candidates are well placed, under a property of
/// the states that they keep, narrows the bracket and keeps the property.
proof fn run_narrows<T, N: Numerics<T>>(
    numerics: &N,
    tol: T,
    value: spec_fn(T) -> real,
    kept: spec_fn(SolverState<T>) -> bool,
    start: SolverState<T>,
    candidates: Seq<Sample<T>>,
)
    requires
        follows(numerics, tol, start, candidates),
        kept(start),
        forall|state: SolverState<T>, candidate: Sample<T>|
            kept(state) && #[trigger] proposes(numerics, state, candidate) && state.verdict(
                candidate,
            ) is Ok ==> well_placed(value, state, candidate) && kept(
                state.advanced(candidate),
            ),
    ensures
        narrows(value, start, candidates),
        kept(start.after(candidates)),
    decreases candidates.len(),
{
    if candidates.len() > 0 {
        run_narrows(numerics, tol, value, kept, start, candidates.drop_last());
    }
}

} // verus!
