use inv_cubic::{
    inv_cubic_solve, Bracket, Evaluation, Measure, Numerics, Sample, Sign, SolveError, Solver,
};
use std::cell::{Cell, RefCell};

/// Double-precision numerics for one function and its derivative, with a
/// record of every bracket observed and a count of the evaluations.
struct Doubles {
    func: fn(f64) -> f64,
    deriv: fn(f64) -> f64,
    observed: RefCell<Vec<(u64, Bracket<f64>)>>,
    evaluations: Cell<usize>,
}

impl Doubles {
    fn new(func: fn(f64) -> f64, deriv: fn(f64) -> f64) -> Doubles {
        Doubles { func, deriv, observed: RefCell::new(Vec::new()), evaluations: Cell::new(0) }
    }
}

fn sign_of(v: f64) -> Sign {
    if v < 0.0 {
        Sign::Negative
    } else if v > 0.0 {
        Sign::Positive
    } else {
        Sign::Zero
    }
}

fn two_point_cubic(x: f64, x0: f64, x1: f64, f0: f64, df0: f64, f1: f64, df1: f64) -> f64 {
    let h = x1 - x0;
    let t = (x - x0) / h;
    let h00 = 2.0 * t * t * t - 3.0 * t * t + 1.0;
    let h10 = t * t * t - 2.0 * t * t + t;
    let h01 = -2.0 * t * t * t + 3.0 * t * t;
    let h11 = t * t * t - t * t;
    f0 * h00 + h * df0 * h10 + f1 * h01 + h * df1 * h11
}

fn two_point_cubic_slope(x: f64, x0: f64, x1: f64, f0: f64, df0: f64, f1: f64, df1: f64) -> f64 {
    let h = x1 - x0;
    let t = (x - x0) / h;
    let d00 = 6.0 * t * t - 6.0 * t;
    let d10 = 3.0 * t * t - 4.0 * t + 1.0;
    let d01 = 6.0 * t - 6.0 * t * t;
    let d11 = 3.0 * t * t - 2.0 * t;
    (f0 * d00 + f1 * d01) / h + df0 * d10 + df1 * d11
}

fn two_point_cubic_inverse(x0: f64, x1: f64, f0: f64, df0: f64, f1: f64, df1: f64) -> f64 {
    two_point_cubic(0.0, f0, f1, x0, 1.0 / df0, x1, 1.0 / df1)
}

impl Numerics<f64> for Doubles {
    fn evaluate(&self, x: f64) -> Evaluation<f64> {
        self.evaluations.set(self.evaluations.get() + 1);
        let f = (self.func)(x);
        Evaluation { f, df: (self.deriv)(x), sign: sign_of(f) }
    }

    fn measure(&self, bracket: &Bracket<f64>, tol: f64) -> Measure {
        let a0 = bracket.first.f.abs();
        let a1 = bracket.second.f.abs();
        Measure {
            first_residual_smaller: a0 < a1,
            width_below_tol: (bracket.second.x - bracket.first.x).abs() < tol,
            residual_below_tol: a0.min(a1) < tol,
        }
    }

    fn midpoint(&self, bracket: &Bracket<f64>) -> f64 {
        (bracket.first.x + bracket.second.x) / 2.0
    }

    fn inverse_cubic(&self, bracket: &Bracket<f64>) -> f64 {
        let (a, b) = (bracket.first, bracket.second);
        two_point_cubic_inverse(a.x, b.x, a.f, a.df, b.f, b.df)
    }

    fn strictly_inside(&self, bracket: &Bracket<f64>, x: f64) -> bool {
        bracket.first.x < x && x < bracket.second.x
    }

    fn false_position(&self, bracket: &Bracket<f64>) -> f64 {
        let (a, b) = (bracket.first, bracket.second);
        (a.x * b.f - b.x * a.f) / (b.f - a.f)
    }

    fn observe(&self, steps: u64, bracket: &Bracket<f64>) {
        self.observed.borrow_mut().push((steps, *bracket));
    }
}

fn sine_plus_cube(x: f64) -> f64 {
    x.sin() + x.powi(3)
}

fn sine_plus_cube_slope(x: f64) -> f64 {
    x.cos() + 3.0 * x.powi(2)
}

fn square_minus_two(x: f64) -> f64 {
    x * x - 2.0
}

fn square_minus_two_slope(x: f64) -> f64 {
    2.0 * x
}

fn square_plus_one(x: f64) -> f64 {
    x * x + 1.0
}

fn identity(x: f64) -> f64 {
    x
}

fn one(_x: f64) -> f64 {
    1.0
}

#[test]
fn sine_plus_cube_root_is_within_tolerance() {
    let numerics = Doubles::new(sine_plus_cube, sine_plus_cube_slope);
    let root = inv_cubic_solve(-1.0, 0.5, 1e-14, &numerics, None).unwrap();
    assert!(root.abs() <= 1e-13, "root = {}", root);
}

#[test]
fn square_root_of_two_is_within_tolerance() {
    let numerics = Doubles::new(square_minus_two, square_minus_two_slope);
    let root = inv_cubic_solve(1.0, 2.0, 1e-12, &numerics, None).unwrap();
    assert!((root - 2.0_f64.sqrt()).abs() <= 1e-10, "root = {}", root);
}

#[test]
fn root_at_first_endpoint_stops_before_any_step() {
    let numerics = Doubles::new(identity, one);
    let root = inv_cubic_solve(0.0, 1.0, 1e-9, &numerics, None);
    assert_eq!(root, Ok(0.0));
    // Only the two endpoints were evaluated, and only one iteration began.
    assert_eq!(numerics.evaluations.get(), 2);
    assert_eq!(numerics.observed.borrow().len(), 1);
    assert_eq!(numerics.observed.borrow()[0].0, 0);
}

#[test]
fn root_at_second_endpoint_stops_before_any_step() {
    let numerics = Doubles::new(identity, one);
    let root = inv_cubic_solve(-1.0, 0.0, 1e-9, &numerics, None);
    assert_eq!(root, Ok(0.0));
    assert_eq!(numerics.evaluations.get(), 2);
    assert_eq!(numerics.observed.borrow().len(), 1);
}

#[test]
fn endpoint_value_below_tolerance_stops_before_any_step() {
    let numerics = Doubles::new(square_minus_two, square_minus_two_slope);
    // f(1.4142135) is about -1.8e-7, within the tolerance of zero.
    let root = inv_cubic_solve(1.4142135, 2.0, 1e-6, &numerics, None);
    assert_eq!(root, Ok(1.4142135));
    assert_eq!(numerics.evaluations.get(), 2);
}

#[test]
fn narrow_bracket_stops_before_any_step() {
    let numerics = Doubles::new(square_minus_two, square_minus_two_slope);
    // The width is 0.5, below the tolerance; the second endpoint is the
    // one with the smaller residual.
    let root = inv_cubic_solve(1.0, 1.5, 1.0, &numerics, None);
    assert_eq!(root, Ok(1.5));
    assert_eq!(numerics.evaluations.get(), 2);
}

#[test]
fn bracket_without_sign_change_is_reported() {
    let numerics = Doubles::new(square_plus_one, square_minus_two_slope);
    let outcome = inv_cubic_solve(1.0, 2.0, 1e-12, &numerics, None);
    assert_eq!(outcome, Err(SolveError::SignInvariantViolated));
}

#[test]
fn step_cap_is_reported() {
    let numerics = Doubles::new(square_minus_two, square_minus_two_slope);
    let outcome = inv_cubic_solve(1.0, 2.0, 1e-12, &numerics, Some(2));
    assert_eq!(outcome, Err(SolveError::IterationLimit));
    // Iterations begin with 0, 1 and 2 steps taken; the third finds the cap.
    assert_eq!(numerics.observed.borrow().len(), 3);
}

#[test]
fn step_cap_of_zero_allows_a_converged_start() {
    let numerics = Doubles::new(identity, one);
    assert_eq!(inv_cubic_solve(0.0, 1.0, 1e-9, &numerics, Some(0)), Ok(0.0));
    assert_eq!(
        inv_cubic_solve(-1.0, 1.0, 1e-9, &numerics, Some(0)),
        Err(SolveError::IterationLimit)
    );
}

#[test]
fn generous_step_cap_does_not_change_the_root() {
    let free = Doubles::new(square_minus_two, square_minus_two_slope);
    let capped = Doubles::new(square_minus_two, square_minus_two_slope);
    let a = inv_cubic_solve(1.0, 2.0, 1e-12, &free, None);
    let b = inv_cubic_solve(1.0, 2.0, 1e-12, &capped, Some(1000));
    assert_eq!(a, b);
}

#[test]
fn sign_change_holds_at_every_iteration() {
    for (func, deriv, x0, x1, tol) in [
        (sine_plus_cube as fn(f64) -> f64, sine_plus_cube_slope as fn(f64) -> f64, -1.0, 0.5, 1e-14),
        (square_minus_two, square_minus_two_slope, 1.0, 2.0, 1e-12),
    ] {
        let numerics = Doubles::new(func, deriv);
        inv_cubic_solve(x0, x1, tol, &numerics, None).unwrap();
        let observed = numerics.observed.borrow();
        assert!(observed.len() > 1);
        for (_, bracket) in observed.iter() {
            assert!(bracket.first.f * bracket.second.f <= 0.0);
            assert!(bracket.first.x < bracket.second.x);
            // The cached values are those of the function at the endpoints.
            assert_eq!(bracket.first.f, func(bracket.first.x));
            assert_eq!(bracket.second.f, func(bracket.second.x));
            assert_eq!(bracket.first.df, deriv(bracket.first.x));
            assert_eq!(bracket.second.df, deriv(bracket.second.x));
        }
    }
}

#[test]
fn every_fifth_iteration_halves_the_width() {
    let numerics = Doubles::new(|x| x * x * x - 2.0 * x - 5.0, |x| 3.0 * x * x - 2.0);
    // With a tolerance of zero no stopping test passes, so the cap ends it.
    let outcome = inv_cubic_solve(2.0, 3.0, 0.0, &numerics, Some(12));
    assert_eq!(outcome, Err(SolveError::IterationLimit));
    let observed = numerics.observed.borrow();
    assert_eq!(observed.len(), 13);
    let mut halvings = 0;
    for pair in observed.windows(2) {
        let (steps, before) = pair[0];
        let (_, after) = pair[1];
        let w0 = before.second.x - before.first.x;
        let w1 = after.second.x - after.first.x;
        assert!(w1 <= w0);
        if (steps + 1) % 5 == 0 {
            assert!((w1 - w0 / 2.0).abs() <= 4.0 * f64::EPSILON * before.second.x.abs());
            halvings += 1;
        }
    }
    assert_eq!(halvings, 2);
}

#[test]
fn width_after_five_k_iterations_is_bounded() {
    for (func, deriv, x0, x1) in [
        (sine_plus_cube as fn(f64) -> f64, sine_plus_cube_slope as fn(f64) -> f64, -1.0, 0.5),
        (square_minus_two, square_minus_two_slope, 1.0, 2.0),
    ] {
        let numerics = Doubles::new(func, deriv);
        inv_cubic_solve(x0, x1, 1e-300, &numerics, Some(30)).ok();
        let observed = numerics.observed.borrow();
        let initial = observed[0].1.second.x - observed[0].1.first.x;
        for (steps, bracket) in observed.iter() {
            if steps % 5 == 0 {
                let k = (steps / 5) as i32;
                let width = bracket.second.x - bracket.first.x;
                assert!(width <= initial / 2.0_f64.powi(k) * (1.0 + 1e-12));
            }
        }
    }
}

#[test]
fn run_leaves_the_final_state_in_the_solver() {
    let numerics = Doubles::new(square_minus_two, square_minus_two_slope);
    let first = Sample::at(1.0, numerics.evaluate(1.0));
    let second = Sample::at(2.0, numerics.evaluate(2.0));
    let mut solver = Solver::new(first, second);
    let root = solver.run(1e-12, &numerics).unwrap();
    let bracket = solver.bracket();
    assert!(root == bracket.first.x || root == bracket.second.x);
    assert!(bracket.first.x <= 2.0_f64.sqrt() && 2.0_f64.sqrt() <= bracket.second.x);
    assert_eq!(solver.steps() as usize + 1, numerics.observed.borrow().len());
    assert_eq!(solver.limit(), u64::MAX);
}

#[test]
fn run_on_a_bracket_without_sign_change_leaves_the_solver_unchanged() {
    let numerics = Doubles::new(square_plus_one, square_minus_two_slope);
    let first = Sample::at(1.0, numerics.evaluate(1.0));
    let second = Sample::at(2.0, numerics.evaluate(2.0));
    let mut solver = Solver::new(first, second);
    assert_eq!(solver.run(1e-12, &numerics), Err(SolveError::SignInvariantViolated));
    assert_eq!(solver.steps(), 0);
    assert_eq!(solver.bracket(), Bracket { first, second });
}

#[test]
fn cubic_matches_values_and_slopes_at_both_ends() {
    let (x0, x1, f0, df0, f1, df1) = (1.0, 3.0, -2.0, 0.5, 4.0, -1.5);
    assert!((two_point_cubic(x0, x0, x1, f0, df0, f1, df1) - f0).abs() <= 1e-14);
    assert!((two_point_cubic(x1, x0, x1, f0, df0, f1, df1) - f1).abs() <= 1e-14);
    assert!((two_point_cubic_slope(x0, x0, x1, f0, df0, f1, df1) - df0).abs() <= 1e-14);
    assert!((two_point_cubic_slope(x1, x0, x1, f0, df0, f1, df1) - df1).abs() <= 1e-14);
    // The slope agrees with a central difference of the cubic itself.
    let e = 1e-6;
    let numeric = (two_point_cubic(2.0 + e, x0, x1, f0, df0, f1, df1)
        - two_point_cubic(2.0 - e, x0, x1, f0, df0, f1, df1))
        / (2.0 * e);
    assert!((numeric - two_point_cubic_slope(2.0, x0, x1, f0, df0, f1, df1)).abs() <= 1e-8);
}

#[test]
fn cubic_reproduces_a_cubic_polynomial() {
    // x^3 between 0 and 2: values 0 and 8, slopes 0 and 12.
    assert_eq!(two_point_cubic(1.0, 0.0, 2.0, 0.0, 0.0, 8.0, 12.0), 1.0);
    assert_eq!(two_point_cubic(0.5, 0.0, 2.0, 0.0, 0.0, 8.0, 12.0), 0.125);
    assert_eq!(two_point_cubic(3.0, 0.0, 2.0, 0.0, 0.0, 8.0, 12.0), 27.0);
    assert_eq!(two_point_cubic_slope(1.0, 0.0, 2.0, 0.0, 0.0, 8.0, 12.0), 3.0);
}

#[test]
fn candidates_of_a_line_are_its_root() {
    // f(x) = 2x - 1 between 0 and 2: values -1 and 3, slope 2, root 0.5.
    let numerics = Doubles::new(|x| 2.0 * x - 1.0, |_| 2.0);
    let bracket = Bracket {
        first: Sample::at(0.0, numerics.evaluate(0.0)),
        second: Sample::at(2.0, numerics.evaluate(2.0)),
    };
    assert_eq!(numerics.false_position(&bracket), 0.5);
    assert_eq!(numerics.inverse_cubic(&bracket), 0.5);
    assert_eq!(numerics.midpoint(&bracket), 1.0);
    assert!(numerics.strictly_inside(&bracket, 0.5));
    assert!(!numerics.strictly_inside(&bracket, 0.0));
    assert!(!numerics.strictly_inside(&bracket, 2.0));
    assert!(!numerics.strictly_inside(&bracket, f64::NAN));
}

#[test]
fn line_is_solved_in_one_step() {
    let numerics = Doubles::new(|x| 2.0 * x - 1.0, |_| 2.0);
    assert_eq!(inv_cubic_solve(0.0, 2.0, 1e-12, &numerics, None), Ok(0.5));
    // One step: the inverse cubic candidate is the root itself.
    assert_eq!(numerics.observed.borrow().len(), 2);
    assert_eq!(numerics.evaluations.get(), 3);
}

#[test]
fn flat_slope_falls_back_to_false_position() {
    // With a zero derivative at an endpoint the inverse cubic has no
    // finite value, and the step takes the false-position candidate.
    let numerics = Doubles::new(|x| x * x - 1.0, |x| 2.0 * x);
    let bracket = Bracket {
        first: Sample::at(0.0, numerics.evaluate(0.0)),
        second: Sample::at(3.0, numerics.evaluate(3.0)),
    };
    let cubic = numerics.inverse_cubic(&bracket);
    assert!(!numerics.strictly_inside(&bracket, cubic));
    let chord = numerics.false_position(&bracket);
    assert_eq!(chord, 1.0 / 3.0);
    let mut solver = Solver::with_limit(bracket.first, bracket.second, 1);
    assert_eq!(solver.run(1e-12, &numerics), Err(SolveError::IterationLimit));
    assert_eq!(solver.bracket().first.x, chord);
    assert_eq!(solver.bracket().second.x, 3.0);
}
