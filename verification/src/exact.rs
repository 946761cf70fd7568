//! The candidate formulas in exact arithmetic.
//!
//! The solver never computes a candidate; an implementation of `Numerics`
//! does, in whatever arithmetic it has. This module says over the real
//! numbers what those candidates are, and proves of them what the solver's
//! schedule relies on.

use vstd::prelude::*;

verus! {

/// The midpoint of `x0` and `x1`.
pub open spec fn midpoint(x0: real, x1: real) -> real {
    (x0 + x1) / 2real
}

/// Where the chord through `(x0, f0)` and `(x1, f1)` crosses zero.
pub open spec fn false_position(x0: real, x1: real, f0: real, f1: real) -> real {
    (x0 * f1 - x1 * f0) / (f1 - f0)
}

/// The position of `x` between `x0` and `x1`, as a fraction of the way
/// from `x0` to `x1`.
pub open spec fn fraction(x: real, x0: real, x1: real) -> real {
    (x - x0) / (x1 - x0)
}

/// The Hermite basis polynomial that carries the value at the first point.
pub open spec fn h00(t: real) -> real {
    2real * (t * t * t) - 3real * (t * t) + 1real
}

/// The Hermite basis polynomial that carries the slope at the first point.
pub open spec fn h10(t: real) -> real {
    t * t * t - 2real * (t * t) + t
}

/// The Hermite basis polynomial that carries the value at the second point.
pub open spec fn h01(t: real) -> real {
    3real * (t * t) - 2real * (t * t * t)
}

/// The Hermite basis polynomial that carries the slope at the second point.
pub open spec fn h11(t: real) -> real {
    t * t * t - t * t
}

/// The cubic with value `f0` and slope `df0` at `x0`, and value `f1` and
/// slope `df1` at `x1`, evaluated at `x`.
pub open spec fn two_point_cubic(
    x: real,
    x0: real,
    x1: real,
    f0: real,
    df0: real,
    f1: real,
    df1: real,
) -> real {
    hermite_cubic(fraction(x, x0, x1), x1 - x0, f0, df0, f1, df1)
}

/// The cubic as a function of the fraction `t` of the way across an
/// interval of length `h`: the four basis polynomials, weighted by the two
/// values and by the two slopes scaled to the interval.
pub open spec fn hermite_cubic(
    t: real,
    h: real,
    f0: real,
    df0: real,
    f1: real,
    df1: real,
) -> real {
    f0 * h00(t) + (h * df0) * h10(t) + f1 * h01(t) + (h * df1) * h11(t)
}

/// The inverse cubic candidate: the cubic that matches the inverse function
/// at `f0` and `f1`, with values `x0` and `x1` and slopes `1 / df0` and
/// `1 / df1`, evaluated at zero.
pub open spec fn two_point_cubic_inverse(
    x0: real,
    x1: real,
    f0: real,
    df0: real,
    f1: real,
    df1: real,
) -> real {
    two_point_cubic(0real, f0, f1, x0, 1real / df0, x1, 1real / df1)
}

/// The slope of the chord of the cubic between `x` and `y`, written as a
/// polynomial in the two positions so that it has a value at `x == y` too.
pub open spec fn two_point_cubic_secant(
    x: real,
    y: real,
    x0: real,
    x1: real,
    f0: real,
    df0: real,
    f1: real,
    df1: real,
) -> real {
    hermite_chord(fraction(x, x0, x1), fraction(y, x0, x1), x1 - x0, f0, df0, f1, df1)
}

/// The secant slope as a function of the fractions `t` and `u` of the way
/// across an interval of length `h`.
pub open spec fn hermite_chord(
    t: real,
    u: real,
    h: real,
    f0: real,
    df0: real,
    f1: real,
    df1: real,
) -> real {
    let squares = u * u + u * t + t * t;
    let sum = u + t;
    let rise = f0 * (2real * squares - 3real * sum) + f1 * (3real * sum - 2real * squares);
    rise / h + df0 * (squares - 2real * sum + 1real) + df1 * (squares - sum)
}

/// The derivative of the cubic at `x`: the slope of the chord from `x` to
/// itself.
pub open spec fn two_point_cubic_slope(
    x: real,
    x0: real,
    x1: real,
    f0: real,
    df0: real,
    f1: real,
    df1: real,
) -> real {
    two_point_cubic_secant(x, x, x0, x1, f0, df0, f1, df1)
}

/// A bisection halves the width: each of the two halves that the midpoint
/// makes is exactly half as wide as the bracket.
pub proof fn bisection_halves_width(x0: real, x1: real)
    ensures
        midpoint(x0, x1) - x0 == (x1 - x0) / 2real,
        x1 - midpoint(x0, x1) == (x1 - x0) / 2real,
{
}

/// The false-position candidate of a bracket that shows a sign change lies
/// within the bracket.
pub proof fn false_position_stays_inside(x0: real, x1: real, f0: real, f1: real)
    requires
        x0 <= x1,
        f0 * f1 <= 0real,
        f0 != f1,
    ensures
        x0 <= false_position(x0, x1, f0, f1) <= x1,
{
    let c = false_position(x0, x1, f0, f1);
    let d = f1 - f0;
    assert(c * d == x0 * f1 - x1 * f0) by (nonlinear_arith)
        requires
            d != 0real,
            c == (x0 * f1 - x1 * f0) / d,
    ;
    assert((c - x0) * d == (x0 - x1) * f0) by (nonlinear_arith)
        requires
            c * d == x0 * f1 - x1 * f0,
            d == f1 - f0,
    ;
    assert((x1 - c) * d == (x1 - x0) * f1) by (nonlinear_arith)
        requires
            c * d == x0 * f1 - x1 * f0,
            d == f1 - f0,
    ;
    assert(x0 <= c <= x1) by (nonlinear_arith)
        requires
            (c - x0) * d == (x0 - x1) * f0,
            (x1 - c) * d == (x1 - x0) * f1,
            d == f1 - f0,
            d != 0real,
            f0 * f1 <= 0real,
            x0 <= x1,
    ;
}

/// A weight times the difference of a basis polynomial, where that
/// difference is `d * a`.
proof fn weighted_difference(f: real, hu: real, ht: real, d: real, a: real)
    requires
        hu - ht == d * a,
    ensures
        f * hu - f * ht == d * (f * a),
{
    assert(f * hu - f * ht == d * (f * a)) by (nonlinear_arith)
        requires
            hu - ht == d * a,
    ;
}

/// A slope scaled by the length `h`, times the difference of a basis
/// polynomial, where that difference is `d * b` and `d * h` is `dx`.
proof fn scaled_difference(h: real, df: real, hu: real, ht: real, d: real, b: real, dx: real)
    requires
        hu - ht == d * b,
        d * h == dx,
    ensures
        (h * df) * hu - (h * df) * ht == dx * (df * b),
{
    let w = hu - ht;
    assert((h * df) * hu - (h * df) * ht == (h * df) * w) by (nonlinear_arith)
        requires
            w == hu - ht,
    ;
    assert((h * df) * (d * b) == (d * h) * (df * b)) by (nonlinear_arith);
}

/// The distance `dx == d * h` times a quotient by `h`.
proof fn cancelled_quotient(dx: real, d: real, h: real, p: real, q: real)
    requires
        h != 0real,
        d * h == dx,
    ensures
        dx * ((p + q) / h) == d * p + d * q,
{
    let r = p + q;
    assert((d * h) * (r / h) == d * r) by (nonlinear_arith)
        requires
            h != 0real,
    ;
    assert(d * (p + q) == d * p + d * q) by (nonlinear_arith);
}

/// `w * (p + q + r) == w * p + w * q + w * r`.
proof fn product_of_sum(w: real, p: real, q: real, r: real)
    ensures
        w * (p + q + r) == w * p + w * q + w * r,
{
    assert(w * (p + q + r) == w * p + w * q + w * r) by (nonlinear_arith);
}

/// The difference of each basis polynomial between two positions, with the
/// distance between the positions taken out as a factor.
proof fn basis_differences(t: real, u: real)
    ensures
        h00(u) - h00(t) == (u - t) * (2real * (u * u + u * t + t * t) - 3real * (u + t)),
        h10(u) - h10(t) == (u - t) * ((u * u + u * t + t * t) - 2real * (u + t) + 1real),
        h01(u) - h01(t) == (u - t) * (3real * (u + t) - 2real * (u * u + u * t + t * t)),
        h11(u) - h11(t) == (u - t) * ((u * u + u * t + t * t) - (u + t)),
{
    let cubes = u * u * u - t * t * t;
    let squares = u * u - t * t;
    let q = u * u + u * t + t * t;
    let s = u + t;
    let d = u - t;
    assert(cubes == d * q) by (nonlinear_arith)
        requires
            cubes == u * u * u - t * t * t,
            q == u * u + u * t + t * t,
            d == u - t,
    ;
    assert(squares == d * s) by (nonlinear_arith)
        requires
            squares == u * u - t * t,
            s == u + t,
            d == u - t,
    ;
    assert(d * (2real * q - 3real * s) == 2real * (d * q) - 3real * (d * s)) by (nonlinear_arith);
    assert(d * (q - 2real * s + 1real) == d * q - 2real * (d * s) + d) by (nonlinear_arith);
    assert(d * (3real * s - 2real * q) == 3real * (d * s) - 2real * (d * q)) by (nonlinear_arith);
    assert(d * (q - s) == d * q - d * s) by (nonlinear_arith);
}

/// The distance between two positions, as fractions of the way from `x0`
/// to `x1`, times the length of that way, is the distance between them.
proof fn fraction_difference(x: real, y: real, x0: real, x1: real)
    requires
        x0 != x1,
    ensures
        (fraction(y, x0, x1) - fraction(x, x0, x1)) * (x1 - x0) == y - x,
{
    let h = x1 - x0;
    let a = y - x0;
    let b = x - x0;
    assert((a / h - b / h) * h == a - b) by (nonlinear_arith)
        requires
            h != 0real,
    ;
}

/// Between any two points the cubic rises by the distance times the secant
/// slope. The secant slope is a polynomial in both points, so its value
/// where they coincide, `two_point_cubic_slope`, is the cubic's derivative.
pub proof fn secant_is_difference_quotient(
    x: real,
    y: real,
    x0: real,
    x1: real,
    f0: real,
    df0: real,
    f1: real,
    df1: real,
)
    requires
        x0 != x1,
    ensures
        two_point_cubic(y, x0, x1, f0, df0, f1, df1) - two_point_cubic(x, x0, x1, f0, df0, f1, df1)
            == (y - x) * two_point_cubic_secant(x, y, x0, x1, f0, df0, f1, df1),
{
    let h = x1 - x0;
    let t = fraction(x, x0, x1);
    let u = fraction(y, x0, x1);
    let d = u - t;
    let dx = y - x;
    let squares = u * u + u * t + t * t;
    let sum = u + t;
    let a = 2real * squares - 3real * sum;
    let b = squares - 2real * sum + 1real;
    let c = 3real * sum - 2real * squares;
    let e = squares - sum;
    basis_differences(t, u);
    fraction_difference(x, y, x0, x1);
    // The rise of the cubic, one basis polynomial at a time.
    weighted_difference(f0, h00(u), h00(t), d, a);
    scaled_difference(h, df0, h10(u), h10(t), d, b, dx);
    weighted_difference(f1, h01(u), h01(t), d, c);
    scaled_difference(h, df1, h11(u), h11(t), d, e, dx);
    let rise = hermite_cubic(u, h, f0, df0, f1, df1) - hermite_cubic(
        t,
        h,
        f0,
        df0,
        f1,
        df1,
    );
    assert(rise == d * (f0 * a) + dx * (df0 * b) + d * (f1 * c) + dx * (df1 * e));
    // The distance times the secant slope, one term at a time.
    let chord = hermite_chord(t, u, h, f0, df0, f1, df1);
    assert(chord == (f0 * a + f1 * c) / h + df0 * b + df1 * e);
    product_of_sum(dx, (f0 * a + f1 * c) / h, df0 * b, df1 * e);
    cancelled_quotient(dx, d, h, f0 * a, f1 * c);
    assert(dx * chord == d * (f0 * a) + d * (f1 * c) + dx * (df0 * b) + dx * (df1 * e));
}

/// The values of the basis polynomials at the two ends.
proof fn basis_at_ends()
    ensures
        h00(0real) == 1real,
        h10(0real) == 0real,
        h01(0real) == 0real,
        h11(0real) == 0real,
        h00(1real) == 0real,
        h10(1real) == 0real,
        h01(1real) == 1real,
        h11(1real) == 0real,
{
}

/// The two ends are at the fractions zero and one.
proof fn fraction_at_ends(x0: real, x1: real)
    requires
        x0 != x1,
    ensures
        fraction(x0, x0, x1) == 0real,
        fraction(x1, x0, x1) == 1real,
{
    let h = x1 - x0;
    assert(0real / h == 0real) by (nonlinear_arith)
        requires
            h != 0real,
    ;
    assert(h / h == 1real) by (nonlinear_arith)
        requires
            h != 0real,
    ;
}

/// `c * 0 == 0` and `c * 1 == c`.
proof fn product_with_constant(c: real, w: real)
    ensures
        w == 0real ==> c * w == 0real,
        w == 1real ==> c * w == c,
{
    assert(w == 0real ==> c * w == 0real) by (nonlinear_arith);
    assert(w == 1real ==> c * w == c) by (nonlinear_arith);
}

/// At the fractions zero and one the weighted basis gives the two values.
proof fn cubic_at_ends(h: real, f0: real, df0: real, f1: real, df1: real)
    ensures
        hermite_cubic(0real, h, f0, df0, f1, df1) == f0,
        hermite_cubic(1real, h, f0, df0, f1, df1) == f1,
{
    basis_at_ends();
    product_with_constant(f0, h00(0real));
    product_with_constant(h * df0, h10(0real));
    product_with_constant(f1, h01(0real));
    product_with_constant(h * df1, h11(0real));
    product_with_constant(f0, h00(1real));
    product_with_constant(h * df0, h10(1real));
    product_with_constant(f1, h01(1real));
    product_with_constant(h * df1, h11(1real));
}

/// At the fractions zero and one the chord from a point to itself has the
/// two slopes.
proof fn chords_at_ends(h: real, f0: real, df0: real, f1: real, df1: real)
    requires
        h != 0real,
    ensures
        hermite_chord(0real, 0real, h, f0, df0, f1, df1) == df0,
        hermite_chord(1real, 1real, h, f0, df0, f1, df1) == df1,
{
    chord_at(0real, 0real, 0real, h, f0, df0, f1, df1);
    chord_at(1real, 3real, 2real, h, f0, df0, f1, df1);
}

/// The chord from the fraction `t` to itself, where `t` is zero or one and
/// `squares` and `sum` are what the chord's formula makes of it.
proof fn chord_at(
    t: real,
    squares: real,
    sum: real,
    h: real,
    f0: real,
    df0: real,
    f1: real,
    df1: real,
)
    requires
        h != 0real,
        (t == 0real && squares == 0real && sum == 0real) || (t == 1real && squares == 3real && sum
            == 2real),
    ensures
        hermite_chord(t, t, h, f0, df0, f1, df1) == if t == 0real {
            df0
        } else {
            df1
        },
{
    assert(t * t + t * t + t * t == squares && t + t == sum) by (nonlinear_arith)
        requires
            (t == 0real && squares == 0real && sum == 0real) || (t == 1real && squares == 3real
                && sum == 2real),
    ;
    let a = 2real * squares - 3real * sum;
    let b = squares - 2real * sum + 1real;
    let c = 3real * sum - 2real * squares;
    let e = squares - sum;
    product_with_constant(f0, a);
    product_with_constant(f1, c);
    product_with_constant(df0, b);
    product_with_constant(df1, e);
    let rise = f0 * a + f1 * c;
    assert(rise / h == 0real) by (nonlinear_arith)
        requires
            rise == 0real,
            h != 0real,
    ;
    assert(hermite_chord(t, t, h, f0, df0, f1, df1) == rise / h + df0 * b + df1 * e);
}

/// The cubic matches what it was built from: at `x0` its value is `f0` and
/// its derivative `df0`, at `x1` its value is `f1` and its derivative `df1`.
pub proof fn hermite_round_trip(x0: real, x1: real, f0: real, df0: real, f1: real, df1: real)
    requires
        x0 != x1,
    ensures
        two_point_cubic(x0, x0, x1, f0, df0, f1, df1) == f0,
        two_point_cubic(x1, x0, x1, f0, df0, f1, df1) == f1,
        two_point_cubic_slope(x0, x0, x1, f0, df0, f1, df1) == df0,
        two_point_cubic_slope(x1, x0, x1, f0, df0, f1, df1) == df1,
{
    fraction_at_ends(x0, x1);
    cubic_at_ends(x1 - x0, f0, df0, f1, df1);
    chords_at_ends(x1 - x0, f0, df0, f1, df1);
}

/// Where an endpoint is already a root, the inverse cubic candidate is
/// that endpoint.
pub proof fn inverse_cubic_keeps_a_root(
    x0: real,
    x1: real,
    f0: real,
    df0: real,
    f1: real,
    df1: real,
)
    requires
        f0 != f1,
    ensures
        f0 == 0real ==> two_point_cubic_inverse(x0, x1, f0, df0, f1, df1) == x0,
        f1 == 0real ==> two_point_cubic_inverse(x0, x1, f0, df0, f1, df1) == x1,
{
    hermite_round_trip(f0, f1, x0, 1real / df0, x1, 1real / df1);
}

} // verus!
