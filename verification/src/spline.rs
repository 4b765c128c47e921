//! One span of a Catmull-Rom path, evaluated exactly on the fixed-point grid.
//!
//! A span runs from its second knot to its third; the first and the fourth
//! shape its tangents. A parameter is a fraction `i / r` with `0 <= i <= r`.

use vstd::prelude::*;
use vstd::arithmetic::div_mod::{lemma_fundamental_div_mod, lemma_fundamental_div_mod_converse, lemma_hoist_over_denominator};
use crate::geometry::{Point, WORLD_LIMIT};

verus! {

/// Largest magnitude of a knot's coordinate: a control point, or the mirror
/// image of one in its neighbour.
pub const KNOT_LIMIT: i64 = 3 * WORLD_LIMIT;

/// Largest magnitude of a coordinate of a point on a span.
pub const SAMPLE_LIMIT: i64 = 12 * KNOT_LIMIT;

/// Twice the cubic through the knot values `a0..a3` at `i / r`, scaled by `r`
/// cubed so that it is an integer.
pub open spec fn blend(a0: int, a1: int, a2: int, a3: int, i: int, r: int) -> int {
    2 * a1 * (r * r * r) + (a2 - a0) * (i * r * r) + (2 * a0 - 5 * a1 + 4 * a2 - a3) * (i * i * r)
        + (3 * a1 - a0 - 3 * a2 + a3) * (i * i * i)
}

/// The first-order coefficient of `blend` in `i`: its rate of change at `i`.
pub open spec fn slope(a0: int, a1: int, a2: int, a3: int, i: int, r: int) -> int {
    (a2 - a0) * (r * r) + 2 * (2 * a0 - 5 * a1 + 4 * a2 - a3) * (i * r) + 3 * (3 * a1 - a0 - 3 * a2
        + a3) * (i * i)
}

/// The value of the cubic at `i / r`, rounded to the nearest grid step.
pub open spec fn axis_position(a0: int, a1: int, a2: int, a3: int, i: int, r: int) -> int {
    (blend(a0, a1, a2, a3, i, r) + r * r * r) / (2 * (r * r * r))
}

/// A number within `xb` of zero, times one between zero and `yb`, is within
/// `xb * yb` of zero.
pub proof fn lemma_product_bound(x: int, xb: int, y: int, yb: int)
    requires
        -xb <= x <= xb,
        0 <= y <= yb,
    ensures
        -(xb * yb) <= x * y <= xb * yb,
{
    assert(-(xb * yb) <= x * y <= xb * yb) by (nonlinear_arith)
        requires
            -xb <= x <= xb,
            0 <= y <= yb,
    ;
}

/// The three mixed powers of `i` and `r` lie between zero and `r` cubed.
pub proof fn lemma_powers_bound(i: int, r: int)
    requires
        0 <= i <= r,
    ensures
        0 <= i * r * r <= r * r * r,
        0 <= i * i * r <= r * r * r,
        0 <= i * i * i <= r * r * r,
        0 <= r * r * r,
{
    assert(0 <= i * r * r <= r * r * r) by (nonlinear_arith)
        requires
            0 <= i <= r,
    ;
    assert(0 <= i * i <= r * r) by (nonlinear_arith)
        requires
            0 <= i <= r,
    ;
    assert(0 <= i * i * r <= r * r * r) by (nonlinear_arith)
        requires
            0 <= i * i <= r * r,
            0 <= r,
    ;
    assert(0 <= i * i * i <= r * r * r) by (nonlinear_arith)
        requires
            0 <= i * i <= r * r,
            0 <= i <= r,
    ;
}

/// With knot values within `k` of zero, `blend` is within `24 * k` times `r`
/// cubed of zero.
pub proof fn lemma_blend_bound(a0: int, a1: int, a2: int, a3: int, i: int, r: int, k: int)
    requires
        0 <= i <= r,
        -k <= a0 <= k,
        -k <= a1 <= k,
        -k <= a2 <= k,
        -k <= a3 <= k,
    ensures
        -(24 * k * (r * r * r)) <= blend(a0, a1, a2, a3, i, r) <= 24 * k * (r * r * r),
{
    let c = r * r * r;
    lemma_powers_bound(i, r);
    lemma_product_bound(2 * a1, 2 * k, c, c);
    lemma_product_bound(a2 - a0, 2 * k, i * r * r, c);
    lemma_product_bound(2 * a0 - 5 * a1 + 4 * a2 - a3, 12 * k, i * i * r, c);
    lemma_product_bound(3 * a1 - a0 - 3 * a2 + a3, 8 * k, i * i * i, c);
    assert(2 * k * c + 2 * k * c + 12 * k * c + 8 * k * c == 24 * k * c) by (nonlinear_arith);
    assert(2 * a1 * (r * r * r) == (2 * a1) * c) by (nonlinear_arith)
        requires
            c == r * r * r,
    ;
    assert((2 * k) * c == 2 * k * c && (12 * k) * c == 12 * k * c && (8 * k) * c == 8 * k * c)
        by (nonlinear_arith);
}

/// With knot values within `k` of zero, the rounded value of the cubic is
/// within `12 * k` of zero.
pub proof fn lemma_axis_position_bound(a0: int, a1: int, a2: int, a3: int, i: int, r: int, k: int)
    requires
        0 <= i <= r,
        0 < r,
        -k <= a0 <= k,
        -k <= a1 <= k,
        -k <= a2 <= k,
        -k <= a3 <= k,
    ensures
        -(12 * k) <= axis_position(a0, a1, a2, a3, i, r) <= 12 * k,
{
    let c = r * r * r;
    let d = 2 * c;
    let n = blend(a0, a1, a2, a3, i, r) + c;
    lemma_blend_bound(a0, a1, a2, a3, i, r, k);
    assert(c > 0) by (nonlinear_arith)
        requires
            c == r * r * r,
            r > 0,
    ;
    lemma_fundamental_div_mod(n, d);
    let q = n / d;
    assert(q <= 12 * k) by (nonlinear_arith)
        requires
            n == d * q + n % d,
            0 <= n % d < d,
            n <= 24 * k * c + c,
            d == 2 * c,
            c > 0,
    ;
    assert(q >= -(12 * k)) by (nonlinear_arith)
        requires
            n == d * q + n % d,
            0 <= n % d < d,
            n >= -(24 * k * c) + c,
            d == 2 * c,
            c > 0,
    ;
}

/// Evaluates the cubic through four knot values at `i / r`.
fn axis(a0: i64, a1: i64, a2: i64, a3: i64, i: u16, r: u16) -> (v: i64)
    requires
        0 < r,
        i <= r,
        -KNOT_LIMIT <= a0 <= KNOT_LIMIT,
        -KNOT_LIMIT <= a1 <= KNOT_LIMIT,
        -KNOT_LIMIT <= a2 <= KNOT_LIMIT,
        -KNOT_LIMIT <= a3 <= KNOT_LIMIT,
    ensures
        v == axis_position(a0 as int, a1 as int, a2 as int, a3 as int, i as int, r as int),
        -SAMPLE_LIMIT <= v <= SAMPLE_LIMIT,
{
    let ri: i128 = r as i128;
    let ii: i128 = i as i128;
    let b0: i128 = a0 as i128;
    let b1: i128 = a1 as i128;
    let b2: i128 = a2 as i128;
    let b3: i128 = a3 as i128;
    let ghost k: int = KNOT_LIMIT as int;
    let ghost cmax: int = 281462092005375;
    proof {
        lemma_powers_bound(ii as int, ri as int);
        assert(ri * ri <= 65535 * 65535) by (nonlinear_arith)
            requires
                0 < ri <= 65535,
        ;
        assert(ri * ri * ri <= cmax) by (nonlinear_arith)
            requires
                0 < ri <= 65535,
                0 <= ri * ri <= 65535 * 65535,
                cmax == 281462092005375,
        ;
        assert(0 <= ii * ri <= ri * ri) by (nonlinear_arith)
            requires
                0 <= ii <= ri,
        ;
        assert(0 <= ii * ii <= ri * ri) by (nonlinear_arith)
            requires
                0 <= ii <= ri,
        ;
        assert(0 < ri * ri * ri) by (nonlinear_arith)
            requires
                0 < ri,
        ;
    }
    let c: i128 = ri * ri * ri;
    let m1: i128 = ii * ri * ri;
    let m2: i128 = ii * ii * ri;
    let m3: i128 = ii * ii * ii;
    let e0: i128 = 2 * b1;
    let e1: i128 = b2 - b0;
    let e2: i128 = 2 * b0 - 5 * b1 + 4 * b2 - b3;
    let e3: i128 = 3 * b1 - b0 - 3 * b2 + b3;
    proof {
        lemma_product_bound(e0 as int, 12 * k, c as int, cmax);
        lemma_product_bound(e1 as int, 12 * k, m1 as int, cmax);
        lemma_product_bound(e2 as int, 12 * k, m2 as int, cmax);
        lemma_product_bound(e3 as int, 12 * k, m3 as int, cmax);
        assert(12 * k * cmax == 10132635312193500000000000000int) by (nonlinear_arith)
            requires
                k == 3000000000000,
                cmax == 281462092005375,
        ;
    }
    let t0: i128 = e0 * c;
    let t1: i128 = e1 * m1;
    let t2: i128 = e2 * m2;
    let t3: i128 = e3 * m3;
    let num: i128 = t0 + t1 + t2 + t3;
    let d: i128 = 2 * c;
    let s: i128 = SAMPLE_LIMIT as i128;
    proof {
        assert(num == blend(a0 as int, a1 as int, a2 as int, a3 as int, i as int, r as int))
            by (nonlinear_arith)
            requires
                num == e0 * c + e1 * m1 + e2 * m2 + e3 * m3,
                e0 == 2 * b1,
                e1 == b2 - b0,
                e2 == 2 * b0 - 5 * b1 + 4 * b2 - b3,
                e3 == 3 * b1 - b0 - 3 * b2 + b3,
                c == ri * ri * ri,
                m1 == ii * ri * ri,
                m2 == ii * ii * ri,
                m3 == ii * ii * ii,
                b0 == a0,
                b1 == a1,
                b2 == a2,
                b3 == a3,
                ii == i,
                ri == r,
        ;
        lemma_blend_bound(a0 as int, a1 as int, a2 as int, a3 as int, i as int, r as int, k as int);
        lemma_product_bound(s as int, s as int, d as int, 2 * cmax);
        assert(s * (2 * cmax) == 20265270624387000000000000000int) by (nonlinear_arith)
            requires
                s == 36000000000000,
                cmax == 281462092005375,
        ;
        assert(24 * k * (r * r * r) == s * d) by (nonlinear_arith)
            requires
                s == 12 * k,
                d == 2 * c,
                c == r * r * r,
        ;
    }
    let shifted: i128 = num + c + d * s;
    let q: i128 = shifted / d;
    proof {
        lemma_hoist_over_denominator(num + c, s as int, d as nat);
        lemma_axis_position_bound(a0 as int, a1 as int, a2 as int, a3 as int, i as int, r as int,
            k as int);
    }
    (q - s) as i64
}

/// At parameter zero the cubic has the value of its second knot.
pub proof fn lemma_axis_position_start(a0: int, a1: int, a2: int, a3: int, r: int)
    requires
        0 < r,
    ensures
        axis_position(a0, a1, a2, a3, 0, r) == a1,
{
    let c = r * r * r;
    assert(c > 0) by (nonlinear_arith)
        requires
            c == r * r * r,
            r > 0,
    ;
    assert(blend(a0, a1, a2, a3, 0, r) + c == a1 * (2 * c) + c) by (nonlinear_arith)
        requires
            c == r * r * r,
    ;
    lemma_fundamental_div_mod_converse(a1 * (2 * c) + c, 2 * c, a1, c);
}

/// At parameter one the cubic has the value of its third knot.
pub proof fn lemma_axis_position_end(a0: int, a1: int, a2: int, a3: int, r: int)
    requires
        0 < r,
    ensures
        axis_position(a0, a1, a2, a3, r, r) == a2,
{
    let c = r * r * r;
    assert(c > 0) by (nonlinear_arith)
        requires
            c == r * r * r,
            r > 0,
    ;
    assert(blend(a0, a1, a2, a3, r, r) + c == a2 * (2 * c) + c) by (nonlinear_arith)
        requires
            c == r * r * r,
    ;
    lemma_fundamental_div_mod_converse(a2 * (2 * c) + c, 2 * c, a2, c);
}

/// `slope` is the derivative of `blend`: moving the parameter by `h` changes
/// `blend` by `h` times `slope`, up to terms in the square and the cube of `h`.
pub proof fn lemma_slope_is_derivative(a0: int, a1: int, a2: int, a3: int, i: int, h: int, r: int)
    ensures
        blend(a0, a1, a2, a3, i + h, r) == blend(a0, a1, a2, a3, i, r) + h * slope(
            a0,
            a1,
            a2,
            a3,
            i,
            r,
        ) + h * h * ((2 * a0 - 5 * a1 + 4 * a2 - a3) * r + 3 * (3 * a1 - a0 - 3 * a2 + a3) * i)
            + h * h * h * (3 * a1 - a0 - 3 * a2 + a3),
{
    let e1 = a2 - a0;
    let e2 = 2 * a0 - 5 * a1 + 4 * a2 - a3;
    let e3 = 3 * a1 - a0 - 3 * a2 + a3;
    assert(e1 * ((i + h) * r * r) == e1 * (i * r * r) + h * (e1 * (r * r))) by (nonlinear_arith);
    let ir = i * r;
    let hh = h * h;
    let sq = (i + h) * (i + h) * r;
    let m0 = i * i * r;
    let m1 = ir * h;
    let m2 = hh * r;
    assert(sq == m0 + 2 * m1 + m2) by (nonlinear_arith)
        requires
            sq == (i + h) * (i + h) * r,
            m0 == i * i * r,
            m1 == (i * r) * h,
            m2 == (h * h) * r,
    ;
    assert(e2 * sq == e2 * m0 + 2 * (e2 * m1) + e2 * m2) by (nonlinear_arith)
        requires
            sq == m0 + 2 * m1 + m2,
    ;
    assert(e2 * m1 == h * (e2 * ir)) by (nonlinear_arith)
        requires
            m1 == ir * h,
    ;
    assert(h * (2 * e2 * ir) == 2 * (h * (e2 * ir))) by (nonlinear_arith);
    assert(e2 * m2 == hh * (e2 * r)) by (nonlinear_arith)
        requires
            m2 == hh * r,
    ;
    assert(e2 * ((i + h) * (i + h) * r) == e2 * (i * i * r) + h * (2 * e2 * (i * r)) + h * h * (e2
        * r));
    assert(e3 * ((i + h) * (i + h) * (i + h)) == e3 * (i * i * i) + h * (3 * e3 * (i * i)) + h * h
        * (3 * e3 * i) + h * h * h * e3) by (nonlinear_arith);
    assert(h * slope(a0, a1, a2, a3, i, r) == h * (e1 * (r * r)) + h * (2 * e2 * (i * r)) + h * (3
        * e3 * (i * i))) by (nonlinear_arith)
        requires
            slope(a0, a1, a2, a3, i, r) == e1 * (r * r) + 2 * e2 * (i * r) + 3 * e3 * (i * i),
    ;
    assert(h * h * (e2 * r + 3 * e3 * i) == h * h * (e2 * r) + h * h * (3 * e3 * i))
        by (nonlinear_arith);
}

/// One span of the path, given by four consecutive knots.
#[derive(Clone, Copy, Debug, PartialEq, Eq, Structural)]
pub struct CubicSegment {
    pub k0: Point,
    pub k1: Point,
    pub k2: Point,
    pub k3: Point,
}

impl CubicSegment {
    /// Every knot is a control point or the mirror image of one.
    pub open spec fn wf(self) -> bool {
        &&& self.k0.within(KNOT_LIMIT as int)
        &&& self.k1.within(KNOT_LIMIT as int)
        &&& self.k2.within(KNOT_LIMIT as int)
        &&& self.k3.within(KNOT_LIMIT as int)
    }

    /// The point of the span at parameter `i / r`.
    pub open spec fn position_at(self, i: int, r: int) -> Point {
        Point {
            x: axis_position(
                self.k0.x as int,
                self.k1.x as int,
                self.k2.x as int,
                self.k3.x as int,
                i,
                r,
            ) as i64,
            y: axis_position(
                self.k0.y as int,
                self.k1.y as int,
                self.k2.y as int,
                self.k3.y as int,
                i,
                r,
            ) as i64,
            z: axis_position(
                self.k0.z as int,
                self.k1.z as int,
                self.k2.z as int,
                self.k3.z as int,
                i,
                r,
            ) as i64,
        }
    }

    /// The direction of travel at parameter `i / r`, as the rate of change of
    /// `blend` along each axis.
    pub open spec fn tangent_at(self, i: int, r: int) -> (int, int, int) {
        (
            slope(self.k0.x as int, self.k1.x as int, self.k2.x as int, self.k3.x as int, i, r),
            slope(self.k0.y as int, self.k1.y as int, self.k2.y as int, self.k3.y as int, i, r),
            slope(self.k0.z as int, self.k1.z as int, self.k2.z as int, self.k3.z as int, i, r),
        )
    }

    /// Computes the point of the span at parameter `i / r`.
    pub fn position(&self, i: u16, r: u16) -> (p: Point)
        requires
            self.wf(),
            0 < r,
            i <= r,
        ensures
            p == self.position_at(i as int, r as int),
            p.within(SAMPLE_LIMIT as int),
    {
        Point {
            x: axis(self.k0.x, self.k1.x, self.k2.x, self.k3.x, i, r),
            y: axis(self.k0.y, self.k1.y, self.k2.y, self.k3.y, i, r),
            z: axis(self.k0.z, self.k1.z, self.k2.z, self.k3.z, i, r),
        }
    }
}

/// A span starts at its second knot and ends at its third.
pub proof fn lemma_segment_endpoints(seg: CubicSegment, r: int)
    requires
        0 < r,
    ensures
        seg.position_at(0, r) == seg.k1,
        seg.position_at(r, r) == seg.k2,
{
    lemma_axis_position_start(seg.k0.x as int, seg.k1.x as int, seg.k2.x as int, seg.k3.x as int, r);
    lemma_axis_position_start(seg.k0.y as int, seg.k1.y as int, seg.k2.y as int, seg.k3.y as int, r);
    lemma_axis_position_start(seg.k0.z as int, seg.k1.z as int, seg.k2.z as int, seg.k3.z as int, r);
    lemma_axis_position_end(seg.k0.x as int, seg.k1.x as int, seg.k2.x as int, seg.k3.x as int, r);
    lemma_axis_position_end(seg.k0.y as int, seg.k1.y as int, seg.k2.y as int, seg.k3.y as int, r);
    lemma_axis_position_end(seg.k0.z as int, seg.k1.z as int, seg.k2.z as int, seg.k3.z as int, r);
}

/// Every point of a span whose knots are in bounds is within `SAMPLE_LIMIT`
/// of the origin.
pub proof fn lemma_segment_position_bound(seg: CubicSegment, i: int, r: int)
    requires
        seg.wf(),
        0 < r,
        0 <= i <= r,
    ensures
        seg.position_at(i, r).within(SAMPLE_LIMIT as int),
{
    let k = KNOT_LIMIT as int;
    lemma_axis_position_bound(seg.k0.x as int, seg.k1.x as int, seg.k2.x as int, seg.k3.x as int, i, r, k);
    lemma_axis_position_bound(seg.k0.y as int, seg.k1.y as int, seg.k2.y as int, seg.k3.y as int, i, r, k);
    lemma_axis_position_bound(seg.k0.z as int, seg.k1.z as int, seg.k2.z as int, seg.k3.z as int, i, r, k);
}

proof fn lemma_slope_joint(a0: int, a1: int, a2: int, a3: int, a4: int, r: int)
    ensures
        slope(a0, a1, a2, a3, r, r) == slope(a1, a2, a3, a4, 0, r),
{
    let rr = r * r;
    let e2 = 2 * a0 - 5 * a1 + 4 * a2 - a3;
    let e3 = 3 * a1 - a0 - 3 * a2 + a3;
    assert((a2 - a0) * rr + 2 * e2 * rr + 3 * e3 * rr == (a3 - a1) * rr) by (nonlinear_arith)
        requires
            e2 == 2 * a0 - 5 * a1 + 4 * a2 - a3,
            e3 == 3 * a1 - a0 - 3 * a2 + a3,
    ;
    assert(2 * e2 * (0 * r) == 0 && 3 * (3 * a2 - a1 - 3 * a3 + a4) * (0 * 0) == 0
        && 2 * (2 * a1 - 5 * a2 + 4 * a3 - a4) * (0 * r) == 0) by (nonlinear_arith);
}

/// Where one span hands over to the next, both travel in the same direction
/// at the same rate: the path has no kink at a control point.
pub proof fn lemma_tangent_continuous(a: CubicSegment, b: CubicSegment, r: int)
    requires
        b.k0 == a.k1,
        b.k1 == a.k2,
        b.k2 == a.k3,
    ensures
        a.tangent_at(r, r) == b.tangent_at(0, r),
{
    lemma_slope_joint(a.k0.x as int, a.k1.x as int, a.k2.x as int, a.k3.x as int, b.k3.x as int, r);
    lemma_slope_joint(a.k0.y as int, a.k1.y as int, a.k2.y as int, a.k3.y as int, b.k3.y as int, r);
    lemma_slope_joint(a.k0.z as int, a.k1.z as int, a.k2.z as int, a.k3.z as int, b.k3.z as int, r);
}

} // verus!
