//! Points, curves and the exact linear-interpolation cascade that splits a
//! cubic Bezier curve at a parameter value.

use vstd::arithmetic::div_mod::{lemma_div_nonincreasing, lemma_div_pos_is_pos};
use vstd::prelude::*;

verus! {

/// Largest coordinate (and tolerance) magnitude the library accepts.
///
/// Keeping coordinates within this bound lets every intermediate product of
/// the flatness arithmetic fit comfortably in an `i128`.
pub const MAX_COORD: i64 = 0x100_0000;

/// A point of the fixed-point coordinate space.
#[derive(Clone, Copy, PartialEq, Eq, Structural, Debug)]
pub struct Point {
    pub x: i64,
    pub y: i64,
}

/// A cubic Bezier curve: endpoints `p0` and `p3`, control points `p1` and `p2`.
#[derive(Clone, Copy, PartialEq, Eq, Structural, Debug)]
pub struct CubicBez {
    pub p0: Point,
    pub p1: Point,
    pub p2: Point,
    pub p3: Point,
}

impl Point {
    /// Both coordinates are within the accepted range.
    pub open spec fn wf(self) -> bool {
        &&& -(MAX_COORD as int) <= self.x as int <= MAX_COORD as int
        &&& -(MAX_COORD as int) <= self.y as int <= MAX_COORD as int
    }
}

impl CubicBez {
    /// All four points are within the accepted range.
    pub open spec fn wf(self) -> bool {
        self.p0.wf() && self.p1.wf() && self.p2.wf() && self.p3.wf()
    }
}

/// The z component of the cross product of the vectors `(ax, ay)` and `(bx, by)`.
pub open spec fn cross_z(ax: int, ay: int, bx: int, by: int) -> int {
    ax * by - ay * bx
}

/// The dot product of the vectors `(ax, ay)` and `(bx, by)`.
pub open spec fn dot_xy(ax: int, ay: int, bx: int, by: int) -> int {
    ax * bx + ay * by
}

/// The squared euclidean distance between `p` and `q`.
pub open spec fn dist_sq(p: Point, q: Point) -> int {
    dot_xy(
        p.x as int - q.x as int,
        p.y as int - q.y as int,
        p.x as int - q.x as int,
        p.y as int - q.y as int,
    )
}

/// A product of values bounded in magnitude is bounded by the product of the bounds.
pub(crate) proof fn lemma_abs_mul(a: int, b: int, m: int, n: int)
    by (nonlinear_arith)
    requires
        -m <= a <= m,
        -n <= b <= n,
        0 <= m,
        0 <= n,
    ensures
        -(m * n) <= a * b <= m * n,
{
}

/// Division of `d` by a positive `den`, rounded toward zero.
pub open spec fn div_trunc_spec(d: int, den: int) -> int {
    if d >= 0 {
        d / den
    } else {
        -((-d) / den)
    }
}

/// The blend of `a` toward `b` with blend factor `1 / den`, rounded toward zero.
pub open spec fn lerp1(a: int, b: int, den: int) -> int {
    a + div_trunc_spec(b - a, den)
}

/// Componentwise blend of `a` toward `b` with blend factor `1 / den`.
pub open spec fn lerp_point_spec(a: Point, b: Point, den: int) -> Point {
    Point {
        x: lerp1(a.x as int, b.x as int, den) as i64,
        y: lerp1(a.y as int, b.y as int, den) as i64,
    }
}

/// The sub-curve covering the parameter range from zero to `1 / den`.
pub open spec fn before_split_spec(c: CubicBez, den: int) -> CubicBez {
    let p1a = lerp_point_spec(c.p0, c.p1, den);
    let p2a = lerp_point_spec(c.p1, c.p2, den);
    let p1aa = lerp_point_spec(p1a, p2a, den);
    let ctrl3a = lerp_point_spec(c.p2, c.p3, den);
    let p2aa = lerp_point_spec(p2a, ctrl3a, den);
    let p1aaa = lerp_point_spec(p1aa, p2aa, den);
    CubicBez { p0: c.p0, p1: p1a, p2: p1aa, p3: p1aaa }
}

/// The sub-curve covering the parameter range from `1 / den` to one.
pub open spec fn after_split_spec(c: CubicBez, den: int) -> CubicBez {
    let p1a = lerp_point_spec(c.p0, c.p1, den);
    let p2a = lerp_point_spec(c.p1, c.p2, den);
    let p1aa = lerp_point_spec(p1a, p2a, den);
    let ctrl3a = lerp_point_spec(c.p2, c.p3, den);
    let p2aa = lerp_point_spec(p2a, ctrl3a, den);
    CubicBez {
        p0: lerp_point_spec(p1aa, p2aa, den),
        p1: lerp_point_spec(p2a, ctrl3a, den),
        p2: ctrl3a,
        p3: c.p3,
    }
}

fn div_trunc(d: i64, den: u64) -> (r: i64)
    requires
        -0x200_0000 <= d <= 0x200_0000,
        2 <= den,
    ensures
        r as int == div_trunc_spec(d as int, den as int),
        d >= 0 ==> 0 <= r <= d,
        d < 0 ==> d <= r <= 0,
{
    if d >= 0 {
        let q: u64 = (d as u64) / den;
        proof {
            lemma_div_pos_is_pos(d as int, den as int);
            lemma_div_nonincreasing(d as int, den as int);
        }
        q as i64
    } else {
        let m: i64 = -d;
        let q: u64 = (m as u64) / den;
        proof {
            lemma_div_pos_is_pos(m as int, den as int);
            lemma_div_nonincreasing(m as int, den as int);
        }
        -(q as i64)
    }
}

fn lerp_point(a: Point, b: Point, den: u64) -> (r: Point)
    requires
        a.wf(),
        b.wf(),
        2 <= den,
    ensures
        r == lerp_point_spec(a, b, den as int),
        r.wf(),
{
    let x: i64 = a.x + div_trunc(b.x - a.x, den);
    let y: i64 = a.y + div_trunc(b.y - a.y, den);
    Point { x, y }
}

/// Splits off the sub-curve covering the parameter range from zero to `1 / den`,
/// by the standard linear-interpolation cascade.
pub(crate) fn before_split(c: &CubicBez, den: u64) -> (r: CubicBez)
    requires
        c.wf(),
        2 <= den,
    ensures
        r == before_split_spec(*c, den as int),
        r.wf(),
{
    let p1a = lerp_point(c.p0, c.p1, den);
    let p2a = lerp_point(c.p1, c.p2, den);
    let p1aa = lerp_point(p1a, p2a, den);
    let ctrl3a = lerp_point(c.p2, c.p3, den);
    let p2aa = lerp_point(p2a, ctrl3a, den);
    let p1aaa = lerp_point(p1aa, p2aa, den);
    CubicBez { p0: c.p0, p1: p1a, p2: p1aa, p3: p1aaa }
}

/// Splits off the sub-curve covering the parameter range from `1 / den` to one.
/// The intermediate points are recomputed rather than shared with
/// `before_split`; both results are exactly those of the independent cascades.
pub(crate) fn after_split(c: &CubicBez, den: u64) -> (r: CubicBez)
    requires
        c.wf(),
        2 <= den,
    ensures
        r == after_split_spec(*c, den as int),
        r.wf(),
        r.p3 == c.p3,
{
    let p1a = lerp_point(c.p0, c.p1, den);
    let p2a = lerp_point(c.p1, c.p2, den);
    let p1aa = lerp_point(p1a, p2a, den);
    let ctrl3a = lerp_point(c.p2, c.p3, den);
    let p2aa = lerp_point(p2a, ctrl3a, den);
    CubicBez {
        p0: lerp_point(p1aa, p2aa, den),
        p1: lerp_point(p2a, ctrl3a, den),
        p2: ctrl3a,
        p3: c.p3,
    }
}

} // verus!
