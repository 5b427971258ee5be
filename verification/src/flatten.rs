//! The degeneracy test, the flatness test and the adaptive flattening driver.

use crate::geom::{
    after_split, after_split_spec, before_split, before_split_spec, cross_z, dist_sq, dot_xy,
    lemma_abs_mul, CubicBez, Point, MAX_COORD,
};
use vstd::prelude::*;

verus! {

/// Largest step denominator the driver will refine to. Probing with this
/// denominator blends every control point by less than one coordinate unit,
/// so refining further could not change any emitted point.
pub const DEN_CAP: u64 = 0x1_0000_0000;

/// Iteration budget of the driver: a structural termination floor. A curve
/// that the adaptive search flattens at all does so in far fewer steps; when
/// the budget runs out the driver closes the polyline at the endpoint.
pub const FUEL: u64 = 0x10_0000;

/// The degeneracy policy: a curve counts as a point when `p1` is within the
/// tolerance of `p0` and `p2` is within the tolerance of `p3`. The distance
/// from `p0` to `p2` is deliberately never examined, so a curve whose two
/// inner gaps are small counts as a point however far `p3` strays from `p0`;
/// callers rely on this exact policy.
pub open spec fn is_point_spec(c: CubicBez, tol: int) -> bool {
    &&& dist_sq(c.p0, c.p1) <= tol * tol
    &&& dist_sq(c.p3, c.p2) <= tol * tol
}

/// The flatness policy: the chord from `p0` to `p3` approximates the curve
/// within the tolerance. The two cross products measure the perpendicular
/// offsets of the control points from the baseline, scaled by the baseline
/// length; the bound is tightened by a factor of three quarters when both
/// control points sit on the same side of the baseline and four ninths when
/// they straddle it, and the comparisons below carry those factors squared
/// as exact fractions. The two dot-product conditions reject curves whose
/// control points extend before `p0` or past `p3` along the baseline, which
/// the cross products alone would miss.
pub open spec fn is_flat_spec(c: CubicBez, tol: int) -> bool {
    let bx = c.p3.x as int - c.p0.x as int;
    let by = c.p3.y as int - c.p0.y as int;
    let v1x = c.p1.x as int - c.p0.x as int;
    let v1y = c.p1.y as int - c.p0.y as int;
    let v2x = c.p2.x as int - c.p0.x as int;
    let v2y = c.p2.y as int - c.p0.y as int;
    let v3x = c.p2.x as int - c.p3.x as int;
    let v3y = c.p2.y as int - c.p3.y as int;
    let c1 = cross_z(bx, by, v1x, v1y);
    let c2 = cross_z(bx, by, v2x, v2y);
    let d1 = c1 * c1;
    let d2 = c2 * c2;
    let thr = dot_xy(bx, by, bx, by) * (tol * tol);
    &&& if c1 * c2 > 0 {
        d1 * 9 <= thr * 16 && d2 * 9 <= thr * 16
    } else {
        d1 * 16 <= thr * 81 && d2 * 16 <= thr * 81
    }
    &&& dot_xy(bx, by, v1x, v1y) > -tol
    &&& dot_xy(bx, by, v3x, v3y) < tol
}

/// The event sequence of the adaptive search on the remaining curve `rem`,
/// probing prefixes of width `1 / den`, with `fuel` steps left.
pub open spec fn flatten_rec(rem: CubicBez, den: int, fuel: nat, tol: int) -> Seq<Point>
    decreases fuel,
{
    if fuel == 0 {
        seq![rem.p3]
    } else if den <= 4 && is_flat_spec(rem, tol) {
        seq![rem.p3]
    } else {
        let sub = before_split_spec(rem, den);
        if is_flat_spec(sub, tol) {
            seq![sub.p3] + flatten_rec(
                after_split_spec(rem, den),
                if den >= 4 { den / 2 } else { den },
                (fuel - 1) as nat,
                tol,
            )
        } else {
            flatten_rec(
                rem,
                if den * 2 <= DEN_CAP as int { den * 2 } else { den },
                (fuel - 1) as nat,
                tol,
            )
        }
    }
}

/// The full event sequence of flattening `c` at tolerance `tol`: empty for a
/// degenerate curve, otherwise the adaptive search starting at a step of one
/// half. Flattening is a function of the curve and the tolerance alone, so
/// two runs on identical input yield identical output.
pub open spec fn flatten_events(c: CubicBez, tol: int) -> Seq<Point> {
    if is_point_spec(c, tol) {
        Seq::empty()
    } else {
        flatten_rec(c, 2, FUEL as nat, tol)
    }
}

fn dist_sq_i128(p: Point, q: Point) -> (r: i128)
    requires
        p.wf(),
        q.wf(),
    ensures
        r as int == dist_sq(p, q),
{
    let dx: i128 = p.x as i128 - q.x as i128;
    let dy: i128 = p.y as i128 - q.y as i128;
    proof {
        lemma_abs_mul(dx as int, dx as int, 0x200_0000, 0x200_0000);
        lemma_abs_mul(dy as int, dy as int, 0x200_0000, 0x200_0000);
    }
    dx * dx + dy * dy
}

/// Returns true when the curve cannot be distinguished from its start point
/// at the given tolerance; the driver then emits nothing at all for it.
pub fn cubic_is_a_point(curve: &CubicBez, tol: i64) -> (r: bool)
    requires
        curve.wf(),
        0 <= tol <= MAX_COORD,
    ensures
        r == is_point_spec(*curve, tol as int),
{
    proof {
        lemma_abs_mul(tol as int, tol as int, MAX_COORD as int, MAX_COORD as int);
    }
    // Tolerance zero is allowed: the comparisons are non-strict.
    let tol2: i128 = (tol as i128) * (tol as i128);
    let d01: i128 = dist_sq_i128(curve.p0, curve.p1);
    let d32: i128 = dist_sq_i128(curve.p3, curve.p2);
    d01 <= tol2 && d32 <= tol2
}

/// Returns true when the curve can be approximated by the single line
/// segment from `p0` to `p3`, within the given tolerance.
pub fn cubic_is_flat(curve: &CubicBez, tol: i64) -> (r: bool)
    requires
        curve.wf(),
        0 <= tol <= MAX_COORD,
    ensures
        r == is_flat_spec(*curve, tol as int),
{
    let bx: i128 = curve.p3.x as i128 - curve.p0.x as i128;
    let by: i128 = curve.p3.y as i128 - curve.p0.y as i128;
    let v1x: i128 = curve.p1.x as i128 - curve.p0.x as i128;
    let v1y: i128 = curve.p1.y as i128 - curve.p0.y as i128;
    let v2x: i128 = curve.p2.x as i128 - curve.p0.x as i128;
    let v2y: i128 = curve.p2.y as i128 - curve.p0.y as i128;
    let v3x: i128 = curve.p2.x as i128 - curve.p3.x as i128;
    let v3y: i128 = curve.p2.y as i128 - curve.p3.y as i128;
    proof {
        lemma_abs_mul(bx as int, v1y as int, 0x200_0000, 0x200_0000);
        lemma_abs_mul(by as int, v1x as int, 0x200_0000, 0x200_0000);
        lemma_abs_mul(bx as int, v2y as int, 0x200_0000, 0x200_0000);
        lemma_abs_mul(by as int, v2x as int, 0x200_0000, 0x200_0000);
        lemma_abs_mul(bx as int, bx as int, 0x200_0000, 0x200_0000);
        lemma_abs_mul(by as int, by as int, 0x200_0000, 0x200_0000);
        lemma_abs_mul(bx as int, v1x as int, 0x200_0000, 0x200_0000);
        lemma_abs_mul(by as int, v1y as int, 0x200_0000, 0x200_0000);
        lemma_abs_mul(bx as int, v3x as int, 0x200_0000, 0x200_0000);
        lemma_abs_mul(by as int, v3y as int, 0x200_0000, 0x200_0000);
        lemma_abs_mul(tol as int, tol as int, MAX_COORD as int, MAX_COORD as int);
    }
    let c1: i128 = bx * v1y - by * v1x;
    let c2: i128 = bx * v2y - by * v2x;
    let len2: i128 = bx * bx + by * by;
    let tol2: i128 = (tol as i128) * (tol as i128);
    proof {
        lemma_abs_mul(c1 as int, c1 as int, 0x8_0000_0000_0000, 0x8_0000_0000_0000);
        lemma_abs_mul(c2 as int, c2 as int, 0x8_0000_0000_0000, 0x8_0000_0000_0000);
        lemma_abs_mul(c1 as int, c2 as int, 0x8_0000_0000_0000, 0x8_0000_0000_0000);
        lemma_abs_mul(len2 as int, tol2 as int, 0x8_0000_0000_0000, 0x1_0000_0000_0000);
    }
    let d1: i128 = c1 * c1;
    let d2: i128 = c2 * c2;
    let thr: i128 = len2 * tol2;
    let within_band: bool = if c1 * c2 > 0 {
        d1 * 9 <= thr * 16 && d2 * 9 <= thr * 16
    } else {
        d1 * 16 <= thr * 81 && d2 * 16 <= thr * 81
    };
    let dot1: i128 = bx * v1x + by * v1y;
    let dot3: i128 = bx * v3x + by * v3y;
    within_band && dot1 > -(tol as i128) && dot3 < (tol as i128)
}

/// Flattens the curve into a sequence of "line to point" events, in order.
///
/// A degenerate curve yields no events at all. Otherwise the driver
/// alternates two states: scanning, which tests whether the whole remaining
/// curve is flat and, if so, closes the polyline at its endpoint; and
/// probing, which searches for a flat prefix of the remaining curve, halving
/// the step on failure and doubling it (never up to the whole range) after
/// every consumed chunk. Scanning is skipped while the step is below a
/// quarter, to avoid repeated whole-curve tests during fine subdivision.
pub fn flatten_cubic(curve: &CubicBez, tol: i64) -> (out: Vec<Point>)
    requires
        curve.wf(),
        0 <= tol <= MAX_COORD,
    ensures
        out@ == flatten_events(*curve, tol as int),
        out@.len() == 0 <==> is_point_spec(*curve, tol as int),
        out@.len() > 0 ==> out@.last() == curve.p3,
{
    let mut out: Vec<Point> = Vec::new();
    if cubic_is_a_point(curve, tol) {
        proof {
            assert(out@ =~= flatten_events(*curve, tol as int));
        }
        return out;
    }
    let mut rem: CubicBez = *curve;
    let mut den: u64 = 2;
    let mut fuel: u64 = FUEL;
    proof {
        assert(out@ + flatten_rec(rem, den as int, fuel as nat, tol as int)
            =~= flatten_events(*curve, tol as int));
    }
    loop
        invariant
            0 <= tol <= MAX_COORD,
            rem.wf(),
            rem.p3 == curve.p3,
            2 <= den <= DEN_CAP,
            !is_point_spec(*curve, tol as int),
            out@ + flatten_rec(rem, den as int, fuel as nat, tol as int) == flatten_events(
                *curve,
                tol as int,
            ),
        decreases fuel,
    {
        let ghost rem0 = rem;
        let ghost den0 = den as int;
        let ghost fuel0 = fuel as nat;
        if fuel == 0 {
            // Termination floor: close the polyline at the endpoint.
            out.push(rem.p3);
            proof {
                assert(out@ =~= flatten_events(*curve, tol as int));
            }
            return out;
        }
        // Scanning. Re-testing an unchanged remainder after a failed probe
        // cannot succeed, so this one merged loop emits the same events as
        // separate scanning and probing loops would.
        if den <= 4 && cubic_is_flat(&rem, tol) {
            out.push(rem.p3);
            proof {
                assert(out@ =~= flatten_events(*curve, tol as int));
            }
            return out;
        }
        // Probing: is the prefix of width `1 / den` flat?
        let sub = before_split(&rem, den);
        if cubic_is_flat(&sub, tol) {
            out.push(sub.p3);
            rem = after_split(&rem, den);
            if den >= 4 {
                den = den / 2;
            }
            proof {
                assert(flatten_rec(rem0, den0, fuel0, tol as int) == seq![sub.p3]
                    + flatten_rec(rem, den as int, (fuel0 - 1) as nat, tol as int));
                assert(out@ + flatten_rec(rem, den as int, (fuel0 - 1) as nat, tol as int)
                    =~= flatten_events(*curve, tol as int));
            }
        } else {
            if den <= DEN_CAP / 2 {
                den = den * 2;
            }
            proof {
                assert(flatten_rec(rem0, den0, fuel0, tol as int) == flatten_rec(
                    rem,
                    den as int,
                    (fuel0 - 1) as nat,
                    tol as int,
                ));
            }
        }
        fuel = fuel - 1;
    }
}

/// The curve's four points lie on one line, ordered from `p0` to `p3`: both
/// control points have no perpendicular offset from the baseline, and their
/// projections onto it advance monotonically from the start to the end.
pub open spec fn colinear_monotone(c: CubicBez) -> bool {
    let bx = c.p3.x as int - c.p0.x as int;
    let by = c.p3.y as int - c.p0.y as int;
    let v1x = c.p1.x as int - c.p0.x as int;
    let v1y = c.p1.y as int - c.p0.y as int;
    let v2x = c.p2.x as int - c.p0.x as int;
    let v2y = c.p2.y as int - c.p0.y as int;
    &&& cross_z(bx, by, v1x, v1y) == 0
    &&& cross_z(bx, by, v2x, v2y) == 0
    &&& 0 <= dot_xy(bx, by, v1x, v1y)
    &&& dot_xy(bx, by, v1x, v1y) <= dot_xy(bx, by, v2x, v2y)
    &&& dot_xy(bx, by, v2x, v2y) <= dot_xy(bx, by, bx, by)
}

/// Law: a colinear, monotonically ordered curve that is not degenerate
/// flattens, at any positive tolerance, to exactly one event, the line to
/// its endpoint.
pub proof fn lemma_colinear_single_segment(c: CubicBez, tol: int)
    requires
        1 <= tol,
        colinear_monotone(c),
        !is_point_spec(c, tol),
    ensures
        flatten_events(c, tol) == seq![c.p3],
{
    let bx = c.p3.x as int - c.p0.x as int;
    let by = c.p3.y as int - c.p0.y as int;
    let v2x = c.p2.x as int - c.p0.x as int;
    let v2y = c.p2.y as int - c.p0.y as int;
    assert(bx * bx + by * by >= 0) by (nonlinear_arith);
    assert(tol * tol >= 0) by (nonlinear_arith);
    assert((bx * bx + by * by) * (tol * tol) >= 0) by (nonlinear_arith)
        requires
            bx * bx + by * by >= 0,
            tol * tol >= 0,
    ;
    assert(bx * (v2x - bx) + by * (v2y - by) == (bx * v2x + by * v2y) - (bx * bx + by * by))
        by (nonlinear_arith);
    assert(is_flat_spec(c, tol));
    assert(flatten_rec(c, 2, FUEL as nat, tol) == seq![c.p3]);
    assert(flatten_events(c, tol) == seq![c.p3]);
}

} // verus!
