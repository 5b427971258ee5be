use cubic_flatten::{cubic_is_a_point, cubic_is_flat, flatten_cubic, CubicBez, Point};

fn pt(x: i64, y: i64) -> Point {
    Point { x, y }
}

fn cubic(p0: Point, p1: Point, p2: Point, p3: Point) -> CubicBez {
    CubicBez { p0, p1, p2, p3 }
}

/// The point of the curve at parameter `t`, evaluated in floating point.
fn curve_at(c: &CubicBez, t: f64) -> (f64, f64) {
    let u = 1.0 - t;
    let w0 = u * u * u;
    let w1 = 3.0 * u * u * t;
    let w2 = 3.0 * u * t * t;
    let w3 = t * t * t;
    (
        w0 * c.p0.x as f64 + w1 * c.p1.x as f64 + w2 * c.p2.x as f64 + w3 * c.p3.x as f64,
        w0 * c.p0.y as f64 + w1 * c.p1.y as f64 + w2 * c.p2.y as f64 + w3 * c.p3.y as f64,
    )
}

fn dist_to_segment(p: (f64, f64), a: (f64, f64), b: (f64, f64)) -> f64 {
    let (px, py) = p;
    let (ax, ay) = a;
    let (bx, by) = b;
    let dx = bx - ax;
    let dy = by - ay;
    let len2 = dx * dx + dy * dy;
    let s = if len2 == 0.0 {
        0.0
    } else {
        (((px - ax) * dx + (py - ay) * dy) / len2).clamp(0.0, 1.0)
    };
    let qx = ax + s * dx;
    let qy = ay + s * dy;
    ((px - qx) * (px - qx) + (py - qy) * (py - qy)).sqrt()
}

/// The largest distance from a densely sampled point of the true curve to
/// the polyline that starts at the curve's start point and follows `events`.
fn max_deviation(c: &CubicBez, events: &[Point]) -> f64 {
    assert!(!events.is_empty());
    let mut vertices: Vec<(f64, f64)> = vec![(c.p0.x as f64, c.p0.y as f64)];
    for e in events {
        vertices.push((e.x as f64, e.y as f64));
    }
    let mut worst: f64 = 0.0;
    for i in 0..=2048 {
        let t = i as f64 / 2048.0;
        let p = curve_at(c, t);
        let mut best = f64::INFINITY;
        for w in vertices.windows(2) {
            let d = dist_to_segment(p, w[0], w[1]);
            if d < best {
                best = d;
            }
        }
        if best > worst {
            worst = best;
        }
    }
    worst
}

/// Control points of a quarter-circle approximation of radius one million,
/// from the top of the circle to its right, centered on the origin.
fn quarter_circle() -> CubicBez {
    cubic(
        pt(0, 1_000_000),
        pt(552_285, 1_000_000),
        pt(1_000_000, 552_285),
        pt(1_000_000, 0),
    )
}

#[test]
fn degenerate_point_curve_emits_no_events() {
    let c = cubic(pt(0, 0), pt(0, 0), pt(0, 0), pt(0, 0));
    assert!(cubic_is_a_point(&c, 10));
    assert_eq!(flatten_cubic(&c, 10), Vec::<Point>::new());
}

#[test]
fn nearly_degenerate_curve_emits_no_events() {
    // Every control point lies within the tolerance of its neighbour on the
    // checked side, so the whole curve collapses.
    let c = cubic(pt(0, 0), pt(3, 4), pt(-2, 6), pt(1, 1));
    assert!(cubic_is_a_point(&c, 10));
    assert_eq!(flatten_cubic(&c, 10), Vec::<Point>::new());
}

#[test]
fn degeneracy_check_skips_start_to_second_control_gap() {
    // Only the start-to-first-control and second-control-to-end gaps are
    // examined, so a curve whose endpoints each hug their neighbouring
    // control point counts as a point however far the end is from the start.
    let c = cubic(pt(0, 0), pt(3, 4), pt(699_997, 699_996), pt(700_000, 700_000));
    assert!(cubic_is_a_point(&c, 10));
    assert_eq!(flatten_cubic(&c, 10), Vec::<Point>::new());
}

#[test]
fn far_second_control_keeps_curve_from_collapsing() {
    // Here the second control point strays far from the end point, so the
    // degeneracy check fails even though the endpoints nearly coincide.
    let c = cubic(pt(0, 0), pt(0, 0), pt(500_000, 500_000), pt(1, 1));
    assert!(!cubic_is_a_point(&c, 10));
    let events = flatten_cubic(&c, 10);
    assert!(!events.is_empty());
    assert_eq!(*events.last().unwrap(), pt(1, 1));
}

#[test]
fn colinear_monotone_curve_emits_single_event() {
    let c = cubic(pt(0, 0), pt(10_000, 0), pt(20_000, 0), pt(30_000, 0));
    assert_eq!(flatten_cubic(&c, 10), vec![pt(30_000, 0)]);
}

#[test]
fn colinear_monotone_diagonal_uneven_spacing() {
    let c = cubic(pt(-900, -900), pt(-600, -600), pt(4_800, 4_800), pt(6_000, 6_000));
    assert_eq!(flatten_cubic(&c, 25), vec![pt(6_000, 6_000)]);
}

#[test]
fn colinear_curve_with_zero_tolerance() {
    // A strictly ordered straight curve is flat even at tolerance zero.
    let c = cubic(pt(0, 0), pt(10, 0), pt(20, 0), pt(30, 0));
    assert_eq!(flatten_cubic(&c, 0), vec![pt(30, 0)]);
}

#[test]
fn quarter_circle_polyline_stays_within_tolerance() {
    let c = quarter_circle();
    let tol: i64 = 100_000;
    let events = flatten_cubic(&c, tol);
    assert!(events.len() >= 2);
    assert_eq!(*events.last().unwrap(), pt(1_000_000, 0));
    // The emitted points are quantized to the integer grid, so allow a few
    // units beyond the tolerance when sampling against the exact curve.
    assert!(max_deviation(&c, &events) <= tol as f64 + 64.0);
}

#[test]
fn quarter_circle_polyline_stays_near_ideal_arc() {
    let c = quarter_circle();
    let tol: i64 = 100_000;
    let events = flatten_cubic(&c, tol);
    let radius = 1_000_000.0_f64;
    // The control polygon itself misses the ideal arc by roughly 0.027% of
    // the radius, and the emitted points sit on the integer grid; allow for
    // both on top of the tolerance.
    let mut vertices: Vec<(f64, f64)> = vec![(c.p0.x as f64, c.p0.y as f64)];
    for e in &events {
        vertices.push((e.x as f64, e.y as f64));
    }
    for w in vertices.windows(2) {
        for i in 0..=64 {
            let s = i as f64 / 64.0;
            let x = w[0].0 + s * (w[1].0 - w[0].0);
            let y = w[0].1 + s * (w[1].1 - w[0].1);
            let err = ((x * x + y * y).sqrt() - radius).abs();
            assert!(err <= tol as f64 + 400.0);
        }
    }
}

#[test]
fn event_count_decreases_as_tolerance_increases() {
    let c = quarter_circle();
    let fine = flatten_cubic(&c, 25_000).len();
    let medium = flatten_cubic(&c, 100_000).len();
    let coarse = flatten_cubic(&c, 400_000).len();
    assert!(fine >= medium);
    assert!(medium >= coarse);
    assert!(fine > coarse);
    assert_eq!(coarse, 1);
    assert!(medium >= 2);
}

#[test]
fn flattening_twice_gives_identical_output() {
    let c = cubic(pt(0, 0), pt(100_000, 200_000), pt(200_000, -200_000), pt(300_000, 0));
    let first = flatten_cubic(&c, 700);
    let second = flatten_cubic(&c, 700);
    assert_eq!(first, second);
    assert!(!first.is_empty());
}

#[test]
fn last_event_equals_endpoint_exactly() {
    let c = cubic(pt(1, 7), pt(37_781, 99_123), pt(-52_017, 83_311), pt(91_237, -4_567));
    let events = flatten_cubic(&c, 50);
    assert!(!events.is_empty());
    assert_eq!(*events.last().unwrap(), pt(91_237, -4_567));

    let tight = flatten_cubic(&c, 3);
    assert!(tight.len() >= events.len());
    assert_eq!(*tight.last().unwrap(), pt(91_237, -4_567));
}

#[test]
fn s_shaped_curve_flattens_within_tolerance() {
    // The control points straddle the baseline, exercising the tighter
    // four-ninths factor of the flatness test.
    let c = cubic(pt(0, 0), pt(100_000, 200_000), pt(200_000, -200_000), pt(300_000, 0));
    let tol: i64 = 1_000;
    let events = flatten_cubic(&c, tol);
    assert!(events.len() >= 2);
    assert_eq!(*events.last().unwrap(), pt(300_000, 0));
    assert!(max_deviation(&c, &events) <= tol as f64 + 64.0);
}

#[test]
fn flatness_test_accepts_straight_chord() {
    let c = cubic(pt(0, 0), pt(10_000, 10), pt(20_000, -10), pt(30_000, 0));
    assert!(cubic_is_flat(&c, 100));
}

#[test]
fn flatness_test_rejects_bowed_curve() {
    let c = cubic(pt(0, 0), pt(0, 100_000), pt(100_000, 100_000), pt(100_000, 0));
    assert!(!cubic_is_flat(&c, 100));
}

#[test]
fn flatness_test_rejects_control_point_past_endpoint() {
    // All four points are colinear, so the cross products vanish, but the
    // second control point extends past the end point along the baseline;
    // only the dot-product conditions catch that.
    let c = cubic(pt(0, 0), pt(10_000, 0), pt(60_000, 0), pt(30_000, 0));
    assert!(!cubic_is_flat(&c, 100));
}
