use mouse::rational::Rat;
use mouse::transform::{RatPoint, Transform};
use mouse::{Color, GeometryError};
use mouse::geometry::{GeomCache, Stamp, Svg, is_significant};

fn rat_is(a: &Rat, n: i128, d: i128) -> bool {
    a.num() * d == n * a.den()
}

fn point(x: i64, y: i64) -> RatPoint {
    RatPoint::from_ints(x, y)
}

/// One axis-aligned square wall spanning world coordinates
/// `(10, 10)` to `(50, 50)`.
fn wall_level() -> Svg {
    let mut svg = Svg::new(1024, 768);
    let mut placement = Transform::new(40, 40);
    placement.tx = Rat::from_int(10);
    placement.ty = Rat::from_int(10);
    let wall = Stamp::rect(
        String::from("wall.bmp"),
        40,
        40,
        Color { r: 128, g: 128, b: 128 },
        placement,
    );
    svg.add_stamp(wall);
    svg
}

#[test]
fn probe_crossing_the_top_edge_is_pushed_back_up() {
    // The probe runs from (30, 5) down to (30, 15), crossing the wall's top
    // edge at y = 10 with a penetration depth of 5 units.
    let svg = wall_level();
    let mut cache = GeomCache::new();
    let hit = svg
        .intersect(point(30, 5), point(30, 15), &mut cache)
        .unwrap()
        .expect("the probe crosses the wall");
    assert!(rat_is(&hit.x, 0, 1));
    assert!(rat_is(&hit.y, -5, 1));
    // The displacement is at least the penetration depth and points back
    // above the crossed edge.
    assert!(hit.y.num() < 0);
    assert!(hit.y.num() * 1 <= -5 * hit.y.den());
}

#[test]
fn probe_far_from_every_stamp_returns_none() {
    let svg = wall_level();
    let mut cache = GeomCache::new();
    let hit = svg
        .intersect(point(200, 200), point(210, 230), &mut cache)
        .unwrap();
    assert!(hit.is_none());
}

#[test]
fn probe_inside_an_empty_level_returns_none() {
    let svg = Svg::new(640, 480);
    let mut cache = GeomCache::new();
    let hit = svg.intersect(point(0, 0), point(10, 10), &mut cache).unwrap();
    assert!(hit.is_none());
}

#[test]
fn zero_length_probe_is_a_degenerate_probe_error() {
    let svg = wall_level();
    let mut cache = GeomCache::new();
    let err = svg
        .intersect(point(30, 30), point(30, 30), &mut cache)
        .unwrap_err();
    assert_eq!(err, GeometryError::DegenerateProbe);
}

#[test]
fn out_of_range_coordinates_are_a_numeric_overflow_error() {
    let svg = wall_level();
    let mut cache = GeomCache::new();
    let huge = Rat::new(i128::MAX - 1, 1).unwrap();
    let tiny = Rat::new(i128::MIN + 2, 1).unwrap();
    let a = RatPoint { x: huge, y: Rat::from_int(0) };
    let b = RatPoint { x: tiny, y: Rat::from_int(1) };
    let err = svg.intersect(a, b, &mut cache).unwrap_err();
    assert_eq!(err, GeometryError::NumericOverflow);
}

#[test]
fn repeated_call_with_the_same_probe_gives_the_same_answer_and_cache() {
    let svg = wall_level();
    let mut cache = GeomCache::new();
    let first = svg.intersect(point(30, 5), point(30, 15), &mut cache).unwrap();
    let len_after_first = cache.len();
    let count_after_first = cache.cached_count();
    let second = svg.intersect(point(30, 5), point(30, 15), &mut cache).unwrap();
    assert_eq!(cache.len(), len_after_first);
    assert_eq!(cache.cached_count(), count_after_first);
    let f = first.expect("first call hits");
    let s = second.expect("second call hits");
    assert_eq!(f.x.num(), s.x.num());
    assert_eq!(f.x.den(), s.x.den());
    assert_eq!(f.y.num(), s.y.num());
    assert_eq!(f.y.den(), s.y.den());
}

#[test]
fn different_probes_share_the_memoized_outlines() {
    let svg = wall_level();
    let mut cache = GeomCache::new();
    svg.intersect(point(30, 5), point(30, 15), &mut cache).unwrap();
    assert_eq!(cache.cached_count(), 1);
    svg.intersect(point(5, 30), point(15, 30), &mut cache).unwrap();
    // The same stamp is memoized once; the cache does not grow.
    assert_eq!(cache.cached_count(), 1);
    assert_eq!(cache.len(), 1);
}

#[test]
fn probe_entering_from_the_left_is_pushed_back_left() {
    let svg = wall_level();
    let mut cache = GeomCache::new();
    let hit = svg
        .intersect(point(5, 30), point(15, 30), &mut cache)
        .unwrap()
        .expect("the probe crosses the left edge");
    assert!(rat_is(&hit.x, -5, 1));
    assert!(rat_is(&hit.y, 0, 1));
}

#[test]
fn sub_epsilon_displacement_is_not_significant() {
    // One ten-millionth of a unit on each axis: noise, not a collision.
    let c = RatPoint {
        x: Rat::new(1, 10000000).unwrap(),
        y: Rat::new(1, 10000000).unwrap(),
    };
    assert!(!is_significant(&c));
}

#[test]
fn the_epsilon_threshold_itself_is_not_significant() {
    let c = RatPoint {
        x: Rat::new(1, 1000000).unwrap(),
        y: Rat::new(-1, 1000000).unwrap(),
    };
    assert!(!is_significant(&c));
}

#[test]
fn displacements_above_the_epsilon_are_significant() {
    let c = RatPoint {
        x: Rat::from_int(0),
        y: Rat::new(2, 1000000).unwrap(),
    };
    assert!(is_significant(&c));
    let d = RatPoint { x: Rat::from_int(-5), y: Rat::from_int(0) };
    assert!(is_significant(&d));
}

#[test]
fn degenerate_edges_are_skipped_not_errors() {
    // A stamp whose outline is a single repeated point has only
    // zero-length edges; probing it finds nothing and fails nothing.
    let mut svg = Svg::new(100, 100);
    let mut stamp = Stamp::rect(
        String::from("dot"),
        0,
        0,
        Color { r: 0, g: 0, b: 0 },
        Transform::new(0, 0),
    );
    stamp.outline = vec![point(5, 5), point(5, 5), point(5, 5)];
    svg.add_stamp(stamp);
    let mut cache = GeomCache::new();
    let hit = svg.intersect(point(0, 0), point(10, 10), &mut cache).unwrap();
    assert!(hit.is_none());
}
