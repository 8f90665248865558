use wander::region::{resolve_region, NavigationRegion};
use wander::rng::{sample_i64_half_open, sample_u32_inclusive, sample_u64_half_open};
use wander::vec2::Vec2I;

fn square(x0: i64, y0: i64, x1: i64, y1: i64) -> NavigationRegion {
    NavigationRegion::new(vec![
        Vec2I::new(x0, y0),
        Vec2I::new(x1, y0),
        Vec2I::new(x1, y1),
        Vec2I::new(x0, y1),
    ])
}

#[test]
fn contains_basic_square() {
    let r = square(0, 0, 10, 10);
    assert!(r.contains(Vec2I::new(5, 5)));
    assert!(r.contains(Vec2I::new(1, 9)));
    assert!(!r.contains(Vec2I::new(15, 5)));
    assert!(!r.contains(Vec2I::new(-1, 5)));
    assert!(!r.contains(Vec2I::new(5, 11)));
    assert!(!r.contains(Vec2I::new(5, -1)));
}

#[test]
fn contains_concave_polygon() {
    // A U-shape: the notch between the prongs is outside.
    let r = NavigationRegion::new(vec![
        Vec2I::new(0, 0),
        Vec2I::new(30, 0),
        Vec2I::new(30, 30),
        Vec2I::new(20, 30),
        Vec2I::new(20, 10),
        Vec2I::new(10, 10),
        Vec2I::new(10, 30),
        Vec2I::new(0, 30),
    ]);
    assert!(r.contains(Vec2I::new(5, 20)));
    assert!(r.contains(Vec2I::new(25, 20)));
    assert!(r.contains(Vec2I::new(15, 5)));
    assert!(!r.contains(Vec2I::new(15, 20)));
    assert!(!r.contains(Vec2I::new(15, 29)));
}

/// For a convex polygon, containment must agree with the half-plane
/// reference: a point is inside iff it is on the same (left) side of every
/// counter-clockwise edge. Points exactly on an edge line are skipped since
/// boundary behavior differs between references.
#[test]
fn contains_matches_convex_reference() {
    let verts = [(0i64, 0i64), (12, 0), (16, 8), (8, 14), (0, 8)];
    let r = NavigationRegion::new(verts.iter().map(|&(x, y)| Vec2I::new(x, y)).collect());
    for px in -2..19 {
        for py in -2..16 {
            let mut on_edge = false;
            let mut inside_ref = true;
            for i in 0..verts.len() {
                let (ax, ay) = verts[i];
                let (bx, by) = verts[(i + 1) % verts.len()];
                let cross = (bx - ax) * (py - ay) - (by - ay) * (px - ax);
                if cross == 0 {
                    on_edge = true;
                }
                if cross < 0 {
                    inside_ref = false;
                }
            }
            if !on_edge {
                assert_eq!(
                    r.contains(Vec2I::new(px, py)),
                    inside_ref,
                    "disagreement at ({}, {})",
                    px,
                    py
                );
            }
        }
    }
}

#[test]
fn outside_bounding_box_never_contained() {
    let r = NavigationRegion::new(vec![
        Vec2I::new(3, 1),
        Vec2I::new(9, 2),
        Vec2I::new(11, 9),
        Vec2I::new(2, 7),
    ]);
    for t in -20..21 {
        assert!(!r.contains(Vec2I::new(-5, t)));
        assert!(!r.contains(Vec2I::new(50, t)));
        assert!(!r.contains(Vec2I::new(t, -3)));
        assert!(!r.contains(Vec2I::new(t, 40)));
    }
}

#[test]
fn degenerate_polygon_contains_nothing() {
    let empty = NavigationRegion::new(vec![]);
    assert!(!empty.contains(Vec2I::new(0, 0)));
    let two = NavigationRegion::new(vec![Vec2I::new(0, 0), Vec2I::new(10, 0)]);
    assert!(!two.contains(Vec2I::new(5, 0)));
}

#[test]
fn degenerate_polygon_samples_origin() {
    let two = NavigationRegion::new(vec![Vec2I::new(3, 4), Vec2I::new(10, 4)]);
    let p = two.random_point(1);
    assert_eq!((p.x, p.y), (0, 0));
}

#[test]
fn clears_edge_margin_square() {
    let r = square(0, 0, 10, 10);
    assert!(r.clears_edge_margin(Vec2I::new(5, 5), 5));
    assert!(r.clears_edge_margin(Vec2I::new(3, 3), 3));
    assert!(!r.clears_edge_margin(Vec2I::new(3, 3), 4));
    assert!(!r.clears_edge_margin(Vec2I::new(1, 5), 2));
    assert!(r.clears_edge_margin(Vec2I::new(2, 5), 2));
}

/// Sampling a 10x10 (scaled by 1000) square with a margin of 1 unit keeps
/// every returned point at least that margin from the border; the centroid
/// fallback (5000, 5000) satisfies the same bounds.
#[test]
fn random_point_respects_margin_on_square() {
    let r = square(0, 0, 10_000, 10_000);
    for _ in 0..1000 {
        let p = r.random_point(1000);
        assert!(1000 <= p.x && p.x <= 9000, "x out of margin: {}", p.x);
        assert!(1000 <= p.y && p.y <= 9000, "y out of margin: {}", p.y);
        assert!(r.contains(p) || (p.x == 5000 && p.y == 5000));
    }
}

#[test]
fn random_point_inside_triangle() {
    let r = NavigationRegion::new(vec![
        Vec2I::new(0, 0),
        Vec2I::new(4000, 0),
        Vec2I::new(2000, 3000),
    ]);
    let centroid = (2000, 1000);
    for _ in 0..200 {
        let p = r.random_point(200);
        let fallback = (p.x, p.y) == centroid;
        assert!(
            fallback || (r.contains(p) && r.clears_edge_margin(p, 200)),
            "bad sample ({}, {})",
            p.x,
            p.y
        );
    }
}

#[test]
fn centroid_truncates_toward_zero() {
    let r = NavigationRegion::new(vec![
        Vec2I::new(-5, -5),
        Vec2I::new(0, 0),
        Vec2I::new(-4, -1),
    ]);
    let c = r.centroid();
    assert_eq!((c.x, c.y), (-3, -2));
    let r2 = NavigationRegion::new(vec![
        Vec2I::new(0, 0),
        Vec2I::new(5, 0),
        Vec2I::new(5, 4),
    ]);
    let c2 = r2.centroid();
    assert_eq!((c2.x, c2.y), (3, 1));
}

#[test]
fn resolve_region_picks_first_match() {
    let regions = vec![
        square(0, 0, 10, 10),
        square(5, 0, 20, 10),
        square(100, 100, 110, 110),
    ];
    assert_eq!(resolve_region(Vec2I::new(7, 5), &regions), Some(0));
    assert_eq!(resolve_region(Vec2I::new(15, 5), &regions), Some(1));
    assert_eq!(resolve_region(Vec2I::new(105, 105), &regions), Some(2));
    assert_eq!(resolve_region(Vec2I::new(50, 50), &regions), None);
}

#[test]
fn samplers_stay_in_range() {
    let mut distinct = false;
    let first = sample_i64_half_open(0, 1_000_000);
    for _ in 0..64 {
        let v = sample_i64_half_open(0, 1_000_000);
        assert!(0 <= v && v < 1_000_000);
        if v != first {
            distinct = true;
        }
    }
    assert!(distinct, "64 draws from a million-wide range all equal");
    for _ in 0..32 {
        let v = sample_u64_half_open(3, 7);
        assert!(3 <= v && v < 7);
        let w = sample_u32_inclusive(2, 4);
        assert!(2 <= w && w <= 4);
    }
    assert_eq!(sample_i64_half_open(9, 9), 9);
    assert_eq!(sample_u64_half_open(5, 5), 5);
    assert_eq!(sample_u32_inclusive(3, 3), 3);
}

#[test]
fn authoring_points_flip_y_around_origin() {
    let r = NavigationRegion::from_authoring_points(
        Vec2I::new(100, 200),
        vec![Vec2I::new(0, 0), Vec2I::new(40, 0), Vec2I::new(40, 30), Vec2I::new(0, 30)],
    );
    assert_eq!(r.vertex_count(), 4);
    let v0 = r.vertex(0);
    assert_eq!((v0.x, v0.y), (100, 200));
    let v2 = r.vertex(2);
    assert_eq!((v2.x, v2.y), (140, 170));
    // The rectangle spans y in [170, 200] in world space.
    assert!(r.contains(Vec2I::new(120, 180)));
    assert!(!r.contains(Vec2I::new(120, 210)));
}

#[test]
fn vertex_accessors() {
    let r = square(0, 0, 10, 10);
    assert_eq!(r.vertex_count(), 4);
    let v = r.vertex(2);
    assert_eq!((v.x, v.y), (10, 10));
}
