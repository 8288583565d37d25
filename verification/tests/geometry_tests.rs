use pcb_forge::geometry::{
    accumulate, compute_area2, simplify, Contribution, FillRule, Point, Polarity, Polygon,
    PolygonSet, ShapeInfo,
};
use pcb_forge::shapes::offset_polygon;

fn square_ring(x0: i64, y0: i64, x1: i64, y1: i64) -> Vec<Point> {
    vec![
        Point { x: x0, y: y0 },
        Point { x: x1, y: y0 },
        Point { x: x1, y: y1 },
        Point { x: x0, y: y1 },
    ]
}

fn square_polygon(x0: i64, y0: i64, x1: i64, y1: i64) -> Polygon {
    Polygon {
        points: square_ring(x0, y0, x1, y1),
        role: FillRule::Outer,
        shape: ShapeInfo::Rect { min: Point { x: x0, y: y0 }, max: Point { x: x1, y: y1 } },
    }
}

#[test]
fn shoelace_area_of_square() {
    let ring = square_ring(0, 0, 10, 10);
    assert_eq!(compute_area2(&ring), 200);
}

#[test]
fn simplify_drops_degenerate_and_duplicate_polygons() {
    let degenerate = Polygon {
        points: vec![Point { x: 0, y: 0 }, Point { x: 5, y: 5 }],
        role: FillRule::Outer,
        shape: ShapeInfo::Path,
    };
    let set = PolygonSet {
        polygons: vec![
            square_polygon(0, 0, 10, 10),
            degenerate,
            square_polygon(0, 0, 10, 10),
            square_polygon(20, 0, 30, 10),
        ],
    };
    let (simplified, dropped) = simplify(&set);
    assert_eq!(simplified.polygons.len(), 2);
    assert_eq!(dropped, 2);
    assert_eq!(simplified.polygons[0].points, square_ring(0, 0, 10, 10));
    assert_eq!(simplified.polygons[1].points, square_ring(20, 0, 30, 10));
}

#[test]
fn simplify_is_idempotent_on_a_messy_set() {
    let set = PolygonSet {
        polygons: vec![
            square_polygon(0, 0, 10, 10),
            square_polygon(0, 0, 10, 10),
            Polygon {
                points: vec![Point { x: 1, y: 1 }],
                role: FillRule::Outer,
                shape: ShapeInfo::Path,
            },
            square_polygon(5, 5, 25, 25),
        ],
    };
    let (once, _) = simplify(&set);
    let (twice, dropped_second_time) = simplify(&once);
    assert_eq!(dropped_second_time, 0);
    assert_eq!(once.polygons.len(), twice.polygons.len());
    for (a, b) in once.polygons.iter().zip(twice.polygons.iter()) {
        assert_eq!(a.points, b.points);
        assert_eq!(a.role, b.role);
    }
}

#[test]
fn dark_then_equal_clear_cancels_to_empty() {
    // Polarity correctness: a Dark region fully overlapped by a later Clear
    // region of equal shape yields an empty polygon set.
    let ring = square_ring(0, 0, 10_000_000, 10_000_000);
    let contributions = vec![
        Contribution { points: ring.clone(), shape: ShapeInfo::Path, polarity: Polarity::Dark },
        Contribution { points: ring, shape: ShapeInfo::Path, polarity: Polarity::Clear },
    ];
    let set = accumulate(&contributions);
    assert_eq!(set.polygons.len(), 0);
}

#[test]
fn clear_without_match_becomes_a_hole() {
    let contributions = vec![
        Contribution {
            points: square_ring(0, 0, 10, 10),
            shape: ShapeInfo::Path,
            polarity: Polarity::Dark,
        },
        Contribution {
            points: square_ring(2, 2, 4, 4),
            shape: ShapeInfo::Path,
            polarity: Polarity::Clear,
        },
    ];
    let set = accumulate(&contributions);
    assert_eq!(set.polygons.len(), 2);
    assert_eq!(set.polygons[0].role, FillRule::Outer);
    assert_eq!(set.polygons[1].role, FillRule::Hole);
}

#[test]
fn bounding_box_over_all_points() {
    let set = PolygonSet {
        polygons: vec![square_polygon(-5, 2, 10, 10), square_polygon(0, -3, 4, 20)],
    };
    let (mn, mx) = set.bounding_box().unwrap();
    assert_eq!((mn.x, mn.y, mx.x, mx.y), (-5, -3, 10, 20));
    let empty = PolygonSet { polygons: vec![] };
    assert!(empty.bounding_box().is_none());
}

#[test]
fn render_paths_hands_out_the_rings() {
    let set = PolygonSet { polygons: vec![square_polygon(0, 0, 3, 3)] };
    let paths = set.render_paths();
    assert_eq!(paths.len(), 1);
    assert_eq!(paths[0], square_ring(0, 0, 3, 3));
}

#[test]
fn offsetting_a_circle_shrinks_its_radius_and_area() {
    // Offsetting a convex circular region by r < radius keeps it a circle
    // (convex), with radius reduced exactly by r and strictly smaller area.
    let circle = Polygon {
        points: pcb_forge::shapes::circle_ring(Point { x: 0, y: 0 }, 5_000_000),
        role: FillRule::Outer,
        shape: ShapeInfo::Circle { center: Point { x: 0, y: 0 }, radius: 5_000_000 },
    };
    let (offset, warn) = offset_polygon(&circle, 1_000_000);
    assert!(!warn);
    assert_eq!(
        offset.shape,
        ShapeInfo::Circle { center: Point { x: 0, y: 0 }, radius: 4_000_000 }
    );
    assert_eq!(offset.points.len(), 16);
    let before = compute_area2(&circle.points);
    let after = compute_area2(&offset.points);
    assert!(after.abs() < before.abs());
    assert!(after != 0);
}

#[test]
fn offsetting_a_rect_insets_each_side() {
    let rect = square_polygon(0, 0, 10_000_000, 10_000_000);
    let (offset, warn) = offset_polygon(&rect, 500_000);
    assert!(!warn);
    assert_eq!(
        offset.shape,
        ShapeInfo::Rect {
            min: Point { x: 500_000, y: 500_000 },
            max: Point { x: 9_500_000, y: 9_500_000 },
        }
    );
}

#[test]
fn offsetting_a_narrow_rect_degenerates_to_a_centerline() {
    // A polygon narrower than twice the engagement radius becomes a
    // best-effort centerline pass with a tool-mismatch warning.
    let rect = square_polygon(0, 0, 10_000_000, 600_000);
    let (offset, warn) = offset_polygon(&rect, 500_000);
    assert!(warn);
    assert_eq!(offset.points.len(), 2);
    assert_eq!(offset.points[0].y, 300_000);
    assert_eq!(offset.points[1].y, 300_000);
}
