//! The geometry engine: folds drawing contributions into a layered polygon
//! model, applies polarity in draw order, simplifies the result, and answers
//! bounding-box and rendering queries.
//!
//! All coordinates are in nanometers. Polygons keep the shape they came from
//! (circle, axis-aligned rectangle, or free path), which lets offsetting be
//! exact for the closed shapes.

use vstd::prelude::*;

use crate::units::MAX_COORD_NM;

verus! {

/// Largest number of points one polygon ring may hold.
pub const MAX_RING_POINTS: usize = 1_000_000;

/// A 2D point in nanometers.
#[derive(Clone, Copy, PartialEq, Eq, Structural, Debug)]
pub struct Point {
    pub x: i64,
    pub y: i64,
}

/// Whether a polygon ring bounds copper or bounds a hole in copper.
#[derive(Clone, Copy, PartialEq, Eq, Structural, Debug)]
pub enum FillRule {
    Outer,
    Hole,
}

/// The closed shape a polygon ring approximates, kept so that offsetting and
/// area queries can be exact for circles and axis-aligned rectangles.
#[derive(Clone, Copy, PartialEq, Eq, Structural, Debug)]
pub enum ShapeInfo {
    Circle { center: Point, radius: i64 },
    Rect { min: Point, max: Point },
    Path,
}

/// Whether a primitive adds copper (`Dark`) or removes it (`Clear`).
#[derive(Clone, Copy, PartialEq, Eq, Structural, Debug)]
pub enum Polarity {
    Dark,
    Clear,
}

/// One closed polygon ring with its fill rule and source shape.
#[derive(Clone, Debug)]
pub struct Polygon {
    pub points: Vec<Point>,
    pub role: FillRule,
    pub shape: ShapeInfo,
}

/// The mathematical model of a `Polygon`.
pub struct GPolygon {
    pub ring: Seq<Point>,
    pub role: FillRule,
    pub shape: ShapeInfo,
}

impl View for Polygon {
    type V = GPolygon;

    open spec fn view(&self) -> GPolygon {
        GPolygon { ring: self.points@, role: self.role, shape: self.shape }
    }
}

/// One rasterized primitive, not yet folded into the copper model.
#[derive(Clone, Debug)]
pub struct Contribution {
    pub points: Vec<Point>,
    pub shape: ShapeInfo,
    pub polarity: Polarity,
}

/// The mathematical model of a `Contribution`.
pub struct GContribution {
    pub ring: Seq<Point>,
    pub shape: ShapeInfo,
    pub polarity: Polarity,
}

impl View for Contribution {
    type V = GContribution;

    open spec fn view(&self) -> GContribution {
        GContribution { ring: self.points@, shape: self.shape, polarity: self.polarity }
    }
}

/// A set of polygons: the copper mask model.
#[derive(Clone, Debug)]
pub struct PolygonSet {
    pub polygons: Vec<Polygon>,
}

impl View for PolygonSet {
    type V = Seq<GPolygon>;

    open spec fn view(&self) -> Seq<GPolygon> {
        Seq::new(self.polygons@.len(), |i: int| self.polygons@[i]@)
    }
}

/// Whether a coordinate lies in the supported range.
pub open spec fn coord_ok(c: int) -> bool {
    -MAX_COORD_NM <= c <= MAX_COORD_NM
}

/// Whether a point's coordinates lie in the supported range.
pub open spec fn point_ok(p: Point) -> bool {
    coord_ok(p.x as int) && coord_ok(p.y as int)
}

/// Well-formedness of a polygon ring: bounded length and coordinates.
pub open spec fn ring_wf(ring: Seq<Point>) -> bool {
    &&& ring.len() <= MAX_RING_POINTS
    &&& forall|i: int| 0 <= i < ring.len() ==> point_ok(#[trigger] ring[i])
}

/// Well-formedness of every ring in a polygon sequence.
pub open spec fn set_wf(s: Seq<GPolygon>) -> bool {
    forall|i: int| 0 <= i < s.len() ==> ring_wf(#[trigger] s[i].ring)
}

/// The index of the next point around the ring.
pub open spec fn ring_next(len: int, i: int) -> int {
    if i + 1 == len {
        0
    } else {
        i + 1
    }
}

/// The cross product term one edge adds to the shoelace sum.
pub open spec fn edge_cross(ring: Seq<Point>, i: int) -> int {
    ring[i].x * ring[ring_next(ring.len() as int, i)].y - ring[ring_next(ring.len() as int, i)].x
        * ring[i].y
}

/// The shoelace sum over the first `n` edges of the ring.
pub open spec fn area2_partial(ring: Seq<Point>, n: int) -> int
    decreases n,
{
    if n <= 0 {
        0
    } else {
        area2_partial(ring, n - 1) + edge_cross(ring, n - 1)
    }
}

/// Twice the signed area of the ring (the full shoelace sum).
pub open spec fn area2(ring: Seq<Point>) -> int {
    area2_partial(ring, ring.len() as int)
}

/// Whether a polygon contributes no area: fewer than three points, or a
/// zero shoelace sum (which also covers fully collapsed rings).
pub open spec fn degenerate(g: GPolygon) -> bool {
    g.ring.len() < 3 || area2(g.ring) == 0
}

/// One edge's cross term is bounded when the ring is well-formed.
proof fn lemma_edge_cross_bound(ring: Seq<Point>, i: int)
    requires
        ring_wf(ring),
        0 <= i < ring.len(),
    ensures
        -4_000_000_000_000_000_000_000_000 <= edge_cross(ring, i)
            <= 4_000_000_000_000_000_000_000_000,
{
    let j = ring_next(ring.len() as int, i);
    assert(point_ok(ring[i]));
    assert(point_ok(ring[j]));
    assert(-2_000_000_000_000_000_000_000_000 <= ring[i].x * ring[j].y
        <= 2_000_000_000_000_000_000_000_000) by (nonlinear_arith)
        requires
            -1_000_000_000_000 <= ring[i].x <= 1_000_000_000_000,
            -1_000_000_000_000 <= ring[j].y <= 1_000_000_000_000,
    ;
    assert(-2_000_000_000_000_000_000_000_000 <= ring[j].x * ring[i].y
        <= 2_000_000_000_000_000_000_000_000) by (nonlinear_arith)
        requires
            -1_000_000_000_000 <= ring[j].x <= 1_000_000_000_000,
            -1_000_000_000_000 <= ring[i].y <= 1_000_000_000_000,
    ;
}

/// The partial shoelace sum grows by at most the edge bound per step.
proof fn lemma_area2_partial_bound(ring: Seq<Point>, n: int)
    requires
        ring_wf(ring),
        0 <= n <= ring.len(),
    ensures
        -n * 4_000_000_000_000_000_000_000_000 <= area2_partial(ring, n) <= n
            * 4_000_000_000_000_000_000_000_000,
    decreases n,
{
    if n > 0 {
        lemma_area2_partial_bound(ring, n - 1);
        lemma_edge_cross_bound(ring, n - 1);
    }
}

/// Twice the signed area of a well-formed ring, computed exactly.
pub fn compute_area2(points: &Vec<Point>) -> (r: i128)
    requires
        ring_wf(points@),
    ensures
        r == area2(points@),
{
    let n = points.len();
    let mut acc: i128 = 0;
    let mut i: usize = 0;
    proof {
        lemma_area2_partial_bound(points@, n as int);
    }
    while i < n
        invariant
            0 <= i <= n == points@.len(),
            ring_wf(points@),
            acc == area2_partial(points@, i as int),
            -(i as int) * 4_000_000_000_000_000_000_000_000 <= acc <= (i as int)
                * 4_000_000_000_000_000_000_000_000,
            n <= MAX_RING_POINTS,
        decreases n - i,
    {
        let j = if i + 1 == n {
            0
        } else {
            i + 1
        };
        let p = points[i];
        let q = points[j];
        proof {
            lemma_edge_cross_bound(points@, i as int);
            lemma_area2_partial_bound(points@, i as int);
            assert(-2_000_000_000_000_000_000_000_000 <= (p.x as int) * (q.y as int)
                <= 2_000_000_000_000_000_000_000_000) by (nonlinear_arith)
                requires
                    -1_000_000_000_000 <= p.x as int <= 1_000_000_000_000,
                    -1_000_000_000_000 <= q.y as int <= 1_000_000_000_000,
            ;
            assert(-2_000_000_000_000_000_000_000_000 <= (q.x as int) * (p.y as int)
                <= 2_000_000_000_000_000_000_000_000) by (nonlinear_arith)
                requires
                    -1_000_000_000_000 <= q.x as int <= 1_000_000_000_000,
                    -1_000_000_000_000 <= p.y as int <= 1_000_000_000_000,
            ;
        }
        let cross: i128 = (p.x as i128) * (q.y as i128) - (q.x as i128) * (p.y as i128);
        acc = acc + cross;
        i = i + 1;
    }
    acc
}

/// Whether two polygons have the same ring and fill rule.
pub open spec fn same_poly(a: GPolygon, b: GPolygon) -> bool {
    a.ring == b.ring && a.role == b.role
}

/// Whether some element of `s` matches `p` in ring and fill rule.
pub open spec fn contains_same(s: Seq<GPolygon>, p: GPolygon) -> bool {
    exists|i: int| 0 <= i < s.len() && same_poly(#[trigger] s[i], p)
}

/// The simplification pass over the model: walking the set in order, a
/// polygon is kept unless it is degenerate or repeats the ring and fill rule
/// of an earlier kept polygon.
pub open spec fn simplify_spec(s: Seq<GPolygon>) -> Seq<GPolygon>
    decreases s.len(),
{
    if s.len() == 0 {
        Seq::empty()
    } else {
        let pre = simplify_spec(s.drop_last());
        if degenerate(s.last()) || contains_same(pre, s.last()) {
            pre
        } else {
            pre.push(s.last())
        }
    }
}

/// Every polygon that simplification keeps is non-degenerate and appears only
/// once.
pub proof fn lemma_simplify_clean(s: Seq<GPolygon>)
    ensures
        forall|i: int|
            0 <= i < simplify_spec(s).len() ==> !degenerate(#[trigger] simplify_spec(s)[i]),
        forall|i: int, j: int|
            0 <= i < j < simplify_spec(s).len() ==> !same_poly(
                #[trigger] simplify_spec(s)[i],
                #[trigger] simplify_spec(s)[j],
            ),
    decreases s.len(),
{
    if s.len() > 0 {
        lemma_simplify_clean(s.drop_last());
        let pre = simplify_spec(s.drop_last());
        if !(degenerate(s.last()) || contains_same(pre, s.last())) {
            assert forall|i: int, j: int|
                0 <= i < j < simplify_spec(s).len() implies !same_poly(
                simplify_spec(s)[i],
                simplify_spec(s)[j],
            ) by {
                if j == simplify_spec(s).len() - 1 {
                    assert(!contains_same(pre, s.last()));
                    assert(!same_poly(pre[i], s.last()));
                }
            }
        }
    }
}

/// Simplification leaves an already-clean set unchanged.
proof fn lemma_simplify_identity(s: Seq<GPolygon>)
    requires
        forall|i: int| 0 <= i < s.len() ==> !degenerate(#[trigger] s[i]),
        forall|i: int, j: int| 0 <= i < j < s.len() ==> !same_poly(#[trigger] s[i], #[trigger] s[j]),
    ensures
        simplify_spec(s) == s,
    decreases s.len(),
{
    if s.len() > 0 {
        lemma_simplify_identity(s.drop_last());
        let pre = simplify_spec(s.drop_last());
        assert(pre == s.drop_last());
        assert(!degenerate(s.last()));
        if contains_same(pre, s.last()) {
            let i = choose|i: int| 0 <= i < pre.len() && same_poly(#[trigger] pre[i], s.last());
            assert(same_poly(s[i], s[s.len() - 1]));
            assert(false);
        }
        assert(simplify_spec(s) == pre.push(s.last()));
        assert(pre.push(s.last()) =~= s);
    } else {
        assert(simplify_spec(s) =~= s);
    }
}

/// Simplification is idempotent: simplifying an already-simplified set
/// yields the same set.
pub proof fn lemma_simplify_idempotent(s: Seq<GPolygon>)
    ensures
        simplify_spec(simplify_spec(s)) == simplify_spec(s),
{
    lemma_simplify_clean(s);
    lemma_simplify_identity(simplify_spec(s));
}

/// Whether the rings of `a` and `b` are equal element by element.
pub fn rings_equal(a: &Vec<Point>, b: &Vec<Point>) -> (r: bool)
    ensures
        r == (a@ == b@),
{
    if a.len() != b.len() {
        proof {
            assert(a@.len() != b@.len());
        }
        return false;
    }
    let mut i: usize = 0;
    while i < a.len()
        invariant
            0 <= i <= a@.len() == b@.len(),
            forall|j: int| 0 <= j < i ==> a@[j] == b@[j],
        decreases a@.len() - i,
    {
        if a[i].x != b[i].x || a[i].y != b[i].y {
            return false;
        }
        i = i + 1;
    }
    proof {
        assert(a@ =~= b@);
    }
    true
}

/// Whether `kept` already holds a polygon with the same ring and fill rule.
fn contains_same_exec(kept: &Vec<Polygon>, p: &Polygon) -> (r: bool)
    ensures
        r == contains_same(Seq::new(kept@.len(), |i: int| kept@[i]@), p@),
{
    let ghost model = Seq::new(kept@.len(), |i: int| kept@[i]@);
    let mut i: usize = 0;
    while i < kept.len()
        invariant
            0 <= i <= kept@.len(),
            model == Seq::new(kept@.len(), |k: int| kept@[k]@),
            forall|j: int| 0 <= j < i ==> !same_poly(#[trigger] model[j], p@),
        decreases kept@.len() - i,
    {
        let role_matches = match (kept[i].role, p.role) {
            (FillRule::Outer, FillRule::Outer) => true,
            (FillRule::Hole, FillRule::Hole) => true,
            _ => false,
        };
        if role_matches && rings_equal(&kept[i].points, &p.points) {
            proof {
                assert(same_poly(model[i as int], p@));
            }
            return true;
        }
        i = i + 1;
    }
    false
}

/// Merges exactly coincident boundaries and drops degenerate polygons,
/// producing the simplified polygon set; the second result counts the
/// dropped polygons as recorded warnings.
///
/// Boundaries that merely overlap without coinciding are kept as separate
/// polygons of the layered model: their union is realized by the toolpath
/// sweeping each in turn, not by boundary reconstruction.
pub fn simplify(set: &PolygonSet) -> (r: (PolygonSet, usize))
    requires
        set_wf(set@),
    ensures
        r.0@ == simplify_spec(set@),
        set_wf(r.0@),
        r.1 == set@.len() - simplify_spec(set@).len(),
{
    let mut kept: Vec<Polygon> = Vec::new();
    let mut dropped: usize = 0;
    let mut i: usize = 0;
    proof {
        assert(set@.subrange(0, 0) =~= Seq::<GPolygon>::empty());
        assert(Seq::new(kept@.len(), |k: int| kept@[k]@) =~= simplify_spec(set@.subrange(0, 0)));
        lemma_simplify_len(set@, 0);
    }
    while i < set.polygons.len()
        invariant
            0 <= i <= set.polygons@.len(),
            set_wf(set@),
            set@.len() == set.polygons@.len(),
            Seq::new(kept@.len(), |k: int| kept@[k]@) == simplify_spec(set@.subrange(0, i as int)),
            set_wf(Seq::new(kept@.len(), |k: int| kept@[k]@)),
            dropped == i - simplify_spec(set@.subrange(0, i as int)).len(),
            kept@.len() <= i,
        decreases set.polygons@.len() - i,
    {
        let ghost pre_model = Seq::new(kept@.len(), |k: int| kept@[k]@);
        let ghost prefix = set@.subrange(0, i as int);
        let ghost prefix1 = set@.subrange(0, i as int + 1);
        proof {
            assert(prefix1.drop_last() =~= prefix);
            assert(prefix1.last() == set@[i as int]);
            assert(set@[i as int] == set.polygons@[i as int]@);
            assert(ring_wf(set@[i as int].ring));
            lemma_simplify_len(set@, i as int + 1);
        }
        let p = &set.polygons[i];
        let is_degenerate = if p.points.len() < 3 {
            true
        } else {
            let a = compute_area2(&p.points);
            a == 0
        };
        if is_degenerate {
            dropped = dropped + 1;
        } else if contains_same_exec(&kept, p) {
            dropped = dropped + 1;
        } else {
            let clone = Polygon { points: clone_points(&p.points), role: p.role, shape: p.shape };
            proof {
                assert(clone@ == set@[i as int]);
            }
            kept.push(clone);
            proof {
                assert(Seq::new(kept@.len(), |k: int| kept@[k]@) =~= pre_model.push(
                    set@[i as int],
                ));
            }
        }
        i = i + 1;
        proof {
            assert(Seq::new(kept@.len(), |k: int| kept@[k]@) =~= simplify_spec(prefix1));
        }
    }
    proof {
        assert(set@.subrange(0, set@.len() as int) =~= set@);
    }
    (PolygonSet { polygons: kept }, dropped)
}

/// The simplified set is never longer than its input.
proof fn lemma_simplify_len(s: Seq<GPolygon>, n: int)
    requires
        0 <= n <= s.len(),
    ensures
        simplify_spec(s.subrange(0, n)).len() <= n,
    decreases n,
{
    if n > 0 {
        lemma_simplify_len(s, n - 1);
        assert(s.subrange(0, n).drop_last() =~= s.subrange(0, n - 1));
    }
}

/// The least x coordinate of a non-empty ring.
pub open spec fn ring_min_x(ring: Seq<Point>) -> int
    decreases ring.len(),
{
    if ring.len() <= 1 {
        ring[0].x as int
    } else if ring.last().x < ring_min_x(ring.drop_last()) {
        ring.last().x as int
    } else {
        ring_min_x(ring.drop_last())
    }
}

/// The greatest x coordinate of a non-empty ring.
pub open spec fn ring_max_x(ring: Seq<Point>) -> int
    decreases ring.len(),
{
    if ring.len() <= 1 {
        ring[0].x as int
    } else if ring.last().x > ring_max_x(ring.drop_last()) {
        ring.last().x as int
    } else {
        ring_max_x(ring.drop_last())
    }
}

/// The least y coordinate of a non-empty ring.
pub open spec fn ring_min_y(ring: Seq<Point>) -> int
    decreases ring.len(),
{
    if ring.len() <= 1 {
        ring[0].y as int
    } else if ring.last().y < ring_min_y(ring.drop_last()) {
        ring.last().y as int
    } else {
        ring_min_y(ring.drop_last())
    }
}

/// The greatest y coordinate of a non-empty ring.
pub open spec fn ring_max_y(ring: Seq<Point>) -> int
    decreases ring.len(),
{
    if ring.len() <= 1 {
        ring[0].y as int
    } else if ring.last().y > ring_max_y(ring.drop_last()) {
        ring.last().y as int
    } else {
        ring_max_y(ring.drop_last())
    }
}

/// Whether `(x, y)` lies inside a non-empty ring's bounding box.
pub open spec fn in_ring_box(ring: Seq<Point>, x: int, y: int) -> bool {
    &&& ring.len() > 0
    &&& ring_min_x(ring) <= x <= ring_max_x(ring)
    &&& ring_min_y(ring) <= y <= ring_max_y(ring)
}

/// Where the tool's center may stand while engaged on this polygon: the
/// shape eroded inward by the engagement radius where the erosion is proper,
/// the best-effort centerline region where the polygon is too narrow for the
/// tool, and the ring's bounding box for a free path.
pub open spec fn eroded_region(g: GPolygon, eng: int, x: int, y: int) -> bool {
    match g.shape {
        ShapeInfo::Circle { center, radius } => if eng < radius {
            center.x - (radius - eng) <= x <= center.x + (radius - eng) && center.y - (radius
                - eng) <= y <= center.y + (radius - eng)
        } else {
            x == center.x && y == center.y
        },
        ShapeInfo::Rect { min, max } => if min.x + 2 * eng < max.x && min.y + 2 * eng < max.y {
            min.x + eng <= x <= max.x - eng && min.y + eng <= y <= max.y - eng
        } else {
            min.x <= x <= max.x && min.y <= y <= max.y
        },
        ShapeInfo::Path => in_ring_box(g.ring, x, y),
    }
}

/// Whether the set holds any hole polygon.
pub open spec fn has_holes_spec(s: Seq<GPolygon>) -> bool {
    exists|i: int| 0 <= i < s.len() && (#[trigger] s[i]).role == FillRule::Hole
}

/// Whether a shape covers the point `(x, y)`, circles taken by their
/// bounding box and free paths unconstrained.
pub open spec fn in_shape_box(shape: ShapeInfo, x: int, y: int) -> bool {
    match shape {
        ShapeInfo::Circle { center, radius } => center.x - radius <= x <= center.x + radius
            && center.y - radius <= y <= center.y + radius,
        ShapeInfo::Rect { min, max } => min.x <= x <= max.x && min.y <= y <= max.y,
        ShapeInfo::Path => true,
    }
}

/// Whether a polygon is an outer boundary with exactly this ring.
pub open spec fn outer_with_ring(g: GPolygon, ring: Seq<Point>) -> bool {
    g.role == FillRule::Outer && g.ring == ring
}

/// The index of the most recent outer polygon with exactly this ring.
pub open spec fn find_last_outer_eq(s: Seq<GPolygon>, ring: Seq<Point>) -> Option<int>
    decreases s.len(),
{
    if s.len() == 0 {
        None
    } else if outer_with_ring(s.last(), ring) {
        Some(s.len() - 1)
    } else {
        find_last_outer_eq(s.drop_last(), ring)
    }
}

/// `find_last_outer_eq` finds the last matching index, or reports none.
pub proof fn lemma_find_last_outer_eq(s: Seq<GPolygon>, ring: Seq<Point>)
    ensures
        match find_last_outer_eq(s, ring) {
            Some(i) => 0 <= i < s.len() && outer_with_ring(s[i], ring) && forall|k: int|
                i < k < s.len() ==> !outer_with_ring(#[trigger] s[k], ring),
            None => forall|k: int| 0 <= k < s.len() ==> !outer_with_ring(#[trigger] s[k], ring),
        },
    decreases s.len(),
{
    if s.len() > 0 {
        lemma_find_last_outer_eq(s.drop_last(), ring);
        if !outer_with_ring(s.last(), ring) {
            assert(forall|k: int|
                0 <= k < s.len() - 1 ==> s.drop_last()[k] == #[trigger] s[k]);
        }
    }
}

/// One contribution folded into the accumulated copper model: a `Dark`
/// polygon is unioned in as a new outer boundary; a `Clear` polygon cancels
/// the most recent outer boundary of exactly the same ring, or otherwise is
/// recorded as a hole.
pub open spec fn apply_contribution(s: Seq<GPolygon>, c: GContribution) -> Seq<GPolygon> {
    if c.polarity == Polarity::Dark {
        s.push(GPolygon { ring: c.ring, role: FillRule::Outer, shape: c.shape })
    } else {
        match find_last_outer_eq(s, c.ring) {
            Some(i) => s.remove(i),
            None => s.push(GPolygon { ring: c.ring, role: FillRule::Hole, shape: c.shape }),
        }
    }
}

/// The copper model after folding in every contribution, in draw order.
pub open spec fn accumulate_spec(cs: Seq<GContribution>) -> Seq<GPolygon>
    decreases cs.len(),
{
    if cs.len() == 0 {
        Seq::empty()
    } else {
        apply_contribution(accumulate_spec(cs.drop_last()), cs.last())
    }
}

/// Polarity correctness: a `Dark` region fully overlapped by a later `Clear`
/// region of equal shape yields an empty polygon set.
pub proof fn lemma_polarity_cancellation(ring: Seq<Point>, shape: ShapeInfo, shape2: ShapeInfo)
    ensures
        accumulate_spec(
            seq![
                GContribution { ring: ring, shape: shape, polarity: Polarity::Dark },
                GContribution { ring: ring, shape: shape2, polarity: Polarity::Clear },
            ],
        ) == Seq::<GPolygon>::empty(),
{
    let dark = GContribution { ring: ring, shape: shape, polarity: Polarity::Dark };
    let clear = GContribution { ring: ring, shape: shape2, polarity: Polarity::Clear };
    let cs = seq![dark, clear];
    assert(cs.drop_last() =~= seq![dark]);
    assert(seq![dark].drop_last() =~= Seq::<GContribution>::empty());
    assert(accumulate_spec(Seq::<GContribution>::empty()) == Seq::<GPolygon>::empty());
    assert(seq![dark].last() == dark);
    let one = accumulate_spec(seq![dark]);
    assert(one == apply_contribution(Seq::<GPolygon>::empty(), dark));
    assert(one == Seq::<GPolygon>::empty().push(
        GPolygon { ring: ring, role: FillRule::Outer, shape: shape },
    ));
    assert(one.len() == 1);
    assert(one.last() == GPolygon { ring: ring, role: FillRule::Outer, shape: shape });
    assert(outer_with_ring(one.last(), ring));
    assert(find_last_outer_eq(one, ring) == Some(0int));
    assert(cs.last() == clear);
    assert(accumulate_spec(cs) == apply_contribution(one, clear));
    assert(accumulate_spec(cs) == one.remove(0));
    assert(one.remove(0) =~= Seq::<GPolygon>::empty());
}

/// Folds rasterized contributions into the copper model in draw order,
/// applying polarity exactly as `accumulate_spec` states.
pub fn accumulate(contributions: &Vec<Contribution>) -> (r: PolygonSet)
    requires
        forall|i: int|
            0 <= i < contributions@.len() ==> ring_wf(#[trigger] contributions@[i]@.ring),
    ensures
        r@ == accumulate_spec(Seq::new(contributions@.len(), |i: int| contributions@[i]@)),
        set_wf(r@),
{
    let ghost cmodel = Seq::new(contributions@.len(), |i: int| contributions@[i]@);
    let mut acc: Vec<Polygon> = Vec::new();
    let mut i: usize = 0;
    proof {
        assert(cmodel.subrange(0, 0) =~= Seq::<GContribution>::empty());
        assert(Seq::new(acc@.len(), |k: int| acc@[k]@) =~= accumulate_spec(cmodel.subrange(0, 0)));
    }
    while i < contributions.len()
        invariant
            0 <= i <= contributions@.len(),
            cmodel == Seq::new(contributions@.len(), |k: int| contributions@[k]@),
            forall|k: int|
                0 <= k < contributions@.len() ==> ring_wf(#[trigger] contributions@[k]@.ring),
            Seq::new(acc@.len(), |k: int| acc@[k]@) == accumulate_spec(
                cmodel.subrange(0, i as int),
            ),
            set_wf(Seq::new(acc@.len(), |k: int| acc@[k]@)),
        decreases contributions@.len() - i,
    {
        let ghost pre_model = Seq::new(acc@.len(), |k: int| acc@[k]@);
        let ghost prefix1 = cmodel.subrange(0, i as int + 1);
        proof {
            assert(prefix1.drop_last() =~= cmodel.subrange(0, i as int));
            assert(prefix1.last() == cmodel[i as int]);
            assert(cmodel[i as int] == contributions@[i as int]@);
        }
        let c = &contributions[i];
        let is_dark = match c.polarity {
            Polarity::Dark => true,
            Polarity::Clear => false,
        };
        if is_dark {
            acc.push(
                Polygon {
                    points: clone_points(&c.points),
                    role: FillRule::Outer,
                    shape: c.shape,
                },
            );
            proof {
                assert(Seq::new(acc@.len(), |k: int| acc@[k]@) =~= pre_model.push(
                    GPolygon { ring: c@.ring, role: FillRule::Outer, shape: c@.shape },
                ));
            }
        } else {
            proof {
                lemma_find_last_outer_eq(pre_model, c@.ring);
            }
            // Search backward for the most recent outer boundary of equal ring.
            let mut found: Option<usize> = None;
            let mut j: usize = acc.len();
            while found.is_none() && j > 0
                invariant
                    0 <= j <= acc@.len(),
                    pre_model == Seq::new(acc@.len(), |k: int| acc@[k]@),
                    match found {
                        None => forall|k: int|
                            j <= k < acc@.len() ==> !outer_with_ring(
                                #[trigger] pre_model[k],
                                c@.ring,
                            ),
                        Some(f) => 0 <= f < acc@.len() && outer_with_ring(
                            pre_model[f as int],
                            c@.ring,
                        ) && forall|k: int|
                            f < k < acc@.len() ==> !outer_with_ring(
                                #[trigger] pre_model[k],
                                c@.ring,
                            ),
                    },
                decreases j,
            {
                j = j - 1;
                let is_outer = match acc[j].role {
                    FillRule::Outer => true,
                    FillRule::Hole => false,
                };
                if is_outer && rings_equal(&acc[j].points, &c.points) {
                    proof {
                        assert(outer_with_ring(pre_model[j as int], c@.ring));
                    }
                    found = Some(j);
                }
            }
            match found {
                Some(idx) => {
                    proof {
                        assert(find_last_outer_eq(pre_model, c@.ring) == Some(idx as int));
                    }
                    acc.remove(idx);
                    proof {
                        assert(Seq::new(acc@.len(), |k: int| acc@[k]@) =~= pre_model.remove(
                            idx as int,
                        ));
                    }
                },
                None => {
                    proof {
                        assert(find_last_outer_eq(pre_model, c@.ring) is None);
                    }
                    acc.push(
                        Polygon {
                            points: clone_points(&c.points),
                            role: FillRule::Hole,
                            shape: c.shape,
                        },
                    );
                    proof {
                        assert(Seq::new(acc@.len(), |k: int| acc@[k]@) =~= pre_model.push(
                            GPolygon { ring: c@.ring, role: FillRule::Hole, shape: c@.shape },
                        ));
                    }
                },
            }
        }
        i = i + 1;
        proof {
            assert(Seq::new(acc@.len(), |k: int| acc@[k]@) =~= accumulate_spec(prefix1));
        }
    }
    proof {
        assert(cmodel.subrange(0, cmodel.len() as int) =~= cmodel);
    }
    PolygonSet { polygons: acc }
}

/// A copy of a point ring.
pub fn clone_points(points: &Vec<Point>) -> (r: Vec<Point>)
    ensures
        r@ == points@,
{
    let mut out: Vec<Point> = Vec::new();
    let mut i: usize = 0;
    while i < points.len()
        invariant
            0 <= i <= points@.len(),
            out@ == points@.subrange(0, i as int),
        decreases points@.len() - i,
    {
        out.push(points[i]);
        proof {
            assert(out@ =~= points@.subrange(0, i as int + 1));
        }
        i = i + 1;
    }
    proof {
        assert(points@.subrange(0, points@.len() as int) =~= points@);
    }
    out
}

/// Whether a point lies within the inclusive box from `mn` to `mx`.
pub open spec fn in_box(mn: Point, mx: Point, p: Point) -> bool {
    mn.x <= p.x <= mx.x && mn.y <= p.y <= mx.y
}

/// What a bounding-box query must return of a polygon set: `None` exactly
/// when the set holds no point; otherwise a box that bounds every point and
/// whose four sides are each attained by some point.
pub open spec fn bbox_char(s: Seq<GPolygon>, r: Option<(Point, Point)>) -> bool {
    match r {
        Some(b) => {
            &&& forall|a: int, j: int|
                0 <= a < s.len() && 0 <= j < s[a].ring.len() ==> in_box(
                    b.0,
                    b.1,
                    #[trigger] s[a].ring[j],
                )
            &&& exists|a: int, j: int|
                0 <= a < s.len() && 0 <= j < s[a].ring.len() && (#[trigger] s[a].ring[j]).x
                    == b.0.x
            &&& exists|a: int, j: int|
                0 <= a < s.len() && 0 <= j < s[a].ring.len() && (#[trigger] s[a].ring[j]).x
                    == b.1.x
            &&& exists|a: int, j: int|
                0 <= a < s.len() && 0 <= j < s[a].ring.len() && (#[trigger] s[a].ring[j]).y
                    == b.0.y
            &&& exists|a: int, j: int|
                0 <= a < s.len() && 0 <= j < s[a].ring.len() && (#[trigger] s[a].ring[j]).y
                    == b.1.y
        },
        None => forall|a: int| 0 <= a < s.len() ==> (#[trigger] s[a]).ring.len() == 0,
    }
}

/// What a rendering query must return of a polygon set: one plain path per
/// polygon, each equal to its ring, in set order.
pub open spec fn paths_match(s: Seq<GPolygon>, r: Seq<Vec<Point>>) -> bool {
    &&& r.len() == s.len()
    &&& forall|i: int| 0 <= i < r.len() ==> #[trigger] r[i]@ == s[i].ring
}

impl PolygonSet {
    /// The bounding box over every point of every polygon: `None` exactly
    /// when the set holds no point at all; otherwise the box bounds every
    /// point and each of its four sides is attained by some point.
    pub fn bounding_box(&self) -> (r: Option<(Point, Point)>)
        ensures
            bbox_char(self@, r),
    {
        let mut found = false;
        let mut mn = Point { x: 0, y: 0 };
        let mut mx = Point { x: 0, y: 0 };
        let mut a: usize = 0;
        while a < self.polygons.len()
            invariant
                0 <= a <= self.polygons@.len(),
                self@.len() == self.polygons@.len(),
                !found ==> forall|q: int| 0 <= q < a ==> self@[q].ring.len() == 0,
                found ==> mn.x <= mx.x && mn.y <= mx.y,
                found ==> forall|q: int, j: int|
                    0 <= q < a && 0 <= j < self@[q].ring.len() ==> in_box(
                        mn,
                        mx,
                        #[trigger] self@[q].ring[j],
                    ),
                found ==> exists|q: int, j: int|
                    0 <= q < self@.len() && 0 <= j < self@[q].ring.len() && (
                    #[trigger] self@[q].ring[j]).x == mn.x,
                found ==> exists|q: int, j: int|
                    0 <= q < self@.len() && 0 <= j < self@[q].ring.len() && (
                    #[trigger] self@[q].ring[j]).x == mx.x,
                found ==> exists|q: int, j: int|
                    0 <= q < self@.len() && 0 <= j < self@[q].ring.len() && (
                    #[trigger] self@[q].ring[j]).y == mn.y,
                found ==> exists|q: int, j: int|
                    0 <= q < self@.len() && 0 <= j < self@[q].ring.len() && (
                    #[trigger] self@[q].ring[j]).y == mx.y,
            decreases self.polygons@.len() - a,
        {
            let pts = &self.polygons[a].points;
            proof {
                assert(self@[a as int] == self.polygons@[a as int]@);
            }
            let mut j: usize = 0;
            while j < pts.len()
                invariant
                    0 <= j <= pts@.len(),
                    0 <= a < self.polygons@.len(),
                    self@.len() == self.polygons@.len(),
                    pts@ == self@[a as int].ring,
                    !found ==> j == 0,
                    !found ==> forall|q: int| 0 <= q < a ==> self@[q].ring.len() == 0,
                    found ==> mn.x <= mx.x && mn.y <= mx.y,
                    found ==> forall|q: int, jj: int|
                        0 <= q < a && 0 <= jj < self@[q].ring.len() ==> in_box(
                            mn,
                            mx,
                            #[trigger] self@[q].ring[jj],
                        ),
                    found ==> forall|jj: int|
                        0 <= jj < j ==> in_box(mn, mx, #[trigger] self@[a as int].ring[jj]),
                    found ==> exists|q: int, jj: int|
                        0 <= q < self@.len() && 0 <= jj < self@[q].ring.len() && (
                        #[trigger] self@[q].ring[jj]).x == mn.x,
                    found ==> exists|q: int, jj: int|
                        0 <= q < self@.len() && 0 <= jj < self@[q].ring.len() && (
                        #[trigger] self@[q].ring[jj]).x == mx.x,
                    found ==> exists|q: int, jj: int|
                        0 <= q < self@.len() && 0 <= jj < self@[q].ring.len() && (
                        #[trigger] self@[q].ring[jj]).y == mn.y,
                    found ==> exists|q: int, jj: int|
                        0 <= q < self@.len() && 0 <= jj < self@[q].ring.len() && (
                        #[trigger] self@[q].ring[jj]).y == mx.y,
                decreases pts@.len() - j,
            {
                let p = pts[j];
                proof {
                    assert(self@[a as int].ring[j as int] == p);
                }
                if !found {
                    mn = p;
                    mx = p;
                    found = true;
                } else {
                    if p.x < mn.x {
                        mn = Point { x: p.x, y: mn.y };
                    }
                    if p.x > mx.x {
                        mx = Point { x: p.x, y: mx.y };
                    }
                    if p.y < mn.y {
                        mn = Point { x: mn.x, y: p.y };
                    }
                    if p.y > mx.y {
                        mx = Point { x: mx.x, y: p.y };
                    }
                }
                j = j + 1;
            }
            a = a + 1;
        }
        if found {
            Some((mn, mx))
        } else {
            None
        }
    }

    /// The polygon rings as plain 2D vector paths, in set order, for an
    /// external diagnostic renderer.
    pub fn render_paths(&self) -> (r: Vec<Vec<Point>>)
        ensures
            paths_match(self@, r@),
    {
        let mut out: Vec<Vec<Point>> = Vec::new();
        let mut i: usize = 0;
        while i < self.polygons.len()
            invariant
                0 <= i <= self.polygons@.len(),
                self@.len() == self.polygons@.len(),
                out@.len() == i,
                forall|k: int| 0 <= k < i ==> #[trigger] out@[k]@ == self@[k].ring,
            decreases self.polygons@.len() - i,
        {
            proof {
                assert(self@[i as int] == self.polygons@[i as int]@);
            }
            out.push(clone_points(&self.polygons[i].points));
            i = i + 1;
        }
        out
    }
}

} // verus!
