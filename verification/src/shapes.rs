//! Rasterization of drawing shapes into polygon rings, and inward offsetting
//! of polygons by the tool's engagement radius.
//!
//! Circles are approximated as regular 16-gons through a fixed-point chord
//! table; draws become hexagonal capsules around their segment. Every
//! generated vertex is proved to stay inside the shape's bounding box.

use vstd::prelude::*;

use crate::geometry::{coord_ok, eroded_region, in_ring_box, in_shape_box, point_ok, ring_min_x, ring_max_x, ring_min_y, ring_max_y, ring_wf, GPolygon, Point, Polygon, ShapeInfo};
use crate::units::MAX_COORD_NM;

verus! {

/// The fixed-point scale of the chord table: offsets are factors over 32768.
pub const TRIG_ONE: i64 = 32768;

/// The integer square root: the largest `r` with `r * r <= n`.
pub fn isqrt(n: u128) -> (r: u64)
    requires
        n < 77_371_252_455_336_267_181_195_264,  // 2^86
    ensures
        r * r <= n < (r + 1) * (r + 1),
{
    if n == 0 {
        return 0;
    }
    let mut lo: u64 = 0;
    let mut hi: u64 = 8_796_093_022_208;  // 2^43
    proof {
        assert((8_796_093_022_208 as u128) * (8_796_093_022_208 as u128)
            == 77_371_252_455_336_267_181_195_264) by (nonlinear_arith);
        assert((lo as u128) * (lo as u128) == 0) by (nonlinear_arith)
            requires
                lo == 0,
        ;
    }
    while hi - lo > 1
        invariant
            0 <= lo < hi <= 8_796_093_022_208,
            (lo as u128) * (lo as u128) <= n,
            n < (hi as u128) * (hi as u128),
        decreases hi - lo,
    {
        let mid = lo + (hi - lo) / 2;
        proof {
            assert((mid as u128) * (mid as u128) <= 77_371_252_455_336_267_181_195_264)
                by (nonlinear_arith)
                requires
                    0 <= mid as u128 <= 8_796_093_022_208,
            ;
        }
        let sq: u128 = (mid as u128) * (mid as u128);
        if sq <= n {
            lo = mid;
        } else {
            hi = mid;
        }
    }
    proof {
        assert(hi == lo + 1);
        assert(((lo + 1) as u128) * ((lo + 1) as u128) == (hi as u128) * (hi as u128));
    }
    lo
}

/// The value `radius * factor / 32768` rounded toward zero: the exact
/// fixed-point scaling a chord-table entry applies to the radius.
pub open spec fn scaled_offset_spec(radius: int, factor: int) -> int {
    if factor >= 0 {
        (radius * factor) / 32768
    } else {
        -((radius * (-factor)) / 32768)
    }
}

/// `radius` scaled by `factor / 32768`, exactly as `scaled_offset_spec`
/// states; the result never exceeds the radius in magnitude.
fn scaled_offset(radius: i64, factor: i64) -> (r: i64)
    requires
        0 <= radius <= MAX_COORD_NM,
        -TRIG_ONE <= factor <= TRIG_ONE,
    ensures
        r as int == scaled_offset_spec(radius as int, factor as int),
        -radius <= r <= radius,
{
    let mag_factor: i64 = if factor >= 0 {
        factor
    } else {
        -factor
    };
    proof {
        assert(0 <= (radius as int) * (mag_factor as int) <= 100_000_000_000_000_000)
            by (nonlinear_arith)
            requires
                0 <= radius as int <= 1_000_000_000_000,
                0 <= mag_factor as int <= 32768,
        ;
        assert((radius as int) * (mag_factor as int) <= (radius as int) * 32768)
            by (nonlinear_arith)
            requires
                0 <= radius as int,
                0 <= mag_factor as int <= 32768,
        ;
        vstd::arithmetic::div_mod::lemma_div_is_ordered(
            (radius as int) * (mag_factor as int),
            (radius as int) * 32768,
            32768,
        );
        vstd::arithmetic::div_mod::lemma_div_is_ordered(
            0,
            (radius as int) * (mag_factor as int),
            32768,
        );
        vstd::arithmetic::div_mod::lemma_div_by_multiple(radius as int, 32768);
        assert(0int / 32768 == 0);
    }
    let mag: i64 = ((radius as i128) * (mag_factor as i128) / (TRIG_ONE as i128)) as i64;
    if factor >= 0 {
        mag
    } else {
        -mag
    }
}

/// The fixed-point cosine of the `k`-th sixteenth of a full turn.
pub open spec fn chord_cos(k: int) -> int {
    if k == 0 {
        32768
    } else if k == 1 {
        30274
    } else if k == 2 {
        23170
    } else if k == 3 {
        12540
    } else if k == 4 {
        0
    } else if k == 5 {
        -12540
    } else if k == 6 {
        -23170
    } else if k == 7 {
        -30274
    } else if k == 8 {
        -32768
    } else if k == 9 {
        -30274
    } else if k == 10 {
        -23170
    } else if k == 11 {
        -12540
    } else if k == 12 {
        0
    } else if k == 13 {
        12540
    } else if k == 14 {
        23170
    } else {
        30274
    }
}

/// The fixed-point sine of the `k`-th sixteenth of a full turn.
pub open spec fn chord_sin(k: int) -> int {
    if k == 0 {
        0
    } else if k == 1 {
        12540
    } else if k == 2 {
        23170
    } else if k == 3 {
        30274
    } else if k == 4 {
        32768
    } else if k == 5 {
        30274
    } else if k == 6 {
        23170
    } else if k == 7 {
        12540
    } else if k == 8 {
        0
    } else if k == 9 {
        -12540
    } else if k == 10 {
        -23170
    } else if k == 11 {
        -30274
    } else if k == 12 {
        -32768
    } else if k == 13 {
        -30274
    } else if k == 14 {
        -23170
    } else {
        -12540
    }
}

/// The chord table: the fixed-point cosine and sine of each sixteenth of a
/// full turn.
fn chord_entry(k: usize) -> (r: (i64, i64))
    requires
        k < 16,
    ensures
        r.0 as int == chord_cos(k as int),
        r.1 as int == chord_sin(k as int),
        -TRIG_ONE <= r.0 <= TRIG_ONE,
        -TRIG_ONE <= r.1 <= TRIG_ONE,
{
    match k {
        0 => (32768, 0),
        1 => (30274, 12540),
        2 => (23170, 23170),
        3 => (12540, 30274),
        4 => (0, 32768),
        5 => (-12540, 30274),
        6 => (-23170, 23170),
        7 => (-30274, 12540),
        8 => (-32768, 0),
        9 => (-30274, -12540),
        10 => (-23170, -23170),
        11 => (-12540, -30274),
        12 => (0, -32768),
        13 => (12540, -30274),
        14 => (23170, -23170),
        _ => (30274, -12540),
    }
}

/// A circle approximated as a regular 16-gon: vertex `k` stands exactly at
/// the center displaced by the radius scaled through the chord table's
/// cosine and sine for the `k`-th sixteenth of a turn, so every vertex stays
/// inside the circle's bounding box.
pub fn circle_ring(center: Point, radius: i64) -> (r: Vec<Point>)
    requires
        0 < radius <= MAX_COORD_NM,
        coord_ok(center.x - radius),
        coord_ok(center.x + radius),
        coord_ok(center.y - radius),
        coord_ok(center.y + radius),
    ensures
        r@.len() == 16,
        ring_wf(r@),
        forall|i: int|
            0 <= i < r@.len() ==> (#[trigger] r@[i]).x as int == center.x + scaled_offset_spec(
                radius as int,
                chord_cos(i),
            ) && r@[i].y as int == center.y + scaled_offset_spec(radius as int, chord_sin(i)),
        forall|i: int|
            0 <= i < r@.len() ==> center.x - radius <= (#[trigger] r@[i]).x <= center.x + radius
                && center.y - radius <= r@[i].y <= center.y + radius,
{
    let mut out: Vec<Point> = Vec::new();
    let mut k: usize = 0;
    while k < 16
        invariant
            0 <= k <= 16,
            out@.len() == k,
            0 < radius <= MAX_COORD_NM,
            coord_ok(center.x - radius),
            coord_ok(center.x + radius),
            coord_ok(center.y - radius),
            coord_ok(center.y + radius),
            forall|i: int|
                0 <= i < out@.len() ==> (#[trigger] out@[i]).x as int == center.x
                    + scaled_offset_spec(radius as int, chord_cos(i)) && out@[i].y as int
                    == center.y + scaled_offset_spec(radius as int, chord_sin(i)),
            forall|i: int|
                0 <= i < out@.len() ==> center.x - radius <= (#[trigger] out@[i]).x <= center.x
                    + radius && center.y - radius <= out@[i].y <= center.y + radius,
        decreases 16 - k,
    {
        let (c, s) = chord_entry(k);
        let ox = scaled_offset(radius, c);
        let oy = scaled_offset(radius, s);
        out.push(Point { x: center.x + ox, y: center.y + oy });
        k = k + 1;
    }
    out
}

/// An axis-aligned rectangle as a 4-point ring, counter-clockwise.
pub fn rect_ring(min: Point, max: Point) -> (r: Vec<Point>)
    requires
        point_ok(min),
        point_ok(max),
        min.x <= max.x,
        min.y <= max.y,
    ensures
        r@.len() == 4,
        ring_wf(r@),
        r@[0] == (Point { x: min.x, y: min.y }),
        r@[1] == (Point { x: max.x, y: min.y }),
        r@[2] == (Point { x: max.x, y: max.y }),
        r@[3] == (Point { x: min.x, y: max.y }),
{
    let mut out: Vec<Point> = Vec::new();
    out.push(Point { x: min.x, y: min.y });
    out.push(Point { x: max.x, y: min.y });
    out.push(Point { x: max.x, y: max.y });
    out.push(Point { x: min.x, y: max.y });
    out
}

/// The smaller of two coordinates.
fn coord_min(a: i64, b: i64) -> (r: i64)
    ensures
        r == if a <= b {
            a as int
        } else {
            b as int
        },
{
    if a <= b {
        a
    } else {
        b
    }
}

/// The larger of two coordinates.
fn coord_max(a: i64, b: i64) -> (r: i64)
    ensures
        r == if a >= b {
            a as int
        } else {
            b as int
        },
{
    if a >= b {
        a
    } else {
        b
    }
}

/// The value `num * radius / len` rounded toward zero and clamped to the
/// radius in magnitude: one component of a normalized direction scaled to
/// the stroke radius.
pub open spec fn direction_offset_spec(num: int, radius: int, len: int) -> int {
    if num >= 0 {
        let q = (num * radius) / len;
        if q > radius {
            radius
        } else {
            q
        }
    } else {
        let q = ((-num) * radius) / len;
        if q > radius {
            -radius
        } else {
            -q
        }
    }
}

/// One component of a normalized direction scaled to `radius`, exactly as
/// `direction_offset_spec` states and clamped to the radius in magnitude.
fn direction_offset(num: i64, radius: i64, len: i64) -> (r: i64)
    requires
        -4_000_000_000_000 <= num <= 4_000_000_000_000,
        0 <= radius <= MAX_COORD_NM,
        1 <= len,
    ensures
        r as int == direction_offset_spec(num as int, radius as int, len as int),
        -radius <= r <= radius,
{
    let mag_num: i64 = if num >= 0 {
        num
    } else {
        -num
    };
    proof {
        assert(0 <= (mag_num as int) * (radius as int) <= 4_000_000_000_000_000_000_000_000)
            by (nonlinear_arith)
            requires
                0 <= mag_num as int <= 4_000_000_000_000,
                0 <= radius as int <= 1_000_000_000_000,
        ;
        vstd::arithmetic::div_mod::lemma_div_is_ordered(
            0,
            (mag_num as int) * (radius as int),
            len as int,
        );
        assert(0int / (len as int) == 0);
    }
    let wide: i128 = (mag_num as i128) * (radius as i128) / (len as i128);
    let mag: i64 = if wide > radius as i128 {
        radius
    } else {
        wide as i64
    };
    if num >= 0 {
        mag
    } else {
        -mag
    }
}

/// A draw stroke as a hexagonal capsule around the segment from `a` to `b`;
/// every vertex stays inside the segment's bounding box expanded by the
/// stroke radius.
pub fn capsule_ring(a: Point, b: Point, radius: i64) -> (r: Vec<Point>)
    requires
        0 < radius <= MAX_COORD_NM,
        coord_ok(a.x - radius),
        coord_ok(a.x + radius),
        coord_ok(a.y - radius),
        coord_ok(a.y + radius),
        coord_ok(b.x - radius),
        coord_ok(b.x + radius),
        coord_ok(b.y - radius),
        coord_ok(b.y + radius),
    ensures
        3 <= r@.len() <= 16,
        ring_wf(r@),
        (a.x == b.x && a.y == b.y) ==> r@.len() == 16 && forall|i: int|
            0 <= i < r@.len() ==> (#[trigger] r@[i]).x as int == a.x + scaled_offset_spec(
                radius as int,
                chord_cos(i),
            ) && r@[i].y as int == a.y + scaled_offset_spec(radius as int, chord_sin(i)),
        !(a.x == b.x && a.y == b.y) ==> r@.len() == 6 && (exists|l: int|
            {
                let dx = b.x - a.x;
                let dy = b.y - a.y;
                let nx = direction_offset_spec(-dy, radius as int, l);
                let ny = direction_offset_spec(dx, radius as int, l);
                let tx = direction_offset_spec(dx, radius as int, l);
                let ty = direction_offset_spec(dy, radius as int, l);
                &&& 1 <= #[trigger] (l * l) <= dx * dx + dy * dy
                &&& dx * dx + dy * dy < (l + 1) * (l + 1)
                &&& r@[0].x == a.x + nx && r@[0].y == a.y + ny
                &&& r@[1].x == b.x + nx && r@[1].y == b.y + ny
                &&& r@[2].x == b.x + tx && r@[2].y == b.y + ty
                &&& r@[3].x == b.x - nx && r@[3].y == b.y - ny
                &&& r@[4].x == a.x - nx && r@[4].y == a.y - ny
                &&& r@[5].x == a.x - tx && r@[5].y == a.y - ty
            }),
        forall|i: int|
            0 <= i < r@.len() ==> {
                let lo_x = if a.x <= b.x {
                    a.x as int
                } else {
                    b.x as int
                };
                let hi_x = if a.x >= b.x {
                    a.x as int
                } else {
                    b.x as int
                };
                let lo_y = if a.y <= b.y {
                    a.y as int
                } else {
                    b.y as int
                };
                let hi_y = if a.y >= b.y {
                    a.y as int
                } else {
                    b.y as int
                };
                lo_x - radius <= (#[trigger] r@[i]).x <= hi_x + radius && lo_y - radius <= r@[i].y
                    <= hi_y + radius
            },
{
    let dx = b.x - a.x;
    let dy = b.y - a.y;
    proof {
        assert(dx as i128 * dx as i128 <= 16_000_000_000_000_000_000_000_000
            && dx as i128 * dx as i128 >= 0) by (nonlinear_arith)
            requires
                -4_000_000_000_000 <= dx as i128 <= 4_000_000_000_000,
        ;
        assert(dy as i128 * dy as i128 <= 16_000_000_000_000_000_000_000_000
            && dy as i128 * dy as i128 >= 0) by (nonlinear_arith)
            requires
                -4_000_000_000_000 <= dy as i128 <= 4_000_000_000_000,
        ;
    }
    let n2: u128 = (dx as i128 * dx as i128 + dy as i128 * dy as i128) as u128;
    proof {
        assert(n2 == (dx as int) * (dx as int) + (dy as int) * (dy as int));
        if dx != 0 || dy != 0 {
            assert((dx as int) * (dx as int) + (dy as int) * (dy as int) > 0) by (nonlinear_arith)
                requires
                    dx != 0 || dy != 0,
            ;
        }
        if dx == 0 && dy == 0 {
            assert((dx as int) * (dx as int) + (dy as int) * (dy as int) == 0)
                by (nonlinear_arith)
                requires
                    dx as int == 0,
                    dy as int == 0,
            ;
        }
    }
    let len = isqrt(n2);
    if len == 0 {
        proof {
            assert(((len as u128) + 1) * ((len as u128) + 1) == 1) by (nonlinear_arith)
                requires
                    len == 0,
            ;
            assert(n2 < 1);
            assert((dx as int) * (dx as int) >= 0 && (dy as int) * (dy as int) >= 0)
                by (nonlinear_arith);
            assert(a.x == b.x && a.y == b.y);
        }
        return circle_ring(a, radius);
    }
    proof {
        assert((len as u128) * (len as u128) >= 1) by (nonlinear_arith)
            requires
                len >= 1,
        ;
        assert(n2 >= 1);
        if a.x == b.x && a.y == b.y {
            assert(n2 == 0);
            assert(false);
        }
    }
    let l = len as i64;
    proof {
        assert((len as u128) * (len as u128) <= n2);
        assert(len as u128 <= 6_000_000_000_000) by (nonlinear_arith)
            requires
                (len as u128) * (len as u128) <= 32_000_000_000_000_000_000_000_000,
        ;
    }
    let nx = direction_offset(-dy, radius, l);
    let ny = direction_offset(dx, radius, l);
    let tx = direction_offset(dx, radius, l);
    let ty = direction_offset(dy, radius, l);
    let mut out: Vec<Point> = Vec::new();
    out.push(Point { x: a.x + nx, y: a.y + ny });
    out.push(Point { x: b.x + nx, y: b.y + ny });
    out.push(Point { x: b.x + tx, y: b.y + ty });
    out.push(Point { x: b.x - nx, y: b.y - ny });
    out.push(Point { x: a.x - nx, y: a.y - ny });
    out.push(Point { x: a.x - tx, y: a.y - ty });
    proof {
        let li = l as int;
        assert(1 <= li * li) by (nonlinear_arith)
            requires
                1 <= li,
        ;
        assert(li * li <= (dx as int) * (dx as int) + (dy as int) * (dy as int));
        assert((dx as int) * (dx as int) + (dy as int) * (dy as int) < (li + 1) * (li + 1));
        assert({
            let dxs = b.x - a.x;
            let dys = b.y - a.y;
            let nxs = direction_offset_spec(-dys, radius as int, li);
            let nys = direction_offset_spec(dxs, radius as int, li);
            let txs = direction_offset_spec(dxs, radius as int, li);
            let tys = direction_offset_spec(dys, radius as int, li);
            &&& 1 <= (li * li) <= dxs * dxs + dys * dys
            &&& dxs * dxs + dys * dys < (li + 1) * (li + 1)
            &&& out@[0].x == a.x + nxs && out@[0].y == a.y + nys
            &&& out@[1].x == b.x + nxs && out@[1].y == b.y + nys
            &&& out@[2].x == b.x + txs && out@[2].y == b.y + tys
            &&& out@[3].x == b.x - nxs && out@[3].y == b.y - nys
            &&& out@[4].x == a.x - nxs && out@[4].y == a.y - nys
            &&& out@[5].x == a.x - txs && out@[5].y == a.y - tys
        });
    }
    out
}

/// Whether a circle's inward offset by `eng` is proper: the radius strictly
/// exceeds the engagement radius and the circle lies in the supported range.
pub open spec fn proper_circle(g: GPolygon, eng: int) -> bool {
    match g.shape {
        ShapeInfo::Circle { center, radius } => 0 < radius && eng < radius && radius
            <= MAX_COORD_NM && center.x >= -MAX_COORD_NM + radius && center.x <= MAX_COORD_NM
            - radius && center.y >= -MAX_COORD_NM + radius && center.y <= MAX_COORD_NM - radius,
        _ => false,
    }
}

/// Whether a rectangle's inward offset by `eng` is proper: both extents
/// strictly exceed twice the engagement radius.
pub open spec fn proper_rect(g: GPolygon, eng: int) -> bool {
    match g.shape {
        ShapeInfo::Rect { min, max } => point_ok(min) && point_ok(max) && min.x + 2 * eng < max.x
            && min.y + 2 * eng < max.y,
        _ => false,
    }
}

/// How many points the inward offset of a polygon holds: the 16-gon or
/// 4-corner ring where the erosion is proper, the 1- or 2-point centerline
/// where the polygon is too narrow, nothing where it cannot be placed.
pub open spec fn offset_ring_len(g: GPolygon, eng: int) -> int {
    match g.shape {
        ShapeInfo::Circle { .. } => if proper_circle(g, eng) {
            16
        } else if shape_pathable(g) {
            1
        } else {
            0
        },
        ShapeInfo::Rect { .. } => if proper_rect(g, eng) {
            4
        } else if shape_pathable(g) {
            2
        } else {
            0
        },
        ShapeInfo::Path => if g.ring.len() > 0 {
            2
        } else {
            0
        },
    }
}

/// Whether a polygon yields any tool path at all under erosion: circles and
/// rectangles with sane descriptors always do (a centerline at worst), and a
/// free path does exactly when its ring is non-empty.
pub open spec fn shape_pathable(g: GPolygon) -> bool {
    match g.shape {
        ShapeInfo::Circle { center, radius } => point_ok(center) && radius >= 0,
        ShapeInfo::Rect { min, max } => point_ok(min) && point_ok(max) && min.x <= max.x && min.y
            <= max.y,
        ShapeInfo::Path => g.ring.len() > 0,
    }
}

/// Offsetting a convex circular region inward by `r` with `0 < r < R` yields
/// again a circular region — convex by shape — whose radius is exactly
/// `R - r`: the region strictly shrinks, and its squared radius, to which its
/// area is proportional, strictly decreases.
pub proof fn lemma_offset_circle_area(radius: int, r: int)
    requires
        0 < r < radius,
    ensures
        0 < radius - r < radius,
        (radius - r) * (radius - r) < radius * radius,
{
    assert((radius - r) * (radius - r) < radius * radius) by (nonlinear_arith)
        requires
            0 < r < radius,
    ;
}

/// Erodes one polygon inward by the engagement radius `r`, finding the
/// tool-center boundary path.
///
/// Circles shrink to circles of radius reduced by `r`, rectangles to
/// rectangles inset by `r` on each side; a polygon too narrow for the tool
/// degenerates to a best-effort centerline pass and reports a tool-mismatch
/// warning (the second result), as does a free path, whose centerline runs
/// across its bounding box.
pub fn offset_polygon(p: &Polygon, r: i64) -> (res: (Polygon, bool))
    requires
        ring_wf(p@.ring),
        0 < r <= MAX_COORD_NM,
    ensures
        ring_wf(res.0@.ring),
        res.0@.role == p@.role,
        forall|j: int|
            0 <= j < res.0@.ring.len() ==> in_shape_box(
                p@.shape,
                (#[trigger] res.0@.ring[j]).x as int,
                res.0@.ring[j].y as int,
            ),
        forall|j: int|
            0 <= j < res.0@.ring.len() ==> eroded_region(
                p@,
                r as int,
                (#[trigger] res.0@.ring[j]).x as int,
                res.0@.ring[j].y as int,
            ),
        (res.0@.ring.len() > 0) == shape_pathable(p@),
        res.0@.ring.len() == offset_ring_len(p@, r as int),
        res.1 == !(proper_circle(p@, r as int) || proper_rect(p@, r as int)),
        res.1 == false ==> (match res.0@.shape {
            ShapeInfo::Circle { center, radius } => p@.shape == (ShapeInfo::Circle {
                center,
                radius: (radius + r) as i64,
            }) && 0 < radius && radius + r <= MAX_COORD_NM && coord_ok(center.x - (radius + r))
                && coord_ok(center.x + radius + r) && coord_ok(center.y - (radius + r)) && coord_ok(
                center.y + radius + r,
            ),
            ShapeInfo::Rect { min, max } => p@.shape == (ShapeInfo::Rect {
                min: Point { x: (min.x - r) as i64, y: (min.y - r) as i64 },
                max: Point { x: (max.x + r) as i64, y: (max.y + r) as i64 },
            }) && min.x <= max.x && min.y <= max.y && point_ok(min) && point_ok(max) && coord_ok(
                min.x - r,
            ) && coord_ok(max.x + r) && coord_ok(min.y - r) && coord_ok(max.y + r),
            ShapeInfo::Path => false,
        }),
        (match p@.shape {
            ShapeInfo::Circle { center, radius } => 0 < r < radius && radius <= MAX_COORD_NM
                && coord_ok(center.x - radius) && coord_ok(center.x + radius) && coord_ok(
                center.y - radius,
            ) && coord_ok(center.y + radius),
            _ => false,
        }) ==> res.0@.shape == (ShapeInfo::Circle {
            center: p@.shape->Circle_center,
            radius: (p@.shape->Circle_radius - r) as i64,
        }) && res.1 == false && res.0@.ring.len() == 16,
        (match p@.shape {
            ShapeInfo::Rect { min, max } => point_ok(min) && point_ok(max) && min.x + 2 * r
                < max.x && min.y + 2 * r < max.y,
            _ => false,
        }) ==> res.0@.shape == (ShapeInfo::Rect {
            min: Point {
                x: (p@.shape->Rect_min.x + r) as i64,
                y: (p@.shape->Rect_min.y + r) as i64,
            },
            max: Point {
                x: (p@.shape->Rect_max.x - r) as i64,
                y: (p@.shape->Rect_max.y - r) as i64,
            },
        }) && res.1 == false && res.0@.ring.len() == 4,
{
    match p.shape {
        ShapeInfo::Circle { center, radius } => {
            if 0 < radius && r < radius && radius <= MAX_COORD_NM && center.x >= -MAX_COORD_NM
                + radius && center.x <= MAX_COORD_NM - radius && center.y >= -MAX_COORD_NM
                + radius && center.y <= MAX_COORD_NM - radius {
                let shrunk = radius - r;
                let ring = circle_ring(center, shrunk);
                (
                    Polygon {
                        points: ring,
                        role: p.role,
                        shape: ShapeInfo::Circle { center, radius: shrunk },
                    },
                    false,
                )
            } else if point_in_range(center) && radius >= 0 {
                // Too narrow for the tool: a centerline pass at the center.
                let mut ring: Vec<Point> = Vec::new();
                ring.push(center);
                (
                    Polygon {
                        points: ring,
                        role: p.role,
                        shape: ShapeInfo::Circle { center, radius: 0 },
                    },
                    true,
                )
            } else {
                (Polygon { points: Vec::new(), role: p.role, shape: ShapeInfo::Path }, true)
            }
        },
        ShapeInfo::Rect { min, max } => {
            if point_in_range(min) && point_in_range(max) && min.x + 2 * r < max.x && min.y + 2 * r
                < max.y {
                let new_min = Point { x: min.x + r, y: min.y + r };
                let new_max = Point { x: max.x - r, y: max.y - r };
                let ring = rect_ring(new_min, new_max);
                (
                    Polygon {
                        points: ring,
                        role: p.role,
                        shape: ShapeInfo::Rect { min: new_min, max: new_max },
                    },
                    false,
                )
            } else if point_in_range(min) && point_in_range(max) && min.x <= max.x && min.y
                <= max.y {
                // Too narrow for the tool: a centerline pass along the longer
                // axis at the middle of the shorter one.
                let mut ring: Vec<Point> = Vec::new();
                if max.x - min.x >= max.y - min.y {
                    let mid_y = min.y + (max.y - min.y) / 2;
                    ring.push(Point { x: min.x, y: mid_y });
                    ring.push(Point { x: max.x, y: mid_y });
                } else {
                    let mid_x = min.x + (max.x - min.x) / 2;
                    ring.push(Point { x: mid_x, y: min.y });
                    ring.push(Point { x: mid_x, y: max.y });
                }
                (Polygon { points: ring, role: p.role, shape: ShapeInfo::Path }, true)
            } else {
                (Polygon { points: Vec::new(), role: p.role, shape: ShapeInfo::Path }, true)
            }
        },
        ShapeInfo::Path => {
            // Best-effort centerline across the path's bounding box.
            let ring = path_centerline(&p.points);
            (Polygon { points: ring, role: p.role, shape: ShapeInfo::Path }, true)
        },
    }
}

/// Whether both coordinates lie in the supported range.
pub fn point_in_range(p: Point) -> (r: bool)
    ensures
        r == point_ok(p),
{
    p.x >= -MAX_COORD_NM && p.x <= MAX_COORD_NM && p.y >= -MAX_COORD_NM && p.y <= MAX_COORD_NM
}

/// A horizontal centerline across a free ring's bounding box.
fn path_centerline(points: &Vec<Point>) -> (r: Vec<Point>)
    requires
        ring_wf(points@),
    ensures
        ring_wf(r@),
        r@.len() == 0 || r@.len() == 2,
        (r@.len() > 0) == (points@.len() > 0),
        forall|j: int|
            0 <= j < r@.len() ==> in_ring_box(
                points@,
                (#[trigger] r@[j]).x as int,
                r@[j].y as int,
            ),
{
    let mut out: Vec<Point> = Vec::new();
    if points.len() == 0 {
        return out;
    }
    let mut min_x: i64 = points[0].x;
    let mut max_x: i64 = points[0].x;
    let mut min_y: i64 = points[0].y;
    let mut max_y: i64 = points[0].y;
    let mut i: usize = 1;
    proof {
        assert(point_ok(points@[0]));
    }
    while i < points.len()
        invariant
            1 <= i <= points@.len(),
            ring_wf(points@),
            -MAX_COORD_NM <= min_x <= max_x <= MAX_COORD_NM,
            -MAX_COORD_NM <= min_y <= max_y <= MAX_COORD_NM,
            min_x as int == ring_min_x(points@.subrange(0, i as int)),
            max_x as int == ring_max_x(points@.subrange(0, i as int)),
            min_y as int == ring_min_y(points@.subrange(0, i as int)),
            max_y as int == ring_max_y(points@.subrange(0, i as int)),
        decreases points@.len() - i,
    {
        proof {
            assert(point_ok(points@[i as int]));
            assert(points@.subrange(0, i as int + 1).drop_last() =~= points@.subrange(
                0,
                i as int,
            ));
            assert(points@.subrange(0, i as int + 1).last() == points@[i as int]);
        }
        min_x = coord_min(min_x, points[i].x);
        max_x = coord_max(max_x, points[i].x);
        min_y = coord_min(min_y, points[i].y);
        max_y = coord_max(max_y, points[i].y);
        i = i + 1;
    }
    proof {
        assert(points@.subrange(0, points@.len() as int) =~= points@);
    }
    let d = max_y - min_y;
    proof {
        assert(0 <= d / 2 <= d) by (nonlinear_arith)
            requires
                d >= 0,
        ;
    }
    let mid_y = min_y + d / 2;
    out.push(Point { x: min_x, y: mid_y });
    out.push(Point { x: max_x, y: mid_y });
    out
}

} // verus!
