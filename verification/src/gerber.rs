//! The Gerber-style drawing parser: turns the textual vector drawing into an
//! ordered list of immutable drawing primitives with polarity and aperture
//! references, preserving emission order exactly.
//!
//! Coordinates are converted into nanometers according to the drawing's
//! declared unit and format header; nothing downstream sees a raw number.

use vstd::prelude::*;

use crate::geometry::{point_ok, Point, Polarity, MAX_RING_POINTS};
use crate::units::{
    coordinate_to_nanometers, parse_scaled, parse_unsigned_scaled, pow10_i64, slice_range, Length,
    MAX_COORD_NM,
};

verus! {

/// A named shape template stamped or traced by primitives.
#[derive(Clone, Copy, PartialEq, Eq, Structural, Debug)]
pub enum Aperture {
    Circle { diameter: Length },
    Rectangle { width: Length, height: Length },
    Obround { width: Length, height: Length },
    Polygon { diameter: Length, vertices: u32 },
}

/// One drawing operation, in file order.
#[derive(Clone, Debug)]
pub enum Primitive {
    Flash { aperture: usize, position: Point, polarity: Polarity },
    Draw { aperture: usize, start: Point, end: Point, polarity: Polarity },
    Region { points: Vec<Point>, polarity: Polarity },
}

/// Why a drawing was rejected, with the line of the offending text.
#[derive(Clone, Copy, PartialEq, Eq, Structural, Debug)]
pub enum DrawingError {
    MalformedDrawing { line: usize },
    UnsupportedFeature { line: usize },
}

/// A parsed drawing: the aperture table and the ordered primitive list.
#[derive(Clone, Debug)]
pub struct GerberFile {
    pub apertures: Vec<Aperture>,
    pub primitives: Vec<Primitive>,
    /// Nanometers per raw coordinate unit, from the unit/format header.
    pub unit_scale_nm: i64,
}

/// Well-formedness of an aperture: positive, bounded dimensions.
pub open spec fn aperture_wf(a: Aperture) -> bool {
    match a {
        Aperture::Circle { diameter } => 0 < diameter.nm <= MAX_COORD_NM,
        Aperture::Rectangle { width, height } => 0 < width.nm <= MAX_COORD_NM && 0 < height.nm
            <= MAX_COORD_NM,
        Aperture::Obround { width, height } => 0 < width.nm <= MAX_COORD_NM && 0 < height.nm
            <= MAX_COORD_NM,
        Aperture::Polygon { diameter, vertices } => 0 < diameter.nm <= MAX_COORD_NM && 3
            <= vertices <= 16,
    }
}

/// Well-formedness of a primitive against the aperture table size: aperture
/// references resolve, coordinates are in range, and a region boundary holds
/// at least three and at most the supported number of points.
pub open spec fn primitive_wf(p: Primitive, n_apertures: int) -> bool {
    match p {
        Primitive::Flash { aperture, position, .. } => aperture < n_apertures && point_ok(
            position,
        ),
        Primitive::Draw { aperture, start, end, .. } => aperture < n_apertures && point_ok(start)
            && point_ok(end),
        Primitive::Region { points, .. } => 3 <= points@.len() <= MAX_RING_POINTS && forall|i: int|
            0 <= i < points@.len() ==> point_ok(#[trigger] points@[i]),
    }
}

/// Well-formedness of a whole parsed drawing.
pub open spec fn gerber_wf(f: GerberFile) -> bool {
    &&& forall|i: int| 0 <= i < f.apertures@.len() ==> aperture_wf(#[trigger] f.apertures@[i])
    &&& forall|i: int|
        0 <= i < f.primitives@.len() ==> primitive_wf(
            #[trigger] f.primitives@[i],
            f.apertures@.len() as int,
        )
    &&& 1 <= f.unit_scale_nm <= 1_000_000_000
}

/// Advances a line counter without overflow.
fn bump_line(line: usize, n: usize) -> (r: usize) {
    if line <= usize::MAX - n {
        line + n
    } else {
        usize::MAX
    }
}

/// The first index of `b` in `s`, if any.
fn find_byte(s: &[u8], b: u8) -> (r: Option<usize>)
    ensures
        r matches Some(j) ==> j < s@.len(),
{
    let mut j: usize = 0;
    while j < s.len()
        invariant
            0 <= j <= s@.len(),
        decreases s@.len() - j,
    {
        if s[j] == b {
            return Some(j);
        }
        j = j + 1;
    }
    None
}

/// The first `*` at or after `from`, if any.
fn find_star(input: &[u8], from: usize) -> (r: Option<usize>)
    requires
        from <= input@.len(),
    ensures
        r matches Some(j) ==> from <= j < input@.len() && input@[j as int] == 42,
{
    let mut j = from;
    while j < input.len()
        invariant
            from <= j <= input@.len(),
        decreases input@.len() - j,
    {
        if input[j] == 42 {
            return Some(j);
        }
        j = j + 1;
    }
    None
}

/// How many newline bytes lie in `input[from..to]`.
fn newlines_in(input: &[u8], from: usize, to: usize) -> (r: usize)
    requires
        from <= to <= input@.len(),
    ensures
        r <= to - from,
{
    let mut n: usize = 0;
    let mut j = from;
    while j < to
        invariant
            from <= j <= to <= input@.len(),
            n <= j - from,
        decreases to - j,
    {
        if input[j] == 10 {
            n = n + 1;
        }
        j = j + 1;
    }
    n
}

/// A drawing dimension in the file's unit, converted to nanometers; `None`
/// when the text is not a plain decimal or the value is out of range.
fn parse_dimension(s: &[u8], unit_mm: bool) -> (r: Option<i64>)
    ensures
        r matches Some(v) ==> 0 < v <= MAX_COORD_NM,
{
    let scaled = if unit_mm {
        parse_unsigned_scaled(s, 6)
    } else {
        parse_unsigned_scaled(s, 5)
    };
    match scaled {
        Some(v) => {
            let wide: i128 = if unit_mm {
                v as i128
            } else {
                (v as i128) * 254
            };
            if 0 < wide && wide <= MAX_COORD_NM as i128 {
                Some(wide as i64)
            } else {
                None
            }
        },
        None => None,
    }
}

/// Parses the drawing text into its aperture table and ordered primitive
/// list, or rejects it.
///
/// Success yields a well-formed drawing: every aperture reference resolves,
/// every coordinate is in range, every region boundary has at least three
/// points, and the primitives stand in exactly the order the file emits
/// them. Failures carry the line of the offending text: `MalformedDrawing`
/// for unparseable syntax, a unit/format mismatch, an unterminated region or
/// a missing end-of-file marker, and `UnsupportedFeature` for valid but
/// unimplemented constructs such as macro apertures, arcs, or layer
/// commands.
pub fn parse_drawing(input: &[u8]) -> (r: Result<GerberFile, DrawingError>)
    ensures
        r matches Ok(f) ==> gerber_wf(f),
        r is Ok ==> exists|a: int|
            0 <= a && a + 3 <= input@.len() && #[trigger] input@.subrange(a, a + 3) =~= seq![
                77u8,
                48,
                50,
            ],
{
    let mut i: usize = 0;
    let mut line: usize = 1;
    let mut unit_mm: Option<bool> = None;
    let mut fs_decimals: Option<u32> = None;
    let mut apertures: Vec<Aperture> = Vec::new();
    let mut dcodes: Vec<i64> = Vec::new();
    let mut cur_aperture: Option<usize> = None;
    let mut cur = Point { x: 0, y: 0 };
    let mut polarity = Polarity::Dark;
    let mut in_region = false;
    let mut region_pts: Vec<Point> = Vec::new();
    let mut primitives: Vec<Primitive> = Vec::new();
    let mut done = false;
    while i < input.len()
        invariant
            0 <= i <= input@.len(),
            forall|k: int| 0 <= k < apertures@.len() ==> aperture_wf(#[trigger] apertures@[k]),
            forall|k: int|
                0 <= k < primitives@.len() ==> primitive_wf(
                    #[trigger] primitives@[k],
                    apertures@.len() as int,
                ),
            dcodes@.len() == apertures@.len(),
            cur_aperture matches Some(a) ==> a < apertures@.len(),
            point_ok(cur),
            forall|k: int| 0 <= k < region_pts@.len() ==> point_ok(#[trigger] region_pts@[k]),
            region_pts@.len() <= MAX_RING_POINTS,
            done ==> exists|a: int|
                0 <= a && a + 3 <= input@.len() && #[trigger] input@.subrange(a, a + 3) =~= seq![
                    77u8,
                    48,
                    50,
                ],
        decreases input@.len() - i,
    {
        let b = input[i];
        if b == 10 {
            line = bump_line(line, 1);
            i = i + 1;
        } else if b == 13 || b == 32 || b == 9 {
            i = i + 1;
        } else if done {
            return Err(DrawingError::MalformedDrawing { line });
        } else if b == 37 {
            // Extended command: %...*%
            let star = match find_star(input, i + 1) {
                Some(j) => j,
                None => {
                    return Err(DrawingError::MalformedDrawing { line });
                },
            };
            if star + 1 >= input.len() || input[star + 1] != 37 {
                return Err(DrawingError::MalformedDrawing { line });
            }
            let body = slice_range(input, i + 1, star);
            let advance = star + 2;
            let nl = newlines_in(input, i, advance);
            if body.len() >= 2 && body[0] == 77 && body[1] == 79 {
                // MO: unit mode.
                if body.len() == 4 && body[2] == 77 && body[3] == 77 {
                    unit_mm = Some(true);
                } else if body.len() == 4 && body[2] == 73 && body[3] == 78 {
                    unit_mm = Some(false);
                } else {
                    return Err(DrawingError::MalformedDrawing { line });
                }
            } else if body.len() >= 2 && body[0] == 70 && body[1] == 83 {
                // FSLAXnmYnm: coordinate format.
                if body.len() == 10 && body[2] == 76 && body[3] == 65 && body[4] == 88 && body[7]
                    == 89 && body[5] >= 48 && body[5] <= 57 && body[6] >= 48 && body[6] <= 57
                    && body[8] >= 48 && body[8] <= 57 && body[9] >= 48 && body[9] <= 57 && body[6]
                    == body[9] {
                    fs_decimals = Some((body[6] - 48) as u32);
                } else {
                    return Err(DrawingError::MalformedDrawing { line });
                }
            } else if body.len() >= 2 && body[0] == 65 && body[1] == 68 {
                // ADDnn<shape>,<dims>: aperture definition.
                let mm = match unit_mm {
                    Some(m) => m,
                    None => {
                        return Err(DrawingError::MalformedDrawing { line });
                    },
                };
                if body.len() < 4 || body[2] != 68 {
                    return Err(DrawingError::MalformedDrawing { line });
                }
                let mut p: usize = 3;
                let mut code: i64 = 0;
                let code_start = p;
                while p < body.len() && body[p] >= 48 && body[p] <= 57
                    invariant
                        3 <= p <= body@.len(),
                        0 <= code <= 100_000_009,
                    decreases body@.len() - p,
                {
                    if code > 10_000_000 {
                        return Err(DrawingError::MalformedDrawing { line });
                    }
                    code = code * 10 + ((body[p] - 48) as i64);
                    p = p + 1;
                }
                if p == code_start || code < 10 || p >= body.len() {
                    return Err(DrawingError::MalformedDrawing { line });
                }
                let shape = body[p];
                let rest_start = if p + 1 < body.len() && body[p + 1] == 44 {
                    p + 2
                } else {
                    p + 1
                };
                if rest_start > body.len() {
                    return Err(DrawingError::MalformedDrawing { line });
                }
                let rest = slice_range(body, rest_start, body.len());
                if shape == 80 {
                    // P: a regular polygon, as outer diameter and vertex
                    // count; rotation or hole parameters are not implemented.
                    let split = match find_byte(rest, 88) {
                        Some(s) => s,
                        None => {
                            return Err(DrawingError::UnsupportedFeature { line });
                        },
                    };
                    let d = match parse_dimension(slice_range(rest, 0, split), mm) {
                        Some(d) => d,
                        None => {
                            return Err(DrawingError::MalformedDrawing { line });
                        },
                    };
                    if split + 1 > rest.len() {
                        return Err(DrawingError::MalformedDrawing { line });
                    }
                    let verts = match crate::units::parse_digits(
                        slice_range(rest, split + 1, rest.len()),
                    ) {
                        Some(v) => v,
                        None => {
                            return Err(DrawingError::MalformedDrawing { line });
                        },
                    };
                    if verts < 3 || verts > 16 {
                        return Err(DrawingError::UnsupportedFeature { line });
                    }
                    apertures.push(
                        Aperture::Polygon { diameter: Length { nm: d }, vertices: verts as u32 },
                    );
                    dcodes.push(code);
                    line = bump_line(line, nl);
                    i = advance;
                    continue ;
                }
                // Split the dimension list at `X` separators.
                let mut dims: Vec<i64> = Vec::new();
                let mut q: usize = 0;
                let mut seg: usize = 0;
                while q < rest.len()
                    invariant
                        0 <= seg <= q <= rest@.len(),
                        forall|k: int| 0 <= k < dims@.len() ==> 0 < #[trigger] dims@[k] <= MAX_COORD_NM,
                    decreases rest@.len() - q,
                {
                    if rest[q] == 88 {
                        if seg < q {
                            let d = match parse_dimension(slice_range(rest, seg, q), mm) {
                                Some(d) => d,
                                None => {
                                    return Err(DrawingError::MalformedDrawing { line });
                                },
                            };
                            dims.push(d);
                        }
                        seg = q + 1;
                    }
                    q = q + 1;
                }
                if seg < rest.len() {
                    let d = match parse_dimension(slice_range(rest, seg, rest.len()), mm) {
                        Some(d) => d,
                        None => {
                            return Err(DrawingError::MalformedDrawing { line });
                        },
                    };
                    dims.push(d);
                }
                let aperture = if shape == 67 {
                    // C: circle; a hole dimension is not supported.
                    if dims.len() != 1 {
                        return Err(DrawingError::UnsupportedFeature { line });
                    }
                    Aperture::Circle { diameter: Length { nm: dims[0] } }
                } else if shape == 82 {
                    if dims.len() != 2 {
                        return Err(DrawingError::UnsupportedFeature { line });
                    }
                    Aperture::Rectangle {
                        width: Length { nm: dims[0] },
                        height: Length { nm: dims[1] },
                    }
                } else if shape == 79 {
                    if dims.len() != 2 {
                        return Err(DrawingError::UnsupportedFeature { line });
                    }
                    Aperture::Obround {
                        width: Length { nm: dims[0] },
                        height: Length { nm: dims[1] },
                    }
                } else {
                    // Macro apertures and polygon apertures with extra
                    // parameters are not implemented.
                    return Err(DrawingError::UnsupportedFeature { line });
                };
                apertures.push(aperture);
                dcodes.push(code);
            } else if body.len() >= 2 && body[0] == 76 && body[1] == 80 {
                // LP: polarity select.
                if body.len() == 3 && body[2] == 68 {
                    polarity = Polarity::Dark;
                } else if body.len() == 3 && body[2] == 67 {
                    polarity = Polarity::Clear;
                } else {
                    return Err(DrawingError::MalformedDrawing { line });
                }
            } else if body.len() >= 2 && (body[0] == 65 && body[1] == 77 || body[0] == 76 && body[1]
                == 78 || body[0] == 83 && body[1] == 82 || body[0] == 73 && body[1] == 80) {
                // AM (aperture macro), LN (layer name), SR (step repeat),
                // IP (image polarity): recognized but not implemented.
                return Err(DrawingError::UnsupportedFeature { line });
            } else {
                return Err(DrawingError::MalformedDrawing { line });
            }
            line = bump_line(line, nl);
            i = advance;
        } else {
            // Word command, terminated by `*`.
            let star = match find_star(input, i) {
                Some(j) => j,
                None => {
                    return Err(DrawingError::MalformedDrawing { line });
                },
            };
            let stmt = slice_range(input, i, star);
            let nl = newlines_in(input, i, star + 1);
            if stmt.len() == 0 {
                return Err(DrawingError::MalformedDrawing { line });
            }
            if stmt[0] == 71 && stmt.len() >= 3 && stmt[1] == 48 && stmt[2] == 52 {
                // G04: comment.
            } else if stmt.len() == 3 && stmt[0] == 71 && stmt[1] == 51 && stmt[2] == 54 {
                // G36: region begin.
                if in_region {
                    return Err(DrawingError::MalformedDrawing { line });
                }
                in_region = true;
                region_pts = Vec::new();
            } else if stmt.len() == 3 && stmt[0] == 71 && stmt[1] == 51 && stmt[2] == 55 {
                // G37: region end; the boundary is implicitly closed, so a
                // repeated closing point is dropped, and at least 3 points
                // must remain.
                if !in_region {
                    return Err(DrawingError::MalformedDrawing { line });
                }
                if region_pts.len() >= 2 {
                    let first = region_pts[0];
                    let last = region_pts[region_pts.len() - 1];
                    if first.x == last.x && first.y == last.y {
                        region_pts.pop();
                    }
                }
                if region_pts.len() < 3 {
                    return Err(DrawingError::MalformedDrawing { line });
                }
                in_region = false;
                let pts = region_pts;
                region_pts = Vec::new();
                primitives.push(Primitive::Region { points: pts, polarity });
            } else if stmt.len() == 3 && stmt[0] == 77 && stmt[1] == 48 && stmt[2] == 50 {
                // M02: end of file.
                if in_region {
                    return Err(DrawingError::MalformedDrawing { line });
                }
                proof {
                    assert(stmt@ =~= input@.subrange(i as int, i as int + 3));
                    assert(input@.subrange(i as int, i as int + 3) =~= seq![77u8, 48, 50]);
                }
                done = true;
            } else if stmt[0] == 71 && stmt.len() >= 3 && stmt[1] == 48 && (stmt[2] == 50 || stmt[2]
                == 51) {
                // G02/G03: circular interpolation is not implemented.
                return Err(DrawingError::UnsupportedFeature { line });
            } else if stmt.len() == 3 && stmt[0] == 71 && (stmt[1] == 55 && (stmt[2] == 52
                || stmt[2] == 53)) {
                // G74/G75: quadrant mode, ignored.
            } else {
                // A coordinate or aperture-select word, optionally prefixed
                // by G01 (linear mode).
                let mut s: usize = 0;
                if stmt.len() >= 3 && stmt[0] == 71 && stmt[1] == 48 && stmt[2] == 49 {
                    s = 3;
                } else if stmt.len() >= 2 && stmt[0] == 71 && stmt[1] == 49 {
                    s = 2;
                }
                if s == stmt.len() {
                    // A bare linear-mode select.
                    line = bump_line(line, nl);
                    i = star + 1;
                    continue ;
                }
                let scale = match (unit_mm, fs_decimals) {
                    (Some(true), Some(d)) => {
                        if d > 6 {
                            return Err(DrawingError::MalformedDrawing { line });
                        }
                        pow10_i64(6 - d)
                    },
                    (Some(false), Some(d)) => {
                        if d > 5 {
                            return Err(DrawingError::MalformedDrawing { line });
                        }
                        let m = pow10_i64(5 - d);
                        if m > 100_000 {
                            return Err(DrawingError::MalformedDrawing { line });
                        }
                        254 * m
                    },
                    _ => {
                        return Err(DrawingError::MalformedDrawing { line });
                    },
                };
                if scale < 1 || scale > 1_000_000_000 {
                    return Err(DrawingError::MalformedDrawing { line });
                }
                // Parse optional X and Y coordinates, then a D word.
                let mut x = cur.x;
                let mut y = cur.y;
                let mut p: usize = s;
                if p < stmt.len() && stmt[p] == 88 {
                    let start = p + 1;
                    let mut e = start;
                    while e < stmt.len() && (stmt[e] == 45 || (stmt[e] >= 48 && stmt[e] <= 57))
                        invariant
                            start <= e <= stmt@.len(),
                        decreases stmt@.len() - e,
                    {
                        e = e + 1;
                    }
                    let raw = match parse_scaled(slice_range(stmt, start, e), 0) {
                        Some(v) => v,
                        None => {
                            return Err(DrawingError::MalformedDrawing { line });
                        },
                    };
                    x = match coordinate_to_nanometers(raw, scale) {
                        Some(l) => l.nm,
                        None => {
                            return Err(DrawingError::MalformedDrawing { line });
                        },
                    };
                    p = e;
                }
                if p < stmt.len() && stmt[p] == 89 {
                    let start = p + 1;
                    let mut e = start;
                    while e < stmt.len() && (stmt[e] == 45 || (stmt[e] >= 48 && stmt[e] <= 57))
                        invariant
                            start <= e <= stmt@.len(),
                        decreases stmt@.len() - e,
                    {
                        e = e + 1;
                    }
                    let raw = match parse_scaled(slice_range(stmt, start, e), 0) {
                        Some(v) => v,
                        None => {
                            return Err(DrawingError::MalformedDrawing { line });
                        },
                    };
                    y = match coordinate_to_nanometers(raw, scale) {
                        Some(l) => l.nm,
                        None => {
                            return Err(DrawingError::MalformedDrawing { line });
                        },
                    };
                    p = e;
                }
                if p < stmt.len() && (stmt[p] == 73 || stmt[p] == 74) {
                    // I/J arc offsets are not implemented.
                    return Err(DrawingError::UnsupportedFeature { line });
                }
                if p >= stmt.len() || stmt[p] != 68 {
                    return Err(DrawingError::MalformedDrawing { line });
                }
                let dstart = p + 1;
                let mut de = dstart;
                let mut dval: i64 = 0;
                while de < stmt.len() && stmt[de] >= 48 && stmt[de] <= 57
                    invariant
                        dstart <= de <= stmt@.len(),
                        0 <= dval <= 100_000_009,
                    decreases stmt@.len() - de,
                {
                    if dval > 10_000_000 {
                        return Err(DrawingError::MalformedDrawing { line });
                    }
                    dval = dval * 10 + ((stmt[de] - 48) as i64);
                    de = de + 1;
                }
                if de == dstart || de != stmt.len() {
                    return Err(DrawingError::MalformedDrawing { line });
                }
                let target = Point { x, y };
                if dval == 1 {
                    // D01: draw to target, or trace a region edge.
                    if in_region {
                        if region_pts.len() == 0 {
                            return Err(DrawingError::MalformedDrawing { line });
                        }
                        if region_pts.len() >= MAX_RING_POINTS {
                            return Err(DrawingError::MalformedDrawing { line });
                        }
                        region_pts.push(target);
                    } else {
                        let ap = match cur_aperture {
                            Some(a) => a,
                            None => {
                                return Err(DrawingError::MalformedDrawing { line });
                            },
                        };
                        primitives.push(
                            Primitive::Draw { aperture: ap, start: cur, end: target, polarity },
                        );
                    }
                    cur = target;
                } else if dval == 2 {
                    // D02: move; inside a region this starts the boundary.
                    if in_region {
                        if region_pts.len() > 0 {
                            // A second contour in one region block.
                            return Err(DrawingError::UnsupportedFeature { line });
                        }
                        region_pts.push(target);
                    }
                    cur = target;
                } else if dval == 3 {
                    // D03: flash.
                    if in_region {
                        return Err(DrawingError::MalformedDrawing { line });
                    }
                    let ap = match cur_aperture {
                        Some(a) => a,
                        None => {
                            return Err(DrawingError::MalformedDrawing { line });
                        },
                    };
                    primitives.push(Primitive::Flash { aperture: ap, position: target, polarity });
                    cur = target;
                } else if dval >= 10 {
                    // Dnn: select aperture (a bare select has no coordinates).
                    if p != s {
                        return Err(DrawingError::MalformedDrawing { line });
                    }
                    let mut found: Option<usize> = None;
                    let mut q: usize = 0;
                    while q < dcodes.len()
                        invariant
                            0 <= q <= dcodes@.len(),
                            dcodes@.len() == apertures@.len(),
                            found matches Some(a) ==> a < apertures@.len(),
                        decreases dcodes@.len() - q,
                    {
                        if dcodes[q] == dval && found.is_none() {
                            found = Some(q);
                        }
                        q = q + 1;
                    }
                    match found {
                        Some(a) => {
                            cur_aperture = Some(a);
                        },
                        None => {
                            return Err(DrawingError::MalformedDrawing { line });
                        },
                    }
                } else {
                    return Err(DrawingError::MalformedDrawing { line });
                }
            }
            line = bump_line(line, nl);
            i = star + 1;
        }
    }
    if !done || in_region {
        return Err(DrawingError::MalformedDrawing { line });
    }
    let scale = match (unit_mm, fs_decimals) {
        (Some(true), Some(d)) => {
            if d > 6 {
                return Err(DrawingError::MalformedDrawing { line });
            }
            pow10_i64(6 - d)
        },
        (Some(false), Some(d)) => {
            if d > 5 {
                return Err(DrawingError::MalformedDrawing { line });
            }
            let m = pow10_i64(5 - d);
            if m > 100_000 {
                return Err(DrawingError::MalformedDrawing { line });
            }
            254 * m
        },
        _ => {
            return Err(DrawingError::MalformedDrawing { line });
        },
    };
    if scale < 1 || scale > 1_000_000_000 {
        return Err(DrawingError::MalformedDrawing { line });
    }
    Ok(GerberFile { apertures, primitives, unit_scale_nm: scale })
}

/// Whether a 4-point ring traces an axis-aligned rectangle starting along
/// the x axis: corner, across, up, back.
pub open spec fn rect_pattern_x(ring: Seq<Point>) -> bool {
    &&& ring.len() == 4
    &&& ring[0].y == ring[1].y
    &&& ring[1].x == ring[2].x
    &&& ring[2].y == ring[3].y
    &&& ring[3].x == ring[0].x
    &&& ring[0].x < ring[1].x
    &&& ring[0].y < ring[2].y
}

/// Whether a 4-point ring traces an axis-aligned rectangle starting along
/// the y axis: corner, up, across, back.
pub open spec fn rect_pattern_y(ring: Seq<Point>) -> bool {
    &&& ring.len() == 4
    &&& ring[0].x == ring[1].x
    &&& ring[1].y == ring[2].y
    &&& ring[2].x == ring[3].x
    &&& ring[3].y == ring[0].y
    &&& ring[0].y < ring[1].y
    &&& ring[0].x < ring[2].x
}

/// The shape descriptor a region boundary resolves to: the axis-aligned
/// rectangle it traces, or a free path.
pub open spec fn region_shape_of(ring: Seq<Point>) -> crate::geometry::ShapeInfo {
    if rect_pattern_x(ring) {
        crate::geometry::ShapeInfo::Rect {
            min: ring[0],
            max: Point { x: ring[1].x, y: ring[2].y },
        }
    } else if rect_pattern_y(ring) {
        crate::geometry::ShapeInfo::Rect {
            min: ring[0],
            max: Point { x: ring[2].x, y: ring[1].y },
        }
    } else {
        crate::geometry::ShapeInfo::Path
    }
}

/// Detects an axis-aligned rectangle ring traced corner to corner, giving
/// its min and max corners; exactly the `region_shape_of` decision.
fn detect_rect(points: &Vec<Point>) -> (r: Option<(Point, Point)>)
    ensures
        rect_pattern_x(points@) ==> r == Some(
            (points@[0], Point { x: points@[1].x, y: points@[2].y }),
        ),
        !rect_pattern_x(points@) && rect_pattern_y(points@) ==> r == Some(
            (points@[0], Point { x: points@[2].x, y: points@[1].y }),
        ),
        !rect_pattern_x(points@) && !rect_pattern_y(points@) ==> r is None,
        r matches Some(b) ==> b.0.x <= b.1.x && b.0.y <= b.1.y,
{
    if points.len() != 4 {
        return None;
    }
    let p0 = points[0];
    let p1 = points[1];
    let p2 = points[2];
    let p3 = points[3];
    if p0.y == p1.y && p1.x == p2.x && p2.y == p3.y && p3.x == p0.x && p0.x < p1.x && p0.y < p2.y {
        Some((Point { x: p0.x, y: p0.y }, Point { x: p1.x, y: p2.y }))
    } else if p0.x == p1.x && p1.y == p2.y && p2.x == p3.x && p3.y == p0.y && p0.y < p1.y && p0.x
        < p2.x {
        Some((Point { x: p0.x, y: p0.y }, Point { x: p2.x, y: p1.y }))
    } else {
        None
    }
}

/// Whether a flash or stroke of this radius at this point stays inside the
/// supported coordinate range.
fn radius_fits(p: Point, radius: i64) -> (r: bool)
    requires
        0 <= radius <= MAX_COORD_NM,
    ensures
        r == (crate::geometry::coord_ok(p.x - radius) && crate::geometry::coord_ok(p.x + radius)
            && crate::geometry::coord_ok(p.y - radius) && crate::geometry::coord_ok(p.y + radius)),
{
    p.x >= -MAX_COORD_NM + radius && p.x <= MAX_COORD_NM - radius && p.y >= -MAX_COORD_NM + radius
        && p.y <= MAX_COORD_NM - radius
}

/// The half-extent in x of an aperture's stamp.
pub open spec fn aperture_extent_x(a: Aperture) -> int {
    match a {
        Aperture::Circle { diameter } => diameter.nm as int / 2,
        Aperture::Rectangle { width, .. } => width.nm as int / 2,
        Aperture::Obround { width, .. } => width.nm as int / 2,
        Aperture::Polygon { diameter, .. } => diameter.nm as int / 2,
    }
}

/// The half-extent in y of an aperture's stamp.
pub open spec fn aperture_extent_y(a: Aperture) -> int {
    match a {
        Aperture::Circle { diameter } => diameter.nm as int / 2,
        Aperture::Rectangle { height, .. } => height.nm as int / 2,
        Aperture::Obround { height, .. } => height.nm as int / 2,
        Aperture::Polygon { diameter, .. } => diameter.nm as int / 2,
    }
}

/// The half-width of a stroke traced with this aperture.
pub open spec fn aperture_stroke_radius(a: Aperture) -> int {
    match a {
        Aperture::Circle { diameter } => diameter.nm as int / 2,
        Aperture::Rectangle { width, height } => if width.nm <= height.nm {
            width.nm as int / 2
        } else {
            height.nm as int / 2
        },
        Aperture::Obround { width, height } => if width.nm <= height.nm {
            width.nm as int / 2
        } else {
            height.nm as int / 2
        },
        Aperture::Polygon { diameter, .. } => diameter.nm as int / 2,
    }
}

/// Whether a point with a surrounding radius stays inside the supported
/// coordinate range.
pub open spec fn fits_at(x: int, y: int, r: int) -> bool {
    &&& x >= -MAX_COORD_NM + r
    &&& x <= MAX_COORD_NM - r
    &&& y >= -MAX_COORD_NM + r
    &&& y <= MAX_COORD_NM - r
}

/// Whether a flash of this aperture at this position yields a stamp: its
/// half-extents reach the coordinate grid and the stamp stays in range.
pub open spec fn flash_fits(a: Aperture, pos: Point) -> bool {
    match a {
        Aperture::Circle { diameter } => diameter.nm as int / 2 >= 1 && fits_at(
            pos.x as int,
            pos.y as int,
            diameter.nm as int / 2,
        ),
        Aperture::Rectangle { width, height } => width.nm as int / 2 >= 1 && height.nm as int / 2
            >= 1 && fits_at(
            pos.x as int,
            pos.y as int,
            if width.nm as int / 2 >= height.nm as int / 2 {
                width.nm as int / 2
            } else {
                height.nm as int / 2
            },
        ),
        Aperture::Obround { width, height } => {
            let rad = if width.nm <= height.nm {
                width.nm as int / 2
            } else {
                height.nm as int / 2
            };
            if width.nm >= height.nm {
                rad >= 1 && fits_at(pos.x - (width.nm as int / 2 - rad), pos.y as int, rad)
                    && fits_at(pos.x + (width.nm as int / 2 - rad), pos.y as int, rad)
            } else {
                rad >= 1 && fits_at(pos.x as int, pos.y - (height.nm as int / 2 - rad), rad)
                    && fits_at(pos.x as int, pos.y + (height.nm as int / 2 - rad), rad)
            }
        },
        Aperture::Polygon { diameter, .. } => diameter.nm as int / 2 >= 1 && fits_at(
            pos.x as int,
            pos.y as int,
            diameter.nm as int / 2,
        ),
    }
}

/// The shape descriptor a flash of this aperture stamps: circles and
/// rectangles exactly, obrounds and polygon apertures as free paths.
pub open spec fn flash_shape_of(a: Aperture, pos: Point) -> crate::geometry::ShapeInfo {
    match a {
        Aperture::Circle { diameter } => crate::geometry::ShapeInfo::Circle {
            center: pos,
            radius: (diameter.nm as int / 2) as i64,
        },
        Aperture::Rectangle { width, height } => crate::geometry::ShapeInfo::Rect {
            min: Point {
                x: (pos.x - width.nm as int / 2) as i64,
                y: (pos.y - height.nm as int / 2) as i64,
            },
            max: Point {
                x: (pos.x + width.nm as int / 2) as i64,
                y: (pos.y + height.nm as int / 2) as i64,
            },
        },
        Aperture::Obround { .. } => crate::geometry::ShapeInfo::Path,
        Aperture::Polygon { .. } => crate::geometry::ShapeInfo::Path,
    }
}

/// Whether a stroke of this aperture between these points yields a capsule.
pub open spec fn draw_fits(a: Aperture, start: Point, end: Point) -> bool {
    &&& aperture_stroke_radius(a) >= 1
    &&& fits_at(start.x as int, start.y as int, aperture_stroke_radius(a))
    &&& fits_at(end.x as int, end.y as int, aperture_stroke_radius(a))
}

/// What rasterizing one primitive must yield: polarity preserved; a region's
/// boundary kept exactly; a flash confined to its aperture's stamp box
/// around the flash position; a draw confined to its segment's box expanded
/// by the stroke half-width. An empty ring records a collapsed or
/// out-of-range primitive.
pub open spec fn contribution_matches(
    prim: Primitive,
    aps: Seq<Aperture>,
    c: crate::geometry::GContribution,
) -> bool {
    match prim {
        Primitive::Region { points, polarity } => c.ring == points@ && c.polarity == polarity
            && c.ring.len() >= 3 && c.shape == region_shape_of(points@),
        Primitive::Flash { aperture, position, polarity } => {
            &&& c.polarity == polarity
            &&& aperture < aps.len()
            &&& (if flash_fits(aps[aperture as int], position) {
                c.ring.len() > 0 && c.shape == flash_shape_of(aps[aperture as int], position)
            } else {
                c.ring.len() == 0 && c.shape == crate::geometry::ShapeInfo::Path
            })
            &&& forall|j: int|
                0 <= j < c.ring.len() ==> position.x - aperture_extent_x(aps[aperture as int]) <= (
                #[trigger] c.ring[j]).x <= position.x + aperture_extent_x(aps[aperture as int])
                    && position.y - aperture_extent_y(aps[aperture as int]) <= c.ring[j].y
                    <= position.y + aperture_extent_y(aps[aperture as int])
        },
        Primitive::Draw { aperture, start, end, polarity } => {
            &&& c.polarity == polarity
            &&& aperture < aps.len()
            &&& c.shape == crate::geometry::ShapeInfo::Path
            &&& (draw_fits(aps[aperture as int], start, end) == (c.ring.len() > 0))
            &&& forall|j: int|
                0 <= j < c.ring.len() ==> {
                    let rad = aperture_stroke_radius(aps[aperture as int]);
                    let lo_x = if start.x <= end.x {
                        start.x as int
                    } else {
                        end.x as int
                    };
                    let hi_x = if start.x >= end.x {
                        start.x as int
                    } else {
                        end.x as int
                    };
                    let lo_y = if start.y <= end.y {
                        start.y as int
                    } else {
                        end.y as int
                    };
                    let hi_y = if start.y >= end.y {
                        start.y as int
                    } else {
                        end.y as int
                    };
                    lo_x - rad <= (#[trigger] c.ring[j]).x <= hi_x + rad && lo_y - rad
                        <= c.ring[j].y <= hi_y + rad
                }
        },
    }
}

/// Whether a contribution list is exactly the rasterization of a primitive
/// list: one contribution per primitive, in file order, each matching its
/// primitive.
pub open spec fn vectorized_rel(
    prims: Seq<Primitive>,
    aps: Seq<Aperture>,
    cs: Seq<crate::geometry::GContribution>,
) -> bool {
    &&& cs.len() == prims.len()
    &&& forall|i: int| 0 <= i < prims.len() ==> contribution_matches(prims[i], aps, #[trigger] cs[i])
}

/// How many contributions are empty: the recorded degeneracy warnings.
pub open spec fn count_empty(cs: Seq<crate::geometry::GContribution>) -> int
    decreases cs.len(),
{
    if cs.len() == 0 {
        0
    } else {
        count_empty(cs.drop_last()) + if cs.last().ring.len() == 0 {
            1int
        } else {
            0int
        }
    }
}

impl GerberFile {
    /// Rasterizes every primitive, in file order, into exactly one polygon
    /// contribution each, carrying polarity: flashes become their aperture's
    /// shape, draws become capsules around their segment, regions keep their
    /// boundary exactly.
    ///
    /// A primitive whose shape would collapse (a radius below the coordinate
    /// grid) or leave the supported coordinate range contributes an empty
    /// ring; the second result counts exactly those as recorded degeneracy
    /// warnings.
    pub fn vectorize(&self) -> (r: (Vec<crate::geometry::Contribution>, usize))
        requires
            gerber_wf(*self),
        ensures
            vectorized_rel(
                self.primitives@,
                self.apertures@,
                Seq::new(r.0@.len(), |k: int| r.0@[k]@),
            ),
            forall|i: int|
                0 <= i < r.0@.len() ==> crate::geometry::ring_wf(#[trigger] r.0@[i]@.ring),
            r.1 as int == count_empty(Seq::new(r.0@.len(), |k: int| r.0@[k]@)),
    {
        let mut out: Vec<crate::geometry::Contribution> = Vec::new();
        let mut warns: usize = 0;
        let mut i: usize = 0;
        proof {
            assert(Seq::new(out@.len(), |k: int| out@[k]@) =~= Seq::<
                crate::geometry::GContribution,
            >::empty());
        }
        while i < self.primitives.len()
            invariant
                0 <= i <= self.primitives@.len(),
                gerber_wf(*self),
                out@.len() == i,
                forall|k: int|
                    0 <= k < i ==> contribution_matches(
                        self.primitives@[k],
                        self.apertures@,
                        (#[trigger] out@[k])@,
                    ),
                forall|k: int|
                    0 <= k < out@.len() ==> crate::geometry::ring_wf(#[trigger] out@[k]@.ring),
                warns as int == count_empty(Seq::new(out@.len(), |q: int| out@[q]@)),
                warns <= i,
            decreases self.primitives@.len() - i,
        {
            let ghost pre_model = Seq::new(out@.len(), |q: int| out@[q]@);
            proof {
                assert(primitive_wf(self.primitives@[i as int], self.apertures@.len() as int));
            }
            let contribution: crate::geometry::Contribution = match &self.primitives[i] {
                Primitive::Flash { aperture, position, polarity } => {
                    let pos = *position;
                    proof {
                        assert(aperture_wf(self.apertures@[*aperture as int]));
                    }
                    match &self.apertures[*aperture] {
                        Aperture::Circle { diameter } => {
                            let radius = diameter.nm / 2;
                            if radius >= 1 && radius_fits(pos, radius) {
                                let ring = crate::shapes::circle_ring(pos, radius);
                                crate::geometry::Contribution {
                                    points: ring,
                                    shape: crate::geometry::ShapeInfo::Circle {
                                        center: pos,
                                        radius,
                                    },
                                    polarity: *polarity,
                                }
                            } else {
                                crate::geometry::Contribution {
                                    points: Vec::new(),
                                    shape: crate::geometry::ShapeInfo::Path,
                                    polarity: *polarity,
                                }
                            }
                        },
                        Aperture::Rectangle { width, height } => {
                            let hw = width.nm / 2;
                            let hh = height.nm / 2;
                            if hw >= 1 && hh >= 1 && radius_fits(pos, if hw >= hh {
                                hw
                            } else {
                                hh
                            }) {
                                let mn = Point { x: pos.x - hw, y: pos.y - hh };
                                let mx = Point { x: pos.x + hw, y: pos.y + hh };
                                let ring = crate::shapes::rect_ring(mn, mx);
                                crate::geometry::Contribution {
                                    points: ring,
                                    shape: crate::geometry::ShapeInfo::Rect { min: mn, max: mx },
                                    polarity: *polarity,
                                }
                            } else {
                                crate::geometry::Contribution {
                                    points: Vec::new(),
                                    shape: crate::geometry::ShapeInfo::Path,
                                    polarity: *polarity,
                                }
                            }
                        },
                        Aperture::Obround { width, height } => {
                            let w = width.nm;
                            let h = height.nm;
                            let radius = if w <= h {
                                w / 2
                            } else {
                                h / 2
                            };
                            let (a, b) = if w >= h {
                                (
                                    Point { x: pos.x - (w / 2 - radius), y: pos.y },
                                    Point { x: pos.x + (w / 2 - radius), y: pos.y },
                                )
                            } else {
                                (
                                    Point { x: pos.x, y: pos.y - (h / 2 - radius) },
                                    Point { x: pos.x, y: pos.y + (h / 2 - radius) },
                                )
                            };
                            if radius >= 1 && radius_fits(a, radius) && radius_fits(b, radius) {
                                let ring = crate::shapes::capsule_ring(a, b, radius);
                                crate::geometry::Contribution {
                                    points: ring,
                                    shape: crate::geometry::ShapeInfo::Path,
                                    polarity: *polarity,
                                }
                            } else {
                                crate::geometry::Contribution {
                                    points: Vec::new(),
                                    shape: crate::geometry::ShapeInfo::Path,
                                    polarity: *polarity,
                                }
                            }
                        },
                        Aperture::Polygon { diameter, .. } => {
                            let radius = diameter.nm / 2;
                            if radius >= 1 && radius_fits(pos, radius) {
                                let ring = crate::shapes::circle_ring(pos, radius);
                                crate::geometry::Contribution {
                                    points: ring,
                                    shape: crate::geometry::ShapeInfo::Path,
                                    polarity: *polarity,
                                }
                            } else {
                                crate::geometry::Contribution {
                                    points: Vec::new(),
                                    shape: crate::geometry::ShapeInfo::Path,
                                    polarity: *polarity,
                                }
                            }
                        },
                    }
                },
                Primitive::Draw { aperture, start, end, polarity } => {
                    proof {
                        assert(aperture_wf(self.apertures@[*aperture as int]));
                    }
                    let radius = match &self.apertures[*aperture] {
                        Aperture::Circle { diameter } => diameter.nm / 2,
                        Aperture::Rectangle { width, height } => if width.nm <= height.nm {
                            width.nm / 2
                        } else {
                            height.nm / 2
                        },
                        Aperture::Obround { width, height } => if width.nm <= height.nm {
                            width.nm / 2
                        } else {
                            height.nm / 2
                        },
                        Aperture::Polygon { diameter, .. } => diameter.nm / 2,
                    };
                    if radius >= 1 && radius_fits(*start, radius) && radius_fits(*end, radius) {
                        let ring = crate::shapes::capsule_ring(*start, *end, radius);
                        crate::geometry::Contribution {
                            points: ring,
                            shape: crate::geometry::ShapeInfo::Path,
                            polarity: *polarity,
                        }
                    } else {
                        crate::geometry::Contribution {
                            points: Vec::new(),
                            shape: crate::geometry::ShapeInfo::Path,
                            polarity: *polarity,
                        }
                    }
                },
                Primitive::Region { points, polarity } => {
                    let shape = match detect_rect(points) {
                        Some((mn, mx)) => crate::geometry::ShapeInfo::Rect { min: mn, max: mx },
                        None => crate::geometry::ShapeInfo::Path,
                    };
                    let ring = crate::geometry::clone_points(points);
                    crate::geometry::Contribution { points: ring, shape, polarity: *polarity }
                },
            };
            let ghost new_c = contribution@;
            if contribution.points.len() == 0 {
                warns = warns + 1;
            }
            out.push(contribution);
            proof {
                let model = Seq::new(out@.len(), |q: int| out@[q]@);
                assert(model =~= pre_model.push(new_c));
                assert(model.drop_last() =~= pre_model);
                assert(contribution_matches(self.primitives@[i as int], self.apertures@, new_c));
            }
            i = i + 1;
        }
        proof {
            let model = Seq::new(out@.len(), |k: int| out@[k]@);
            assert(forall|k: int| 0 <= k < model.len() ==> #[trigger] model[k] == out@[k]@);
            assert(vectorized_rel(self.primitives@, self.apertures@, model));
        }
        (out, warns)
    }

    /// Resolves the drawing into the raw accumulated polygon set and its
    /// simplification: the raw set is exactly the polarity fold of this
    /// drawing's rasterized contributions, and the simplified set is exactly
    /// its simplification; the third result counts recorded degeneracy
    /// warnings.
    pub fn resolve_geometry(&self) -> (r: (
        crate::geometry::PolygonSet,
        crate::geometry::PolygonSet,
        usize,
    ))
        requires
            gerber_wf(*self),
        ensures
            crate::geometry::set_wf(r.0@),
            r.1@ == crate::geometry::simplify_spec(r.0@),
            crate::geometry::set_wf(r.1@),
            exists|cs: Seq<crate::geometry::GContribution>|
                #[trigger] vectorized_rel(self.primitives@, self.apertures@, cs) && r.0@
                    == crate::geometry::accumulate_spec(cs),
    {
        let (contribs, w1) = self.vectorize();
        let raw = crate::geometry::accumulate(&contribs);
        let (simplified, w2) = crate::geometry::simplify(&raw);
        proof {
            let cs = Seq::new(contribs@.len(), |k: int| contribs@[k]@);
            assert(vectorized_rel(self.primitives@, self.apertures@, cs) && raw@
                == crate::geometry::accumulate_spec(cs));
        }
        let warns = if w1 <= usize::MAX - w2 {
            w1 + w2
        } else {
            usize::MAX
        };
        (raw, simplified, warns)
    }

    /// The bounding box of the simplified copper mask, for sizing a
    /// diagnostic canvas: exactly the box bounding (and attained by) the
    /// points of this drawing's simplified polygon set.
    pub fn calculate_svg_bounds(&self) -> (r: Option<(Point, Point)>)
        requires
            gerber_wf(*self),
        ensures
            exists|cs: Seq<crate::geometry::GContribution>|
                #[trigger] vectorized_rel(self.primitives@, self.apertures@, cs)
                    && crate::geometry::bbox_char(
                    crate::geometry::simplify_spec(crate::geometry::accumulate_spec(cs)),
                    r,
                ),
    {
        let (raw, simplified, _) = self.resolve_geometry();
        let r = simplified.bounding_box();
        proof {
            let cs = choose|cs: Seq<crate::geometry::GContribution>|
                #[trigger] vectorized_rel(self.primitives@, self.apertures@, cs) && raw@
                    == crate::geometry::accumulate_spec(cs);
            assert(vectorized_rel(self.primitives@, self.apertures@, cs)
                && crate::geometry::bbox_char(
                crate::geometry::simplify_spec(crate::geometry::accumulate_spec(cs)),
                r,
            ));
        }
        r
    }

    /// The raw or simplified polygon set as plain 2D vector paths for an
    /// external diagnostic renderer: one path per polygon of the chosen set,
    /// each equal to its ring.
    pub fn debug_render(&self, simplified: bool) -> (r: Vec<Vec<Point>>)
        requires
            gerber_wf(*self),
        ensures
            exists|cs: Seq<crate::geometry::GContribution>|
                #[trigger] vectorized_rel(self.primitives@, self.apertures@, cs)
                    && crate::geometry::paths_match(
                    if simplified {
                        crate::geometry::simplify_spec(crate::geometry::accumulate_spec(cs))
                    } else {
                        crate::geometry::accumulate_spec(cs)
                    },
                    r@,
                ),
    {
        let (raw, simp, _) = self.resolve_geometry();
        let r = if simplified {
            simp.render_paths()
        } else {
            raw.render_paths()
        };
        proof {
            let cs = choose|cs: Seq<crate::geometry::GContribution>|
                #[trigger] vectorized_rel(self.primitives@, self.apertures@, cs) && raw@
                    == crate::geometry::accumulate_spec(cs);
            assert(vectorized_rel(self.primitives@, self.apertures@, cs)
                && crate::geometry::paths_match(
                if simplified {
                    crate::geometry::simplify_spec(crate::geometry::accumulate_spec(cs))
                } else {
                    crate::geometry::accumulate_spec(cs)
                },
                r@,
            ));
        }
        r
    }

    /// Runs the whole stage on this drawing: resolves the geometry and
    /// generates the motion commands for the given tool and step distance.
    ///
    /// The output obeys the tool-engagement discipline, ends with the tool
    /// disengaged, cuts only inside the eroded regions of the drawing's
    /// simplified copper mask, and — when the mask holds no holes — makes
    /// exactly one rapid approach per path-producing polygon and is
    /// non-empty whenever one exists; the second result counts recorded
    /// warnings.
    pub fn generate_gcode(&self, tool: &crate::toolpath::ToolSelection, step: Length) -> (r: (
        Vec<crate::toolpath::MotionCommand>,
        usize,
    ))
        requires
            gerber_wf(*self),
            crate::toolpath::tool_wf(*tool),
            0 < step.nm <= MAX_COORD_NM,
        ensures
            crate::toolpath::path_discipline(r.0@),
            !crate::toolpath::tool_on_after(r.0@, r.0@.len() as int),
            exists|cs: Seq<crate::geometry::GContribution>|
                {
                    let mask = crate::geometry::simplify_spec(
                        crate::geometry::accumulate_spec(cs),
                    );
                    &&& #[trigger] vectorized_rel(self.primitives@, self.apertures@, cs)
                    &&& forall|k: int|
                        0 <= k < r.0@.len() ==> crate::toolpath::cut_governed(
                            mask,
                            tool.spec_diameter() / 2,
                            #[trigger] r.0@[k],
                        )
                    &&& (!crate::geometry::has_holes_spec(mask) ==> crate::toolpath::count_rapids(
                        r.0@,
                    ) == crate::toolpath::count_pathed(mask))
                    &&& (!crate::geometry::has_holes_spec(mask) ==> crate::toolpath::count_cuts(
                        r.0@,
                    ) == crate::toolpath::sum_cuts(mask, tool.spec_diameter() / 2, step.nm as int))
                    &&& (crate::toolpath::count_pathed(mask) > 0 ==> r.0@.len() > 0)
                },
    {
        let (raw, simplified, w1) = self.resolve_geometry();
        let (cmds, w2) = crate::toolpath::generate_toolpath(&simplified, tool, step.nm);
        proof {
            let cs = choose|cs: Seq<crate::geometry::GContribution>|
                #[trigger] vectorized_rel(self.primitives@, self.apertures@, cs) && raw@
                    == crate::geometry::accumulate_spec(cs);
            assert(simplified@ == crate::geometry::simplify_spec(
                crate::geometry::accumulate_spec(cs),
            ));
            assert(vectorized_rel(self.primitives@, self.apertures@, cs));
        }
        let warns = if w1 <= usize::MAX - w2 {
            w1 + w2
        } else {
            usize::MAX
        };
        (cmds, warns)
    }
}

} // verus!
