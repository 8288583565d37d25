//! The toolpath generator: turns the simplified polygon set, a tool
//! selection and job parameters into an ordered sequence of abstract motion
//! commands.
//!
//! The generator's central discipline, stated as `path_discipline` and proved
//! of its output: a cut move only ever happens while the tool is engaged, a
//! rapid move only while it is disengaged, and every contiguous path turns
//! the tool on at entry and off at exit.

use vstd::prelude::*;

use crate::geometry::{eroded_region, has_holes_spec, FillRule, GPolygon, Point, ShapeInfo};
use crate::units::{AngularVelocity, Length, Power, Velocity, MAX_COORD_NM};

verus! {

/// The tool installed for a job: a laser, or a spindle with a bit.
#[derive(Clone, Copy, PartialEq, Eq, Structural, Debug)]
pub enum ToolSelection {
    Laser { point_diameter: Length, max_power: Power, laser_power: Power, work_speed: Velocity },
    Spindle {
        bit_diameter: Length,
        spindle_rpm: AngularVelocity,
        plunge_speed: Velocity,
        work_speed: Velocity,
        max_cut_depth: Length,
    },
}

impl ToolSelection {
    /// The tool diameter this selection engages the work with.
    pub open spec fn spec_diameter(&self) -> int {
        match *self {
            ToolSelection::Laser { point_diameter, .. } => point_diameter.nm as int,
            ToolSelection::Spindle { bit_diameter, .. } => bit_diameter.nm as int,
        }
    }

    /// Half the tool's physical width: the boundary compensation radius.
    pub fn engagement_radius(&self) -> (r: Length)
        requires
            self.spec_diameter() >= 0,
        ensures
            r.nm == self.spec_diameter() / 2,
    {
        match self {
            ToolSelection::Laser { point_diameter, .. } => Length {
                nm: point_diameter.nm / 2,
            },
            ToolSelection::Spindle { bit_diameter, .. } => Length { nm: bit_diameter.nm / 2 },
        }
    }

    /// The state level handed to `SetToolState`: laser power in milliwatts,
    /// or spindle speed in revolutions per minute.
    pub fn state_level(&self) -> (r: i64)
        ensures
            r == match *self {
                ToolSelection::Laser { laser_power, .. } => laser_power.milliwatts as int,
                ToolSelection::Spindle { spindle_rpm, .. } => spindle_rpm.rpm as int,
            },
    {
        match self {
            ToolSelection::Laser { laser_power, .. } => laser_power.milliwatts,
            ToolSelection::Spindle { spindle_rpm, .. } => spindle_rpm.rpm,
        }
    }
}

/// One abstract machine instruction.
#[derive(Clone, Debug)]
pub enum MotionCommand {
    RapidMove { target: Point },
    CutMove { target: Point, depth: Option<i64>, feed: Option<i64> },
    SetToolState { on: bool, level: i64 },
    Comment { text: Vec<u8> },
}

/// Whether the tool is engaged after the first `n` commands have run.
pub open spec fn tool_on_after(cmds: Seq<MotionCommand>, n: int) -> bool
    decreases n,
{
    if n <= 0 {
        false
    } else {
        match cmds[n - 1] {
            MotionCommand::SetToolState { on, .. } => on,
            _ => tool_on_after(cmds, n - 1),
        }
    }
}

/// The tool-engagement discipline over a command sequence: every cut move
/// runs with the tool engaged, every rapid move with it disengaged.
pub open spec fn path_discipline(cmds: Seq<MotionCommand>) -> bool {
    forall|i: int|
        0 <= i < cmds.len() ==> match #[trigger] cmds[i] {
            MotionCommand::CutMove { .. } => tool_on_after(cmds, i),
            MotionCommand::RapidMove { .. } => !tool_on_after(cmds, i),
            _ => true,
        }
}

/// Appending a command does not change the engagement state at earlier
/// prefixes.
pub proof fn lemma_tool_on_push(cmds: Seq<MotionCommand>, c: MotionCommand, n: int)
    requires
        0 <= n <= cmds.len(),
    ensures
        tool_on_after(cmds.push(c), n) == tool_on_after(cmds, n),
    decreases n,
{
    if n > 0 {
        assert(cmds.push(c)[n - 1] == cmds[n - 1]);
        lemma_tool_on_push(cmds, c, n - 1);
    }
}

/// Appending a command that respects the current engagement state preserves
/// the discipline.
pub proof fn lemma_discipline_push(cmds: Seq<MotionCommand>, c: MotionCommand)
    requires
        path_discipline(cmds),
        c is CutMove ==> tool_on_after(cmds, cmds.len() as int),
        c is RapidMove ==> !tool_on_after(cmds, cmds.len() as int),
    ensures
        path_discipline(cmds.push(c)),
{
    let s = cmds.push(c);
    assert forall|i: int| 0 <= i < s.len() implies match #[trigger] s[i] {
        MotionCommand::CutMove { .. } => tool_on_after(s, i),
        MotionCommand::RapidMove { .. } => !tool_on_after(s, i),
        _ => true,
    } by {
        lemma_tool_on_push(cmds, c, i);
        if i < cmds.len() {
            assert(s[i] == cmds[i]);
        } else {
            assert(s[i] == c);
        }
    }
}

/// An engaged state always stems from an engagement command: whenever the
/// tool is on after `n` commands, some earlier command switched it on and no
/// later command changed the state.
proof fn lemma_engagement_witness(cmds: Seq<MotionCommand>, n: int)
    requires
        0 <= n <= cmds.len(),
        tool_on_after(cmds, n),
    ensures
        exists|j: int|
            0 <= j < n && (#[trigger] cmds[j]) == (MotionCommand::SetToolState {
                on: true,
                level: cmds[j]->SetToolState_level,
            }) && forall|k: int| j < k < n ==> !((#[trigger] cmds[k]) is SetToolState),
    decreases n,
{
    match cmds[n - 1] {
        MotionCommand::SetToolState { on, level } => {
            assert(cmds[n - 1] == (MotionCommand::SetToolState { on: true, level }));
        },
        _ => {
            lemma_engagement_witness(cmds, n - 1);
            let j = choose|j: int|
                0 <= j < n - 1 && (#[trigger] cmds[j]) == (MotionCommand::SetToolState {
                    on: true,
                    level: cmds[j]->SetToolState_level,
                }) && forall|k: int| j < k < n - 1 ==> !((#[trigger] cmds[k]) is SetToolState);
            assert(forall|k: int| j < k < n ==> !((#[trigger] cmds[k]) is SetToolState));
        },
    }
}

/// A cut never starts before a prior tool engagement in the same contiguous
/// path: in any sequence obeying the engagement discipline, every cut move is
/// preceded by a `SetToolState` that turned the tool on, with no further
/// state change between the two.
pub proof fn lemma_cut_follows_engagement(cmds: Seq<MotionCommand>, i: int)
    requires
        path_discipline(cmds),
        0 <= i < cmds.len(),
        cmds[i] is CutMove,
    ensures
        exists|j: int|
            0 <= j < i && (#[trigger] cmds[j]) == (MotionCommand::SetToolState {
                on: true,
                level: cmds[j]->SetToolState_level,
            }) && forall|k: int| j < k < i ==> !((#[trigger] cmds[k]) is SetToolState),
{
    assert(tool_on_after(cmds, i));
    lemma_engagement_witness(cmds, i);
}

/// Whether a command, if it cuts, cuts inside the eroded region of some
/// outer polygon of the set: a hole or free point never governs a cut, and
/// the region is the shape offset inward by the engagement radius (or its
/// best-effort centerline where the polygon is too narrow for the tool).
pub open spec fn cut_governed(set: Seq<GPolygon>, eng: int, c: MotionCommand) -> bool {
    match c {
        MotionCommand::CutMove { target, .. } => exists|i: int|
            0 <= i < set.len() && (#[trigger] set[i]).role == FillRule::Outer && eroded_region(
                set[i],
                eng,
                target.x as int,
                target.y as int,
            ),
        _ => true,
    }
}

/// How many rapid moves a command sequence holds.
pub open spec fn count_rapids(cmds: Seq<MotionCommand>) -> int
    decreases cmds.len(),
{
    if cmds.len() == 0 {
        0
    } else {
        count_rapids(cmds.drop_last()) + if cmds.last() is RapidMove {
            1int
        } else {
            0int
        }
    }
}

/// Whether a polygon of the set produces a tool path: an outer boundary
/// whose erosion yields at least a centerline.
pub open spec fn produces_path(g: GPolygon) -> bool {
    g.role == FillRule::Outer && crate::shapes::shape_pathable(g)
}

/// How many polygons of the set produce a tool path.
pub open spec fn count_pathed(s: Seq<GPolygon>) -> int
    decreases s.len(),
{
    if s.len() == 0 {
        0
    } else {
        count_pathed(s.drop_last()) + if produces_path(s.last()) {
            1int
        } else {
            0int
        }
    }
}

/// How many cut moves a command sequence holds.
pub open spec fn count_cuts(cmds: Seq<MotionCommand>) -> int
    decreases cmds.len(),
{
    if cmds.len() == 0 {
        0
    } else {
        count_cuts(cmds.drop_last()) + if cmds.last() is CutMove {
            1int
        } else {
            0int
        }
    }
}

/// How many raster rows one polygon's interior fill sweeps: the conservative
/// count ceil(extent / step) over the polygon's uneroded extent where the
/// erosion is proper, and none where the polygon degenerates to a
/// centerline.
pub open spec fn rows_of(g: GPolygon, eng: int, step: int) -> int {
    match g.shape {
        ShapeInfo::Circle { radius, .. } => if crate::shapes::proper_circle(g, eng) {
            (2 * radius + step - 1) / step
        } else {
            0
        },
        ShapeInfo::Rect { min, max } => if crate::shapes::proper_rect(g, eng) {
            (max.y - min.y + step - 1) / step
        } else {
            0
        },
        ShapeInfo::Path => 0,
    }
}

/// How many cut moves one polygon's toolpath holds: the approach cut, the
/// outline pass over the offset ring (closed when it has more than one
/// point), and two cuts per raster row.
pub open spec fn cuts_of(g: GPolygon, eng: int, step: int) -> int {
    if !produces_path(g) {
        0
    } else {
        let len = crate::shapes::offset_ring_len(g, eng);
        len + (if len > 1 {
            1int
        } else {
            0int
        }) + 2 * rows_of(g, eng, step)
    }
}

/// The total cut moves the whole set's toolpath holds.
pub open spec fn sum_cuts(s: Seq<GPolygon>, eng: int, step: int) -> int
    decreases s.len(),
{
    if s.len() == 0 {
        0
    } else {
        sum_cuts(s.drop_last(), eng, step) + cuts_of(s.last(), eng, step)
    }
}

/// Appending one command raises the cut count by one exactly when it is a
/// cut move.
proof fn lemma_count_cuts_push(cmds: Seq<MotionCommand>, c: MotionCommand)
    ensures
        count_cuts(cmds.push(c)) == count_cuts(cmds) + if c is CutMove {
            1int
        } else {
            0int
        },
{
    assert(cmds.push(c).drop_last() =~= cmds);
}

/// Appending one command raises the rapid count by one exactly when it is a
/// rapid move.
proof fn lemma_count_rapids_push(cmds: Seq<MotionCommand>, c: MotionCommand)
    ensures
        count_rapids(cmds.push(c)) == count_rapids(cmds) + if c is RapidMove {
            1int
        } else {
            0int
        },
{
    assert(cmds.push(c).drop_last() =~= cmds);
}

/// Appends a rapid move; the tool must be disengaged.
fn push_rapid(
    cmds: &mut Vec<MotionCommand>,
    target: Point,
    Ghost(set): Ghost<Seq<GPolygon>>,
    Ghost(eng): Ghost<int>,
)
    requires
        path_discipline(old(cmds)@),
        !tool_on_after(old(cmds)@, old(cmds)@.len() as int),
        forall|k: int|
            0 <= k < old(cmds)@.len() ==> cut_governed(set, eng, #[trigger] old(cmds)@[k]),
    ensures
        final(cmds)@ == old(cmds)@.push(MotionCommand::RapidMove { target }),
        path_discipline(final(cmds)@),
        !tool_on_after(final(cmds)@, final(cmds)@.len() as int),
        forall|k: int|
            0 <= k < final(cmds)@.len() ==> cut_governed(set, eng, #[trigger] final(cmds)@[k]),
        count_rapids(final(cmds)@) == count_rapids(old(cmds)@) + 1,
        count_cuts(final(cmds)@) == count_cuts(old(cmds)@),
{
    proof {
        lemma_discipline_push(cmds@, MotionCommand::RapidMove { target });
        lemma_tool_on_push(cmds@, MotionCommand::RapidMove { target }, cmds@.len() as int);
        lemma_count_rapids_push(cmds@, MotionCommand::RapidMove { target });
        lemma_count_cuts_push(cmds@, MotionCommand::RapidMove { target });
    }
    cmds.push(MotionCommand::RapidMove { target });
}

/// Appends a cut move; the tool must be engaged, and the target must lie in
/// the eroded region of outer polygon `pi` of the set.
fn push_cut(
    cmds: &mut Vec<MotionCommand>,
    target: Point,
    depth: Option<i64>,
    feed: Option<i64>,
    Ghost(set): Ghost<Seq<GPolygon>>,
    Ghost(eng): Ghost<int>,
    Ghost(pi): Ghost<int>,
)
    requires
        path_discipline(old(cmds)@),
        tool_on_after(old(cmds)@, old(cmds)@.len() as int),
        forall|k: int|
            0 <= k < old(cmds)@.len() ==> cut_governed(set, eng, #[trigger] old(cmds)@[k]),
        0 <= pi < set.len(),
        set[pi].role == FillRule::Outer,
        eroded_region(set[pi], eng, target.x as int, target.y as int),
    ensures
        final(cmds)@ == old(cmds)@.push(MotionCommand::CutMove { target, depth, feed }),
        path_discipline(final(cmds)@),
        tool_on_after(final(cmds)@, final(cmds)@.len() as int),
        forall|k: int|
            0 <= k < final(cmds)@.len() ==> cut_governed(set, eng, #[trigger] final(cmds)@[k]),
        count_rapids(final(cmds)@) == count_rapids(old(cmds)@),
        count_cuts(final(cmds)@) == count_cuts(old(cmds)@) + 1,
{
    proof {
        lemma_discipline_push(cmds@, MotionCommand::CutMove { target, depth, feed });
        lemma_tool_on_push(cmds@, MotionCommand::CutMove { target, depth, feed }, cmds@.len() as int);
        lemma_count_rapids_push(cmds@, MotionCommand::CutMove { target, depth, feed });
        lemma_count_cuts_push(cmds@, MotionCommand::CutMove { target, depth, feed });
        assert(cut_governed(set, eng, MotionCommand::CutMove { target, depth, feed }));
    }
    cmds.push(MotionCommand::CutMove { target, depth, feed });
}

/// Appends a tool-state change; the engagement state afterwards is `on`.
fn push_state(
    cmds: &mut Vec<MotionCommand>,
    on: bool,
    level: i64,
    Ghost(set): Ghost<Seq<GPolygon>>,
    Ghost(eng): Ghost<int>,
)
    requires
        path_discipline(old(cmds)@),
        forall|k: int|
            0 <= k < old(cmds)@.len() ==> cut_governed(set, eng, #[trigger] old(cmds)@[k]),
    ensures
        final(cmds)@ == old(cmds)@.push(MotionCommand::SetToolState { on, level }),
        path_discipline(final(cmds)@),
        tool_on_after(final(cmds)@, final(cmds)@.len() as int) == on,
        forall|k: int|
            0 <= k < final(cmds)@.len() ==> cut_governed(set, eng, #[trigger] final(cmds)@[k]),
        count_rapids(final(cmds)@) == count_rapids(old(cmds)@),
        count_cuts(final(cmds)@) == count_cuts(old(cmds)@),
{
    proof {
        lemma_discipline_push(cmds@, MotionCommand::SetToolState { on, level });
        lemma_count_rapids_push(cmds@, MotionCommand::SetToolState { on, level });
        lemma_count_cuts_push(cmds@, MotionCommand::SetToolState { on, level });
    }
    cmds.push(MotionCommand::SetToolState { on, level });
}

/// Well-formedness of a tool selection for toolpath generation.
pub open spec fn tool_wf(t: ToolSelection) -> bool {
    &&& 2 <= t.spec_diameter() <= MAX_COORD_NM
    &&& match t {
        ToolSelection::Laser { laser_power, work_speed, .. } => 0 <= laser_power.milliwatts && 0
            <= work_speed.nm_per_min,
        ToolSelection::Spindle { spindle_rpm, work_speed, max_cut_depth, .. } => 0
            <= spindle_rpm.rpm && 0 <= work_speed.nm_per_min && 0 <= max_cut_depth.nm
            <= MAX_COORD_NM,
    }
}

/// The `k`-th of `n` raster rows, distributed evenly from `ymin` to `ymax`.
fn row_y(ymin: i64, ymax: i64, k: i64, n: i64) -> (y: i64)
    requires
        -MAX_COORD_NM <= ymin <= ymax <= MAX_COORD_NM,
        1 <= n <= 10_000_000_000_000,
        0 <= k < n,
    ensures
        ymin <= y <= ymax,
{
    if n == 1 {
        let d = ymax - ymin;
        let h = d / 2;
        proof {
            assert(0 <= d / 2 <= d) by (nonlinear_arith)
                requires
                    d >= 0,
            ;
        }
        ymin + h
    } else {
        let d = ymax - ymin;
        proof {
            assert(0 <= (k as int) * (d as int) <= (n - 1) * (d as int)) by (nonlinear_arith)
                requires
                    0 <= k as int <= n - 1,
                    0 <= d as int,
            ;
            vstd::arithmetic::div_mod::lemma_div_is_ordered(
                0,
                (k as int) * (d as int),
                (n - 1) as int,
            );
            vstd::arithmetic::div_mod::lemma_div_is_ordered(
                (k as int) * (d as int),
                (n - 1) * (d as int),
                (n - 1) as int,
            );
            vstd::arithmetic::div_mod::lemma_div_multiples_vanish(d as int, (n - 1) as int);
            assert((n - 1) * (d as int) == ((n - 1) as int) * (d as int));
            assert(0int / ((n - 1) as int) == 0);
        }
        proof {
            assert(0 <= (k as int) * (d as int) <= 20_000_000_000_000_000_000_000_000)
                by (nonlinear_arith)
                requires
                    0 <= k as int <= 10_000_000_000_000,
                    0 <= d as int <= 2_000_000_000_000,
            ;
        }
        let wide: i128 = (k as i128) * (d as i128) / ((n - 1) as i128);
        proof {
            assert(0 <= wide <= d as int);
        }
        ymin + (wide as i64)
    }
}

/// Half the chord of a circle of the given radius at height `dy` off center:
/// the largest `s` with `s * s + dy * dy <= radius * radius`.
fn circle_chord(radius: i64, dy: i64) -> (s: i64)
    requires
        0 <= radius <= MAX_COORD_NM,
        -radius <= dy <= radius,
    ensures
        0 <= s <= radius,
{
    proof {
        assert((radius as int) * (radius as int) <= 1_000_000_000_000_000_000_000_000 && (
        radius as int) * (radius as int) >= 0) by (nonlinear_arith)
            requires
                0 <= radius as int <= 1_000_000_000_000,
        ;
        assert((dy as int) * (dy as int) <= (radius as int) * (radius as int) && (dy as int) * (
        dy as int) >= 0) by (nonlinear_arith)
            requires
                -(radius as int) <= dy as int <= radius as int,
        ;
    }
    let s2: i128 = (radius as i128) * (radius as i128) - (dy as i128) * (dy as i128);
    let s = crate::shapes::isqrt(s2 as u128);
    proof {
        assert((s as int) <= radius as int) by (nonlinear_arith)
            requires
                (s as int) * (s as int) <= (radius as int) * (radius as int),
                0 <= s as int,
                0 <= radius as int,
        ;
    }
    s as i64
}

/// Generates the motion commands that remove exactly the simplified polygon
/// set with the selected tool: for each outer polygon, one rapid approach,
/// tool engagement, a boundary outline pass, an evenly spaced boustrophedon
/// raster fill of the eroded interior, and disengagement; the second result
/// counts tool-mismatch warnings from polygons narrower than the tool.
///
/// The contract proves the engagement discipline — cuts only with the tool
/// on, rapids only with it off, tool off at the end — that every cut stays
/// inside the eroded region of some outer polygon (holes and free points
/// never govern a cut), that with no holes present the rapid moves number
/// exactly the path-producing polygons (one approach per polygon, so two
/// adjacent regions get exactly one rapid transition between them), and
/// that a set with a path-producing polygon yields a non-empty sequence.
pub fn generate_toolpath(set: &crate::geometry::PolygonSet, tool: &ToolSelection, step_nm: i64) -> (r: (
    Vec<MotionCommand>,
    usize,
))
    requires
        crate::geometry::set_wf(set@),
        0 < step_nm <= MAX_COORD_NM,
        tool_wf(*tool),
    ensures
        path_discipline(r.0@),
        !tool_on_after(r.0@, r.0@.len() as int),
        forall|k: int|
            0 <= k < r.0@.len() ==> cut_governed(
                set@,
                tool.spec_diameter() / 2,
                #[trigger] r.0@[k],
            ),
        !has_holes_spec(set@) ==> count_rapids(r.0@) == count_pathed(set@),
        !has_holes_spec(set@) ==> count_cuts(r.0@) == sum_cuts(
            set@,
            tool.spec_diameter() / 2,
            step_nm as int,
        ),
        count_pathed(set@) > 0 ==> r.0@.len() > 0,
{
    let eng = tool.engagement_radius();
    let ghost ge: int = eng.nm as int;
    let level = tool.state_level();
    let depth: Option<i64> = match tool {
        ToolSelection::Laser { .. } => None,
        ToolSelection::Spindle { max_cut_depth, .. } => Some(-max_cut_depth.nm),
    };
    let feed: Option<i64> = match tool {
        ToolSelection::Laser { work_speed, .. } => Some(work_speed.nm_per_min),
        ToolSelection::Spindle { work_speed, .. } => Some(work_speed.nm_per_min),
    };
    let has_holes = any_holes(set);
    let mut cmds: Vec<MotionCommand> = Vec::new();
    let mut warnings: usize = 0;
    let mut i: usize = 0;
    proof {
        assert(set@.subrange(0, 0) =~= Seq::<GPolygon>::empty());
    }
    while i < set.polygons.len()
        invariant
            crate::geometry::set_wf(set@),
            set@.len() == set.polygons@.len(),
            path_discipline(cmds@),
            !tool_on_after(cmds@, cmds@.len() as int),
            forall|k: int| 0 <= k < cmds@.len() ==> cut_governed(set@, ge, #[trigger] cmds@[k]),
            warnings <= i <= set.polygons@.len(),
            1 <= eng.nm <= MAX_COORD_NM,
            ge == eng.nm as int,
            0 < step_nm <= MAX_COORD_NM,
            has_holes == has_holes_spec(set@),
            !has_holes_spec(set@) ==> count_rapids(cmds@) == count_pathed(
                set@.subrange(0, i as int),
            ),
            !has_holes_spec(set@) ==> count_cuts(cmds@) == sum_cuts(
                set@.subrange(0, i as int),
                ge,
                step_nm as int,
            ),
            count_pathed(set@.subrange(0, i as int)) > 0 ==> cmds@.len() > 0,
        decreases set.polygons@.len() - i,
    {
        let ghost pi = i as int;
        let ghost prefix = set@.subrange(0, i as int);
        let ghost prefix1 = set@.subrange(0, i as int + 1);
        proof {
            assert(set@[pi] == set.polygons@[pi]@);
            assert(prefix1.drop_last() =~= prefix);
            assert(prefix1.last() == set@[pi]);
        }
        let p = &set.polygons[i];
        let is_outer = match p.role {
            crate::geometry::FillRule::Outer => true,
            crate::geometry::FillRule::Hole => false,
        };
        if is_outer {
            proof {
                assert(crate::geometry::ring_wf(p@.ring));
                assert(set@[pi].role == FillRule::Outer);
            }
            let (off, warn) = crate::shapes::offset_polygon(p, eng.nm);
            if warn {
                warnings = warnings + 1;
            }
            if off.points.len() > 0 {
                proof {
                    assert(p@ == set@[pi]);
                    assert(produces_path(set@[pi]));
                }
                let ghost rapids_base = count_rapids(cmds@);
                let ghost cuts_base = count_cuts(cmds@);
                proof {
                    assert(off.points@.len() == crate::shapes::offset_ring_len(set@[pi], ge));
                }
                let entry = off.points[0];
                push_rapid(&mut cmds, entry, Ghost(set@), Ghost(ge));
                push_state(&mut cmds, true, level, Ghost(set@), Ghost(ge));
                push_cut(&mut cmds, entry, depth, feed, Ghost(set@), Ghost(ge), Ghost(pi));
                // Boundary outline pass along the eroded ring.
                let mut j: usize = 1;
                while j < off.points.len()
                    invariant
                        1 <= j <= off.points@.len(),
                        path_discipline(cmds@),
                        tool_on_after(cmds@, cmds@.len() as int),
                        forall|k: int|
                            0 <= k < cmds@.len() ==> cut_governed(set@, ge, #[trigger] cmds@[k]),
                        0 <= pi < set@.len(),
                        set@[pi].role == FillRule::Outer,
                        count_rapids(cmds@) == rapids_base + 1,
                        count_cuts(cmds@) == cuts_base + j,
                        cmds@.len() > 0,
                        forall|q: int|
                            0 <= q < off.points@.len() ==> eroded_region(
                                set@[pi],
                                ge,
                                (#[trigger] off.points@[q]).x as int,
                                off.points@[q].y as int,
                            ),
                    decreases off.points@.len() - j,
                {
                    push_cut(&mut cmds, off.points[j], None, None, Ghost(set@), Ghost(ge), Ghost(pi));
                    j = j + 1;
                }
                if off.points.len() > 1 {
                    push_cut(&mut cmds, entry, None, None, Ghost(set@), Ghost(ge), Ghost(pi));
                }
                let ghost outline_cuts = count_cuts(cmds@);
                proof {
                    assert(outline_cuts == cuts_base + off.points@.len() + (
                    if off.points@.len() > 1 {
                        1int
                    } else {
                        0int
                    }));
                }
                // Interior raster fill, only where the erosion was exact.
                if !warn {
                    let (ymin, ymax, ext) = match off.shape {
                        ShapeInfo::Circle { center, radius } => (
                            center.y - radius,
                            center.y + radius,
                            2 * radius + 2 * eng.nm,
                        ),
                        ShapeInfo::Rect { min, max } => (min.y, max.y, max.y - min.y + 2 * eng.nm),
                        ShapeInfo::Path => (0, 0, 0),
                    };
                    if ext > 0 {
                        // Conservative row count from the uneroded extent.
                        let n = (ext + step_nm - 1) / step_nm;
                        proof {
                            assert(1 <= n <= 10_000_000_000_000) by (nonlinear_arith)
                                requires
                                    n as int == (ext as int + step_nm as int - 1) / (
                                    step_nm as int),
                                    0 < ext as int <= 6_000_000_000_000,
                                    0 < step_nm as int,
                            ;
                        }
                        let mut k: i64 = 0;
                        let mut leftward = false;
                        while k < n
                            invariant
                                0 <= k <= n,
                                1 <= n <= 10_000_000_000_000,
                                1 <= eng.nm <= MAX_COORD_NM,
                                ge == eng.nm as int,
                                path_discipline(cmds@),
                                tool_on_after(cmds@, cmds@.len() as int),
                                forall|q: int|
                                    0 <= q < cmds@.len() ==> cut_governed(
                                        set@,
                                        ge,
                                        #[trigger] cmds@[q],
                                    ),
                                0 <= pi < set@.len(),
                                set@[pi].role == FillRule::Outer,
                                has_holes == has_holes_spec(set@),
                                !has_holes_spec(set@) ==> count_rapids(cmds@) == rapids_base + 1,
                                !has_holes_spec(set@) ==> count_cuts(cmds@) == outline_cuts + 2
                                    * k,
                                cmds@.len() > 0,
                                off.shape is Circle || off.shape is Rect,
                                (match off.shape {
                                    ShapeInfo::Circle { center, radius } => {
                                        &&& set@[pi].shape == (ShapeInfo::Circle {
                                            center,
                                            radius: (radius + eng.nm) as i64,
                                        })
                                        &&& ymin == center.y - radius
                                        &&& ymax == center.y + radius
                                        &&& 0 < radius
                                        &&& radius + eng.nm <= MAX_COORD_NM
                                        &&& crate::geometry::coord_ok(center.x - radius)
                                        &&& crate::geometry::coord_ok(center.x + radius)
                                    },
                                    ShapeInfo::Rect { min, max } => {
                                        &&& set@[pi].shape == (ShapeInfo::Rect {
                                            min: Point {
                                                x: (min.x - eng.nm) as i64,
                                                y: (min.y - eng.nm) as i64,
                                            },
                                            max: Point {
                                                x: (max.x + eng.nm) as i64,
                                                y: (max.y + eng.nm) as i64,
                                            },
                                        })
                                        &&& ymin == min.y
                                        &&& ymax == max.y
                                        &&& min.x <= max.x
                                        &&& min.y <= max.y
                                        &&& point_ok_spec(min)
                                        &&& point_ok_spec(max)
                                    },
                                    ShapeInfo::Path => false,
                                }),
                                -MAX_COORD_NM <= ymin <= ymax <= MAX_COORD_NM,
                            decreases n - k,
                        {
                            let y = row_y(ymin, ymax, k, n);
                            let (xs, xe) = match off.shape {
                                ShapeInfo::Circle { center, radius } => {
                                    let s = circle_chord(radius, y - center.y);
                                    (center.x - s, center.x + s)
                                },
                                ShapeInfo::Rect { min, max } => (min.x, max.x),
                                ShapeInfo::Path => (0, 0),
                            };
                            proof {
                                assert(eroded_region(set@[pi], ge, xs as int, y as int));
                                assert(eroded_region(set@[pi], ge, xe as int, y as int));
                            }
                            if !has_holes {
                                // Uninterrupted back-and-forth sweep.
                                let (first, second) = if leftward {
                                    (xe, xs)
                                } else {
                                    (xs, xe)
                                };
                                push_cut(
                                    &mut cmds,
                                    Point { x: first, y },
                                    None,
                                    None,
                                    Ghost(set@),
                                    Ghost(ge),
                                    Ghost(pi),
                                );
                                push_cut(
                                    &mut cmds,
                                    Point { x: second, y },
                                    None,
                                    None,
                                    Ghost(set@),
                                    Ghost(ge),
                                    Ghost(pi),
                                );
                            } else {
                                // Holes interrupt the row: cut each remaining
                                // span separately, the tool disengaged while
                                // hopping over removed area.
                                let segs = row_segments(set, xs, xe, y, eng.nm);
                                let mut t: usize = 0;
                                while t < segs.len()
                                    invariant
                                        0 <= t <= segs@.len(),
                                        forall|q: int|
                                            0 <= q < segs@.len() ==> xs <= (#[trigger] segs@[q]).0
                                                <= segs@[q].1 <= xe,
                                        path_discipline(cmds@),
                                        tool_on_after(cmds@, cmds@.len() as int),
                                        forall|q: int|
                                            0 <= q < cmds@.len() ==> cut_governed(
                                                set@,
                                                ge,
                                                #[trigger] cmds@[q],
                                            ),
                                        0 <= pi < set@.len(),
                                        set@[pi].role == FillRule::Outer,
                                        cmds@.len() > 0,
                                        eroded_region(set@[pi], ge, xs as int, y as int),
                                        eroded_region(set@[pi], ge, xe as int, y as int),
                                        (match set@[pi].shape {
                                            ShapeInfo::Circle { .. } => true,
                                            ShapeInfo::Rect { .. } => true,
                                            ShapeInfo::Path => false,
                                        }),
                                    decreases segs@.len() - t,
                                {
                                    let (a, b) = segs[t];
                                    proof {
                                        lemma_eroded_span(set@[pi], ge, xs as int, xe as int,
                                            a as int, b as int, y as int);
                                    }
                                    push_state(&mut cmds, false, 0, Ghost(set@), Ghost(ge));
                                    push_rapid(&mut cmds, Point { x: a, y }, Ghost(set@), Ghost(ge));
                                    push_state(&mut cmds, true, level, Ghost(set@), Ghost(ge));
                                    push_cut(
                                        &mut cmds,
                                        Point { x: a, y },
                                        None,
                                        None,
                                        Ghost(set@),
                                        Ghost(ge),
                                        Ghost(pi),
                                    );
                                    push_cut(
                                        &mut cmds,
                                        Point { x: b, y },
                                        None,
                                        None,
                                        Ghost(set@),
                                        Ghost(ge),
                                        Ghost(pi),
                                    );
                                    t = t + 1;
                                }
                            }
                            leftward = !leftward;
                            k = k + 1;
                        }
                    }
                }
                push_state(&mut cmds, false, 0, Ghost(set@), Ghost(ge));
                proof {
                    if !has_holes_spec(set@) {
                        assert(count_cuts(cmds@) == cuts_base + cuts_of(
                            set@[pi],
                            ge,
                            step_nm as int,
                        ));
                    }
                }
            } else {
                proof {
                    assert(!crate::shapes::shape_pathable(set@[pi]));
                    assert(!produces_path(set@[pi]));
                    assert(cuts_of(set@[pi], ge, step_nm as int) == 0);
                }
            }
        } else {
            proof {
                assert(set@[pi].role == FillRule::Hole);
                assert(!produces_path(set@[pi]));
            }
        }
        i = i + 1;
    }
    proof {
        assert(set@.subrange(0, set@.len() as int) =~= set@);
    }
    (cmds, warnings)
}

/// A point of a span clipped out of an eroded row stays in the eroded
/// region: the region covers the row from `xs` to `xe`, and the span lies
/// between them.
proof fn lemma_eroded_span(g: GPolygon, eng: int, xs: int, xe: int, a: int, b: int, y: int)
    requires
        eroded_region(g, eng, xs, y),
        eroded_region(g, eng, xe, y),
        xs <= a <= b <= xe,
        g.shape is Circle || g.shape is Rect,
    ensures
        eroded_region(g, eng, a, y),
        eroded_region(g, eng, b, y),
{
}

/// Whether any polygon of the set is a hole.
fn any_holes(set: &crate::geometry::PolygonSet) -> (r: bool)
    ensures
        r == has_holes_spec(set@),
{
    let mut i: usize = 0;
    let mut found = false;
    while i < set.polygons.len()
        invariant
            0 <= i <= set.polygons@.len(),
            set@.len() == set.polygons@.len(),
            found == exists|k: int|
                0 <= k < i && (#[trigger] set@[k]).role == FillRule::Hole,
        decreases set.polygons@.len() - i,
    {
        proof {
            assert(set@[i as int] == set.polygons@[i as int]@);
        }
        match set.polygons[i].role {
            crate::geometry::FillRule::Hole => {
                proof {
                    assert(set@[i as int].role == FillRule::Hole);
                }
                found = true;
            },
            crate::geometry::FillRule::Outer => {},
        }
        i = i + 1;
    }
    found
}

/// The spans of one raster row that remain after removing every hole's
/// footprint, each expanded by the engagement radius so the tool's edge
/// stays out of the hole.
///
/// Spans only ever shrink, so each stays within the row's original interval.
fn row_segments(
    set: &crate::geometry::PolygonSet,
    xs: i64,
    xe: i64,
    y: i64,
    eng: i64,
) -> (r: Vec<(i64, i64)>)
    requires
        xs <= xe,
        0 <= eng <= MAX_COORD_NM,
    ensures
        forall|k: int| 0 <= k < r@.len() ==> xs <= (#[trigger] r@[k]).0 <= r@[k].1 <= xe,
{
    let mut segs: Vec<(i64, i64)> = Vec::new();
    segs.push((xs, xe));
    let mut h: usize = 0;
    while h < set.polygons.len()
        invariant
            0 <= h <= set.polygons@.len(),
            forall|k: int| 0 <= k < segs@.len() ==> xs <= (#[trigger] segs@[k]).0 <= segs@[k].1 <= xe,
        decreases set.polygons@.len() - h,
    {
        let p = &set.polygons[h];
        let is_hole = match p.role {
            crate::geometry::FillRule::Hole => true,
            crate::geometry::FillRule::Outer => false,
        };
        if is_hole {
            let span: Option<(i128, i128)> = match p.shape {
                ShapeInfo::Circle { center, radius } => {
                    let rr_raw: i128 = radius as i128 + eng as i128;
                    let rr: i128 = if rr_raw > 4_000_000_000_000 {
                        4_000_000_000_000
                    } else {
                        rr_raw
                    };
                    let dy: i128 = y as i128 - center.y as i128;
                    if rr >= 0 && -rr <= dy && dy <= rr {
                        proof {
                            assert(0 <= rr * rr <= 16_000_000_000_000_000_000_000_000)
                                by (nonlinear_arith)
                                requires
                                    0 <= rr <= 4_000_000_000_000,
                            ;
                            assert(0 <= dy * dy <= rr * rr) by (nonlinear_arith)
                                requires
                                    -rr <= dy <= rr,
                            ;
                        }
                        let s2: i128 = rr * rr - dy * dy;
                        let s = crate::shapes::isqrt(s2 as u128) as i128;
                        proof {
                            assert((s as int) * (s as int) <= rr * rr);
                            assert(s <= rr) by (nonlinear_arith)
                                requires
                                    (s as int) * (s as int) <= rr * rr,
                                    0 <= s,
                                    0 <= rr,
                            ;
                        }
                        Some((center.x as i128 - s, center.x as i128 + s))
                    } else {
                        None
                    }
                },
                ShapeInfo::Rect { min, max } => {
                    if min.y as i128 - eng as i128 <= y as i128 && y as i128 <= max.y as i128
                        + eng as i128 {
                        Some((min.x as i128 - eng as i128, max.x as i128 + eng as i128))
                    } else {
                        None
                    }
                },
                ShapeInfo::Path => None,
            };
            match span {
                Some((h0, h1)) => {
                    let mut next: Vec<(i64, i64)> = Vec::new();
                    let mut t: usize = 0;
                    while t < segs.len()
                        invariant
                            0 <= t <= segs@.len(),
                            forall|k: int|
                                0 <= k < segs@.len() ==> xs <= (#[trigger] segs@[k]).0
                                    <= segs@[k].1 <= xe,
                            forall|k: int|
                                0 <= k < next@.len() ==> xs <= (#[trigger] next@[k]).0
                                    <= next@[k].1 <= xe,
                        decreases segs@.len() - t,
                    {
                        let (a, b) = segs[t];
                        let aw = a as i128;
                        let bw = b as i128;
                        if h1 <= aw || h0 >= bw {
                            next.push((a, b));
                        } else {
                            if aw < h0 {
                                next.push((a, h0 as i64));
                            }
                            if h1 < bw {
                                next.push((h1 as i64, b));
                            }
                        }
                        t = t + 1;
                    }
                    segs = next;
                },
                None => {},
            }
        }
        h = h + 1;
    }
    segs
}

/// Whether a point's coordinates lie in the supported range.
pub open spec fn point_ok_spec(p: Point) -> bool {
    crate::geometry::point_ok(p)
}

} // verus!
