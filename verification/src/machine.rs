//! Machine and job configuration: the read-only descriptor structs the
//! orchestration layer resolves by name and hands into the core.
//!
//! Tools and job configurations are referenced by index here; resolving
//! textual machine, tool and profile names to these structs happens outside
//! the core.

use vstd::prelude::*;

use crate::codec::{render_coord, render_int};
use crate::toolpath::ToolSelection;
use crate::units::{AngularVelocity, Length, Power, Velocity};

verus! {

/// A machine: its tools, its named job configurations, and its safe working
/// area.
#[derive(Clone, Debug)]
pub struct Machine {
    pub tools: Vec<Tool>,
    /// Configurations for materials and tools that can be used for engraving.
    pub engraving_configs: Vec<JobConfig>,
    /// Configurations for materials and tools that can be used for cutting.
    pub cutting_configs: Vec<JobConfig>,
    /// The safe working area of the machine.
    pub workspace_area: WorkspaceSize,
}

/// The safe working area of a machine.
#[derive(Clone, Copy, PartialEq, Eq, Structural, Debug)]
pub struct WorkspaceSize {
    pub width: Length,
    pub height: Length,
}

impl WorkspaceSize {
    /// The area as a width/height pair.
    pub fn size(&self) -> (r: (Length, Length))
        ensures
            r.0 == self.width,
            r.1 == self.height,
    {
        (self.width, self.height)
    }
}

/// Which tool of the machine a job uses, and which bit when it is a spindle.
#[derive(Clone, Copy, PartialEq, Eq, Structural, Debug)]
pub struct ToolReference {
    pub tool: usize,
    pub bit: Option<usize>,
}

/// One material/operation configuration: the tool installed in the machine,
/// the raster step distance, and the tool's power settings.
#[derive(Clone, Copy, PartialEq, Eq, Structural, Debug)]
pub struct JobConfig {
    /// The tool installed in the machine. For a milling machine, this names
    /// the bit as well; for a laser cutter, it names the laser.
    pub tool: ToolReference,
    pub distance_per_step: Length,
    /// The power of the tool. The unit depends on the tool.
    pub tool_power: ToolConfig,
}

/// The step distance used when a configuration names none: a tenth of a
/// millimeter.
pub fn distance_per_step_default() -> (r: Length)
    ensures
        r.nm == 100_000,
{
    Length { nm: 100_000 }
}

/// The power and speed settings a job runs its tool with.
#[derive(Clone, Copy, PartialEq, Eq, Structural, Debug)]
pub enum ToolConfig {
    Laser { laser_power: Power, work_speed: Velocity },
    Drill { spindle_rpm: AngularVelocity, plunge_speed: Velocity },
    EndMill {
        spindle_rpm: AngularVelocity,
        /// The max depth that the end mill should plunge into the board.
        max_cut_depth: Length,
        plunge_speed: Velocity,
        work_speed: Velocity,
    },
}

impl ToolConfig {
    /// A one-line human-readable account of the settings.
    pub fn describe(&self) -> (r: Vec<u8>)
        requires
            self.values_ok(),
        ensures
            r@ == self.describe_spec(),
    {
        let mut out: Vec<u8> = Vec::new();
        match self {
            ToolConfig::Laser { laser_power, work_speed } => {
                crate::codec::push_bytes(
                    &mut out,
                    &[80, 111, 119, 101, 114, 58, 32],
                );
                // Watts, rendered exactly: a milliwatt is a thousandth of a
                // watt, so scaling by a thousand puts the value on the
                // six-decimal renderer's nano scale.
                crate::codec::push_coord(&mut out, laser_power.milliwatts * 1000);
                crate::codec::push_bytes(
                    &mut out,
                    &[32, 87, 44, 32, 87, 111, 114, 107, 32, 83, 112, 101, 101, 100, 58, 32],
                );
                crate::codec::push_coord(&mut out, work_speed.nm_per_min);
                crate::codec::push_bytes(&mut out, &[32, 109, 109, 47, 109]);
            },
            ToolConfig::Drill { spindle_rpm, plunge_speed } => {
                crate::codec::push_bytes(&mut out, &[82, 80, 77, 58, 32]);
                crate::codec::push_int(&mut out, spindle_rpm.rpm);
                crate::codec::push_bytes(
                    &mut out,
                    &[
                        44,
                        32,
                        80,
                        108,
                        117,
                        110,
                        103,
                        101,
                        32,
                        83,
                        112,
                        101,
                        101,
                        100,
                        58,
                        32,
                    ],
                );
                crate::codec::push_coord(&mut out, plunge_speed.nm_per_min);
                crate::codec::push_bytes(&mut out, &[32, 109, 109, 47, 109]);
            },
            ToolConfig::EndMill { spindle_rpm, max_cut_depth, plunge_speed, work_speed } => {
                crate::codec::push_bytes(&mut out, &[82, 80, 77, 58, 32]);
                crate::codec::push_int(&mut out, spindle_rpm.rpm);
                crate::codec::push_bytes(
                    &mut out,
                    &[44, 32, 77, 97, 120, 32, 67, 117, 116, 32, 68, 101, 112, 116, 104, 58, 32],
                );
                crate::codec::push_coord(&mut out, max_cut_depth.nm);
                crate::codec::push_bytes(
                    &mut out,
                    &[
                        32,
                        109,
                        109,
                        44,
                        32,
                        80,
                        108,
                        117,
                        110,
                        103,
                        101,
                        32,
                        83,
                        112,
                        101,
                        101,
                        100,
                        58,
                        32,
                    ],
                );
                crate::codec::push_coord(&mut out, plunge_speed.nm_per_min);
                crate::codec::push_bytes(
                    &mut out,
                    &[
                        32,
                        109,
                        109,
                        47,
                        109,
                        44,
                        32,
                        87,
                        111,
                        114,
                        107,
                        32,
                        83,
                        112,
                        101,
                        101,
                        100,
                        58,
                        32,
                    ],
                );
                crate::codec::push_coord(&mut out, work_speed.nm_per_min);
                crate::codec::push_bytes(&mut out, &[32, 109, 109, 47, 109]);
            },
        }
        out
    }

    /// Whether every value is in the renderable range.
    pub open spec fn values_ok(&self) -> bool {
        match *self {
            ToolConfig::Laser { laser_power, work_speed } => -1_000_000_000_000
                <= laser_power.milliwatts <= 1_000_000_000_000 && -1_000_000_000_000_000
                <= work_speed.nm_per_min <= 1_000_000_000_000_000,
            ToolConfig::Drill { spindle_rpm, plunge_speed } => -1_000_000_000_000_000
                <= spindle_rpm.rpm <= 1_000_000_000_000_000 && -1_000_000_000_000_000
                <= plunge_speed.nm_per_min <= 1_000_000_000_000_000,
            ToolConfig::EndMill { spindle_rpm, max_cut_depth, plunge_speed, work_speed } => {
                &&& -1_000_000_000_000_000 <= spindle_rpm.rpm <= 1_000_000_000_000_000
                &&& -1_000_000_000_000_000 <= max_cut_depth.nm <= 1_000_000_000_000_000
                &&& -1_000_000_000_000_000 <= plunge_speed.nm_per_min <= 1_000_000_000_000_000
                &&& -1_000_000_000_000_000 <= work_speed.nm_per_min <= 1_000_000_000_000_000
            },
        }
    }

    /// The exact text `describe` renders.
    pub open spec fn describe_spec(&self) -> Seq<u8> {
        match *self {
            ToolConfig::Laser { laser_power, work_speed } => seq![
                80u8,
                111,
                119,
                101,
                114,
                58,
                32,
            ] + render_coord(laser_power.milliwatts as int * 1000) + seq![
                32u8,
                87,
                44,
                32,
                87,
                111,
                114,
                107,
                32,
                83,
                112,
                101,
                101,
                100,
                58,
                32,
            ] + render_coord(work_speed.nm_per_min as int) + seq![32u8, 109, 109, 47, 109],
            ToolConfig::Drill { spindle_rpm, plunge_speed } => seq![82u8, 80, 77, 58, 32]
                + render_int(spindle_rpm.rpm as int) + seq![
                44u8,
                32,
                80,
                108,
                117,
                110,
                103,
                101,
                32,
                83,
                112,
                101,
                101,
                100,
                58,
                32,
            ] + render_coord(plunge_speed.nm_per_min as int) + seq![32u8, 109, 109, 47, 109],
            ToolConfig::EndMill { spindle_rpm, max_cut_depth, plunge_speed, work_speed } => seq![
                82u8,
                80,
                77,
                58,
                32,
            ] + render_int(spindle_rpm.rpm as int) + seq![
                44u8,
                32,
                77,
                97,
                120,
                32,
                67,
                117,
                116,
                32,
                68,
                101,
                112,
                116,
                104,
                58,
                32,
            ] + render_coord(max_cut_depth.nm as int) + seq![
                32u8,
                109,
                109,
                44,
                32,
                80,
                108,
                117,
                110,
                103,
                101,
                32,
                83,
                112,
                101,
                101,
                100,
                58,
                32,
            ] + render_coord(plunge_speed.nm_per_min as int) + seq![
                32u8,
                109,
                109,
                47,
                109,
                44,
                32,
                87,
                111,
                114,
                107,
                32,
                83,
                112,
                101,
                101,
                100,
                58,
                32,
            ] + render_coord(work_speed.nm_per_min as int) + seq![32u8, 109, 109, 47, 109],
        }
    }
}

/// A tool a machine carries.
#[derive(Clone, Debug)]
pub enum Tool {
    Laser(LaserConfig),
    Spindle(SpindleConfig),
}

/// A laser head.
#[derive(Clone, Copy, PartialEq, Eq, Structural, Debug)]
pub struct LaserConfig {
    pub point_diameter: Length,
    pub max_power: Power,
}

/// A spindle and the bits it can hold.
#[derive(Clone, Debug)]
pub struct SpindleConfig {
    pub max_speed: AngularVelocity,
    pub bits: Vec<SpindleBit>,
}

/// A bit a spindle can hold.
#[derive(Clone, Copy, PartialEq, Eq, Structural, Debug)]
pub enum SpindleBit {
    Drill { diameter: Length },
    EndMill { diameter: Length },
}

/// Why a job configuration could not be resolved against a machine.
#[derive(Clone, Copy, PartialEq, Eq, Structural, Debug)]
pub enum ConfigError {
    UnknownTool,
    MissingBit,
    UnknownBit,
    ToolKindMismatch,
}

/// Resolves a job configuration against a machine into the tool selection
/// the toolpath generator consumes.
///
/// Fails with `UnknownTool` when the tool index is out of range, with
/// `MissingBit`/`UnknownBit` when a spindle job names no bit or a bit the
/// spindle lacks, and with `ToolKindMismatch` when the job's power settings
/// do not fit the tool's kind.
pub fn resolve_tool_selection(machine: &Machine, job: &JobConfig) -> (r: Result<
    ToolSelection,
    ConfigError,
>)
    ensures
        job.tool.tool >= machine.tools@.len() ==> r == Err::<
            ToolSelection,
            ConfigError,
        >(ConfigError::UnknownTool),
        job.tool.tool < machine.tools@.len() ==> match machine.tools@[job.tool.tool as int] {
            Tool::Laser(laser) => match job.tool_power {
                ToolConfig::Laser { laser_power, work_speed } => r == Ok::<ToolSelection, ConfigError>(
                    ToolSelection::Laser {
                        point_diameter: laser.point_diameter,
                        max_power: laser.max_power,
                        laser_power,
                        work_speed,
                    },
                ),
                _ => r == Err::<ToolSelection, ConfigError>(ConfigError::ToolKindMismatch),
            },
            Tool::Spindle(spindle) => match job.tool.bit {
                None => r == Err::<ToolSelection, ConfigError>(ConfigError::MissingBit),
                Some(b) => if b >= spindle.bits@.len() {
                    r == Err::<ToolSelection, ConfigError>(ConfigError::UnknownBit)
                } else {
                    match job.tool_power {
                        ToolConfig::Drill { spindle_rpm, plunge_speed } => r == Ok::<
                            ToolSelection,
                            ConfigError,
                        >(
                            ToolSelection::Spindle {
                                bit_diameter: bit_diameter_of(spindle.bits@[b as int]),
                                spindle_rpm,
                                plunge_speed,
                                work_speed: plunge_speed,
                                max_cut_depth: Length { nm: 0 },
                            },
                        ),
                        ToolConfig::EndMill {
                            spindle_rpm,
                            max_cut_depth,
                            plunge_speed,
                            work_speed,
                        } => r == Ok::<ToolSelection, ConfigError>(
                            ToolSelection::Spindle {
                                bit_diameter: bit_diameter_of(spindle.bits@[b as int]),
                                spindle_rpm,
                                plunge_speed,
                                work_speed,
                                max_cut_depth,
                            },
                        ),
                        _ => r == Err::<ToolSelection, ConfigError>(ConfigError::ToolKindMismatch),
                    }
                },
            },
        },
{
    if job.tool.tool >= machine.tools.len() {
        return Err(ConfigError::UnknownTool);
    }
    match &machine.tools[job.tool.tool] {
        Tool::Laser(laser) => match job.tool_power {
            ToolConfig::Laser { laser_power, work_speed } => Ok(
                ToolSelection::Laser {
                    point_diameter: laser.point_diameter,
                    max_power: laser.max_power,
                    laser_power,
                    work_speed,
                },
            ),
            _ => Err(ConfigError::ToolKindMismatch),
        },
        Tool::Spindle(spindle) => {
            let b = match job.tool.bit {
                None => {
                    return Err(ConfigError::MissingBit);
                },
                Some(b) => b,
            };
            if b >= spindle.bits.len() {
                return Err(ConfigError::UnknownBit);
            }
            let diameter = match spindle.bits[b] {
                SpindleBit::Drill { diameter } => diameter,
                SpindleBit::EndMill { diameter } => diameter,
            };
            match job.tool_power {
                // A drill only plunges: it traverses at its plunge speed and
                // carries no lateral cutting depth.
                ToolConfig::Drill { spindle_rpm, plunge_speed } => Ok(
                    ToolSelection::Spindle {
                        bit_diameter: diameter,
                        spindle_rpm,
                        plunge_speed,
                        work_speed: plunge_speed,
                        max_cut_depth: Length { nm: 0 },
                    },
                ),
                ToolConfig::EndMill { spindle_rpm, max_cut_depth, plunge_speed, work_speed } => Ok(
                    ToolSelection::Spindle {
                        bit_diameter: diameter,
                        spindle_rpm,
                        plunge_speed,
                        work_speed,
                        max_cut_depth,
                    },
                ),
                _ => Err(ConfigError::ToolKindMismatch),
            }
        },
    }
}

/// The diameter a spindle bit cuts with.
pub open spec fn bit_diameter_of(b: SpindleBit) -> Length {
    match b {
        SpindleBit::Drill { diameter } => diameter,
        SpindleBit::EndMill { diameter } => diameter,
    }
}

} // verus!
