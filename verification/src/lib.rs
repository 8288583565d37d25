//! Converts a 2D PCB fabrication drawing (a Gerber-style vector description
//! of copper geometry) into machine motion instructions (G-code).
//!
//! The pipeline: the drawing text is parsed into geometric primitives
//! (`gerber`), resolved — respecting additive/subtractive polarity — into a
//! simplified polygon representation of the copper mask (`geometry`,
//! `shapes`), and converted, with a selected tool and job parameters
//! (`machine`), into an ordered sequence of motion commands (`toolpath`)
//! serialized to the textual machine dialect (`codec`).
//!
//! All physical quantities are carried as integer fixed-point values with an
//! explicit unit tag (`units`), so that no unlabeled scalar ever crosses the
//! parser/geometry/toolpath boundary.

pub mod codec;
pub mod gerber;
pub mod geometry;
pub mod machine;
pub mod shapes;
pub mod toolpath;
pub mod units;

pub use codec::GCodeFile;
pub use gerber::{parse_drawing, DrawingError, GerberFile};
pub use geometry::{Point, PolygonSet};
pub use machine::{
    JobConfig, LaserConfig, Machine, SpindleBit, SpindleConfig, Tool, ToolConfig, WorkspaceSize,
};
pub use toolpath::{MotionCommand, ToolSelection};
pub use units::Length;
