//! Pre-flight validator for CNC toolpath programs written as G-code-like
//! text. The program text is scanned once, line by line, extracting partial
//! coordinates and tool-change annotations into a small aggregated state;
//! a battery of independent validators then judges that state against
//! configurable thresholds.
//!
//! All real-valued quantities (coordinates, tool diameters, thresholds) are
//! held as exact fixed-point numbers: an `i64` counting millionths of an
//! inch (see `num::SCALE`).

pub mod checks;
pub mod config;
pub mod num;
pub mod outcome;
pub mod parse;
pub mod point;
pub mod state;
