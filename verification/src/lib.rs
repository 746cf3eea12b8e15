//! Geometry core of a PCB gerber-layer inspection tool: canonical units,
//! the view transform pipeline, the layer registry and design-rule checks.

pub mod clock;
pub mod detector;
pub mod display;
pub mod drc;
pub mod geometry;
pub mod grid;
pub mod layer;
pub mod manager;
pub mod pairs;
pub mod ruler;
mod table;
pub mod tabs;
pub mod transform;
pub mod units;
