//! A terminal status dashboard library.
//!
//! The library renders a color-coded text report about a machine: a system
//! identity block, network interface counters, memory usage and disk usage.
//! All telemetry (disk lists, memory counters, network counters, command
//! output) is handed in as plain values by the caller; the library holds the
//! layout engine: a Unicode-aware table builder, a utilization-bar renderer
//! with threshold-based coloring, and the measure-then-render orchestration
//! that lays every section out to one shared width.

pub mod components;
pub mod defaults;
pub mod errors;
pub mod frac;
pub mod orchestrator;
pub mod snapshot;
pub mod table;
pub mod tools;
pub mod text;
