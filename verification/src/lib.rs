//! Staggered, round-robin flush schedule of a multi-level cascading buffer.
//!
//! Every level of the structure is a ring of bins. The bins of one level
//! flush one at a time, in a fixed rotation, and each level is a factor
//! slower than the one above it. The library answers one question: in which
//! state is a given bin of a given level at a given logical time step?
//!
//! * [`schedule`] is the mathematical model: the period, the warm-up offsets
//!   and the state of a bin, as spec functions over unbounded integers.
//! * [`config`] holds the configuration and its validation.
//! * [`engine`] is the executable schedule, proved equal to the model.
//! * [`laws`] proves what the rotation guarantees: periodicity, a unique
//!   flusher, full coverage of a rotation and touch-before-flush.
//! * [`navigation`] is the time-step controller of an interactive viewer.
//! * [`layout`] is the geometry of the grid that such a viewer draws.

pub mod schedule;
pub mod config;
pub mod engine;
pub mod laws;
pub mod navigation;
pub mod layout;

pub use config::{LertVisualizer, ScheduleError};
pub use schedule::BinState;
pub use engine::LevelTiming;
pub use navigation::{Command, Reaction};
pub use layout::Mark;
