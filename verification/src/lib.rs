//! A monotonic clock built on a hardware cycle counter.
//!
//! A cycle counter ticks at a rate that is not known in advance. This crate
//! holds the arithmetic that turns counter readings into time: the engine that
//! measures the counter's frequency against a wall clock, the calibration
//! state that results, the conversion between cycles and nanoseconds, and the
//! anchor that maps an instant to unix time.
//!
//! The crate reads no clock itself. Every function takes the readings it works
//! on as plain integers: counter values in cycles, wall-clock values in
//! nanoseconds. All arithmetic is exact integer arithmetic, and every function
//! is total unless its contract says otherwise.

pub mod arith;
pub mod calibration;
pub mod instant;
pub mod tsc_now;

pub use instant::{Anchor, Instant};
pub use tsc_now::CalibrationState;
