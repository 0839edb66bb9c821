//! Inertial cursor motion: while a finger is on the pointing surface the
//! cursor tracks it, and on lift-off the cursor keeps moving with the last
//! observed velocity, decaying smoothly to rest.
//!
//! All positions, timestamps and velocities are fixed-point integers:
//! positions in position units (see [`fixed::UNITS_PER_PIXEL`]), timestamps
//! in microseconds, velocities in position units per second. The platform
//! collaborators (cursor port, touch source, clock) live outside this crate
//! and hand these plain values in.

pub mod app;
pub mod fixed;
pub mod laws;
