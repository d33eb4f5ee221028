//! Core logic of a vehicle flight computer: board registry and liveness,
//! telemetry calibration, command routing and abort escalation, the sequence
//! supervisor, the ground-link session rules, and the wire codec.
//!
//! All physical quantities are carried in fixed-point micro-units (one
//! millionth of the physical unit), so a reading of 3.5 V is the integer
//! `3_500_000`.

pub mod assoc;
pub mod calibration;
pub mod codec;
pub mod comm;
pub mod config;
pub mod registry;
pub mod router;
pub mod sequence;
pub mod session;
pub mod state;
pub mod wire;
