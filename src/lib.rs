//! Keyboard and mouse input turned into the state of a virtual gamepad.
//!
//! Analog quantities (axis contributions, modifier factors, trigger levels,
//! pointer sensitivity) are fixed-point numbers in thousandths: `UNIT` is 1.0.
pub mod types;

pub mod tracker;
pub mod resolve;
pub mod pointer;
pub mod engine;
pub mod gate;
pub mod laws;
