//! Control plane for a 64-channel crossbar instrument: channel addressing,
//! a validated command buffer with atomic commits, synchronous read shaping
//! and the accounting of result frames produced by long-running operations.
//!
//! Voltages are integer microvolts throughout; measured values are carried
//! as an opaque sample type chosen by the caller.

pub mod channels;
pub mod error;
pub mod directives;
pub mod ramp;
pub mod fast;
pub mod readout;
pub mod instruction;
pub mod session;
