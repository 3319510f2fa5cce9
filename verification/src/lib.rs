//! Control core of a battery-powered cellular telemetry device.
//!
//! The firmware around this crate owns the hardware: interrupt lines, the
//! serial line, the modem co-processor and its sockets. This crate owns the
//! decisions. Every component is a small state machine that is told what
//! happened and answers with what to do next, so that the order of
//! operations, the failure policy and the retry accounting are fixed here and
//! proved, whatever drives them.
//!
//! - [`bridge`]: the two interrupt lines of the modem, their priorities and
//!   what their handlers do.
//! - [`lifecycle`]: the ordered bring-up of a session.
//! - [`frame`] and [`relay`]: the pass-through relay between the serial line
//!   and the modem's command engine.
//! - [`payload`] and [`telemetry`]: the buffered readings and the
//!   sense-transmit loop that sends them.
//! - [`signal`]: the modem's report of the signal quality.
//! - [`error`]: the failures that end a run.
//!
//! Each machine comes with a model of itself in plain mathematics, which its
//! functions are proved to follow, and with the laws that hold of every run
//! of the model.

pub mod bridge;
pub mod error;
pub mod frame;
pub mod lifecycle;
pub mod payload;
pub mod relay;
pub mod signal;
pub mod telemetry;
