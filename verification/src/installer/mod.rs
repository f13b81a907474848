//! Installing the patched fan-control driver and the service: what this
//! machine is, what would be done to it, and how it went.
pub mod autodetect;
pub mod detect;
pub mod ec;
pub mod execute;
pub mod module;
pub mod patch;
pub mod plan;
