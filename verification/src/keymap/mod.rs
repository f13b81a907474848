//! Remapping keys: grabbing the keyboards and forwarding their events,
//! substituted, through one virtual device.
pub mod config;
pub mod raw;
