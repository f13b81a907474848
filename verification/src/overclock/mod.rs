//! GPU clock tuning: the one part that leaves the envelope the firmware
//! shipped, and so the one that asks first, climbs in steps and undoes what
//! nobody confirms.
pub mod climb;
pub mod hardware;
pub mod nvidia;
pub mod nvml;
pub mod plan;
pub mod probe;
pub mod request;
pub mod state;
pub mod targets;
