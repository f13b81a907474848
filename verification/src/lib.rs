//! Laptop control: key remapping, driver installation, network queueing,
//! power profiles and GPU clock tuning.
pub mod error;
pub mod installer;
pub mod json;
pub mod keymap;
pub mod msg;
pub mod network;
pub mod number;
pub mod overclock;
pub mod power;
pub mod text;
