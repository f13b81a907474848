//! The power mode of the machine: the firmware's profile, the power manager's,
//! and the power envelope; and the supervisor that picks a mode on its own.
pub mod auto;
pub mod backend;
pub mod limits;
pub mod mode;
pub mod module;
pub mod supply;
pub mod watch;
