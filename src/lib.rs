//! Group chat synchronization: a height-ordered event log per group, a
//! presence tracker, the catch-up protocol between peers, and the per-group
//! session lifecycle.

pub mod event;
pub mod log;
pub mod presence;
pub mod protocol;
pub mod sync;
pub mod session;
pub mod members;
