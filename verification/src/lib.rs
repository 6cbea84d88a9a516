//! Watch and notification engine for satellite passes.
//!
//! A subscription binds a tracked satellite to an observer location. The
//! engine decides which predicted passes are new, notifies each of them once,
//! and keeps the notification history bounded.
//!
//! Every quantity is an integer: angles are millionths of a degree, heights
//! are millimetres and instants are seconds since the Unix epoch.

pub mod commands;
pub mod cycle;
pub mod database;
pub mod env_file;
pub mod n2yo;
pub mod policy;
pub mod scheduler;
pub mod util;
