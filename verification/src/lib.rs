//! Transport and dispatch core of a distributed actor runtime.

pub mod dispatch;
pub mod listener;
pub mod mailbox;
pub mod path;
pub mod registry;
pub mod router;
pub mod wire;
