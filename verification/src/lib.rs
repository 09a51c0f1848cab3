//! A small process-supervision library.
//!
//! The heart of the crate is a registry of named child-process
//! specifications that can be started, stopped, restarted and polled for
//! liveness as a group, in registration order, together with a lifecycle
//! driver that races an application's main task against an external
//! termination request and guarantees a single cleanup pass.

pub mod framing;
pub mod lifecycle;
pub mod logfmt;
pub mod os;
pub mod runtime;
pub mod sysdir;
pub mod updater;
