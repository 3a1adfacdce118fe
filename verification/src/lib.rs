//! Core logic of a local-playground developer tool.
//!
//! The heart of the crate is the watch-and-rerun supervisor: filesystem
//! change events are filtered through an ignore matcher, coalesced by a
//! sliding-window debouncer, and drive a supervised child command through
//! a configurable busy-update policy.  All decision logic is verified;
//! the surrounding process, terminal and filesystem plumbing lives in the
//! unverified shell around this library.

pub mod clean;
pub mod controller;
pub mod debounce;
pub mod error;
pub mod event;
pub mod helpers;
pub mod ignore;
pub mod new;
pub mod open;
pub mod snapshot;
pub mod supervisor;
pub mod watch;
