//! Topology-aware configuration and leadership engine for a process
//! supervisor.
//!
//! The crate models the supervisor's core decision logic: an in-memory
//! configuration store merged from a discovery backend's watch events, a
//! leader-election coordinator built on the backend's compare-and-swap
//! primitive, a deterministic template renderer, the managed process's
//! lifecycle state machine, and the control loop that ties them together.

#![allow(unused_imports)]

pub mod accounts;
pub mod config;
pub mod control;
pub mod election;
pub mod process;
pub mod render;
