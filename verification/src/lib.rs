//! Daemon lifecycle and cross-process coordination for a security-posture
//! reporting agent.
//!
//! One short-lived foreground process starts, queries, and stops a long-lived
//! background worker. The two processes share no IPC channel: they coordinate
//! through a lock-guarded state file and through the engine's RPC surface.
//! This crate holds the logic of that coordination — the persisted state
//! record and its text codec, the status-polling decisions, the policy
//! violation monitor, the CI-pipeline cancellation planner, and the launch
//! prechecks — each with a verified contract. Process creation, file I/O and
//! the RPC transport live outside the crate and hand plain values in and out.

pub mod backend;
pub mod canceller;
pub mod device;
pub mod errors;
pub mod launcher;
pub mod monitor;
pub mod poller;
pub mod state;
pub mod store;
pub mod textenc;
pub mod validate;
