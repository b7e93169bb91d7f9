//! An event-sourced state service for workspaces and their projects.
//!
//! Clients submit commands; the library validates them, assigns ordering,
//! appends immutable events to a per-workspace log, keeps read projections
//! in sync, and hands events to live subscribers.  The command pipeline,
//! the event store, the projection engine, the schema registry, and the
//! subscription and stdio-session state machines all live here, each with
//! a verified contract.

pub mod auth;
pub mod cli;
pub mod dirs;
pub mod event;
pub mod ids;
pub mod json;
pub mod kernel;
pub mod pipeline;
pub mod projections;
pub mod schema;
pub mod stdio;
pub mod store;
pub mod subscribe;
pub mod text;
pub mod wire;
