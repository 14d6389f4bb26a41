//! Core of a background agent that keeps local git working copies in sync
//! with their remotes: a versioned configuration model, a per-repository
//! synchronization state machine, the daemon's event-arbitration core, the
//! line-delimited JSON command protocol, the status-tray model, and the
//! companion command-line grammar.

pub mod cli;
pub mod commands;
pub mod config;
pub mod daemon;
pub mod message;
pub mod protocol;
pub mod strutil;
pub mod sync;
pub mod tray;
