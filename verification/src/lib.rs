//! The engine of `cargo loom`, which runs the Loom tests of a package in
//! two passes: a quick pass without diagnostics that finds the failing
//! cases, then a run of each failing case from a checkpoint, with logging
//! and location capture switched on.
//!
//! The engine decides; it does not act. It says which commands are to be
//! run and with which environment, decodes what a test binary reports,
//! keeps the ledger of failures, and takes each re-run through its steps.
//! Spawning processes, reading directories and writing to the terminal
//! is left to the caller, which hands back what it saw.
//!
//! - [`event`]: the events of a test run and how a line is decoded
//! - [`checkpoint`]: where the checkpoint of a case lives
//! - [`ledger`]: the failures found, by suite
//! - [`discovery`]: the first pass
//! - [`rerun`]: the second pass
//! - [`config`], [`command`]: the configuration and the commands made from it
//! - [`trace`], [`render`], [`issue`]: how diagnostics are shown
//! - [`suite`], [`paths`], [`json`], [`text`]: what the others are built on

pub mod text;
pub mod paths;
pub mod json;
pub mod checkpoint;
pub mod suite;
pub mod ledger;
pub mod event;
pub mod command;
pub mod trace;
pub mod config;
pub mod discovery;
pub mod rerun;
pub mod render;
pub mod issue;

pub use crate::config::App;
pub use crate::ledger::Failed;
pub use crate::rerun::TestOutput;
pub use crate::suite::FailedTest;
