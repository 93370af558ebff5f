//! On-instrument telemetry agent core: artifact finalization, run
//! classification, durable spooling, and upload scheduling for
//! mass-spectrometry quality-control runs.
//!
//! The library holds every decision of the pipeline; the process around it
//! only reads clocks, directories and sockets and mirrors what is decided
//! here. The pieces:
//!
//! - [`types`], [`errors`], [`config`]: the data model, the error taxonomy,
//!   and the configuration with its defaults and validation.
//! - [`classifier`]: the role a run plays, from its file name and well.
//! - [`finalize`] and [`watcher`]: when an artifact has stopped being
//!   written, and the per-instrument tracking map.
//! - [`spool`]: the durable four-directory payload queue; a payload id lives
//!   in exactly one directory at any moment.
//! - [`uploader`]: the fixed five-step retry ladder and the status policy.
//! - [`orchestrator`], [`payload`], [`extract`]: pipeline dispositions, the
//!   upload envelope, and the extractor invocation and report mapping.
//! - [`failed_files`], [`notify`], [`report`], [`paths`], [`text`]: the
//!   operator-facing registry, notification texts, diagnostics, locations
//!   under the data root, and shared string helpers.
//! - [`outside`]: the few trusted calls into outside crates.

pub mod classifier;
pub mod config;
pub mod errors;
pub mod extract;
pub mod failed_files;
pub mod finalize;
pub mod notify;
pub mod orchestrator;
pub mod outside;
pub mod paths;
pub mod payload;
pub mod report;
pub mod spool;
pub mod text;
pub mod types;
pub mod uploader;
pub mod watcher;
