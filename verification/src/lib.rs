//! Core of a local machine-learning workbench: supervision of external
//! training runs, decoding of their structured output, deterministic
//! fingerprinting of dataset directories, and the model-version registry.
//!
//! File and process I/O stay with the caller; the modules here hold the
//! decisions and the data, each with its contract.

pub mod api;
pub mod backend;
pub mod dataset;
pub mod docker;
pub mod errors;
pub mod event;
pub mod fingerprint;
pub mod json;
pub mod records;
pub mod registry;
pub mod strutil;
pub mod workspace;
