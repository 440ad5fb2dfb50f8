//! A local trash zone: files are moved into a holding area instead of being
//! erased, tracked by a metadata index, and can later be restored or purged.
//!
//! The crate holds the decisions of the engine and states them as contracts.
//! It performs no file-system access itself: every operation that touches the
//! disk is planned here as a list of steps, carried out by the caller, and
//! then recorded here again together with how far the steps got.

pub mod cli;
pub mod commands;
pub mod domain;
pub mod errors;
pub mod ids;
pub mod infra;
pub mod ops;
pub mod paths;
pub mod text;
pub mod utils;
