//! Verified core of a video-export driver.
//!
//! The library builds transcoder argument lists and filter graphs from a
//! declarative export request, renders auditable command strings, chooses
//! collision-free output paths, normalizes probed media metadata, parses the
//! transcoder's progress stream, and tracks running jobs in a registry.
//! Process spawning and the surrounding shell live outside the library and
//! consume these functions through plain values.

pub mod assemble;
pub mod command;
pub mod escape;
pub mod filters;
pub mod media;
pub mod numbers;
pub mod outpath;
pub mod probe;
pub mod progress;
pub mod registry;
pub mod text;
