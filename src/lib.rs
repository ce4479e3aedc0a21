//! Version management for side-by-side browser installations: the release
//! catalog, the on-disk layout, executable lookup, archive extraction
//! planning, the install sequence and the launch command line.

pub mod catalog;
pub mod extract;
pub mod installer;
pub mod launcher;
pub mod models;
mod order;
pub mod storage;
pub mod text;
