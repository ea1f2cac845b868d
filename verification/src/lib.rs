//! An efficient way to check whether package versions have been yanked from a
//! registry index.
//!
//! Looking a crate up in a registry index is slow, so instead of one index
//! lookup per version of every package, each crate is looked up once and the
//! answer is cached in memory for the life of the process.

pub mod backend;
pub mod cache;
pub mod error;
pub mod index;
pub mod laws;
pub mod package;
pub mod report;
