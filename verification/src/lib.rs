//! A verified core for a disk-defragmentation simulator: the cluster grid
//! and its randomized layout generator, the free-space and pending-cluster
//! caches, the drive catalogue, and the tick-driven phase state machine
//! with its statistics. Rendering, audio output and the command line live
//! outside this crate's verified surface.

pub mod models;
pub mod free_space;
pub mod fragment;
pub mod drive;
pub mod style;
pub mod rng;
pub mod dos_files;
pub mod engine;
pub mod parse;
pub mod widgets;
