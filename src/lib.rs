//! Line counting for the files that a Git repository tracks.
//!
//! The library holds the verified logic: the line-count rule over bytes, the
//! incremental scanner used for buffered reads, the planning of a batch by
//! file size, the summary of a batch, the file filter and the error type.
use vstd::prelude::*;

pub mod counter;
pub mod plan;
pub mod filter;
pub mod error;
pub mod output;
pub mod git;
