//! Raze: a single-artifact archiver built from a tar-style container wrapped
//! in a Zstandard frame.
//!
//! The library is organised around an in-memory model of the data that flows
//! through the two pipelines.  A source (one file, or a directory with its
//! items) is turned into a sequence of archive entries by the path-naming
//! policy, serialised through the tar container, and compressed into one
//! artifact; unpacking reverses the composition and hands back the entries in
//! stream order.  Reading the source tree from disk and materialising entries
//! under a destination directory are left to the thin binary around the
//! library, which exchanges plain values with it.
//!
//! - [`errors`]: the closed failure taxonomy ([`errors::RazeError`]).
//! - [`paths`]: the path-naming policy and archive-name safety checks.
//! - [`entries`]: the model of sources and archive entries, and the plan of
//!   entries that packing a source produces.
//! - [`codec`]: the trusted boundary to the tar and zstd crates.
//! - [`pipeline`]: the pack and unpack pipelines and their round-trip laws.
//! - [`cli`]: the command model and the dispatcher for the binary.

pub mod cli;
pub mod codec;
pub mod entries;
pub mod errors;
pub mod paths;
pub mod pipeline;
