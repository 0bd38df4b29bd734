use vstd::prelude::*;

pub mod command;
pub mod manifest;
pub mod resolve;
pub mod scan;
pub mod text;

verus! {

/// The ways in which finding the recently changed crate can fail.
#[derive(Debug, Clone, Copy, PartialEq, Eq, Structural)]
pub enum RecentError {
    /// The diff tool could not be run, failed, or printed text that is not UTF-8.
    DiffUnavailable,
    /// The diff named files, but none of them is a relevant file that exists.
    NoValidChange,
    /// No directory with a manifest owns the changed file.
    NoProjectFound,
    /// A manifest exists but could not be read.
    ManifestUnreadable,
    /// The forwarded build command exited with a failure.
    DownstreamFailure,
}

} // verus!
