//! Classified errors of the engine.

use vstd::prelude::*;

verus! {

/// Everything that can go wrong while loading a registry, computing a
/// circle's rate, or exporting a report.
#[derive(Debug, Clone, Copy, PartialEq, Eq, Structural)]
pub enum DataError {
    /// A path could not be read or opened.
    Io,
    /// A path does not name a supported tabular file, or names a
    /// transient lock file.
    UnsupportedFormat,
    /// The sheet has fewer columns than the requested column indices.
    Schema,
    /// Zero valid rows for a rate computation, or an empty member or
    /// non-member partition for a registry load.
    EmptyData,
    /// An output could not be laid out or written.
    Export,
}

impl DataError {
    /// A short description, for surrounding code that prints errors.
    pub fn message(&self) -> (r: &'static str)
        ensures
            r@ == self.spec_message(),
    {
        match self {
            DataError::Io => "cannot read path",
            DataError::UnsupportedFormat => "not a supported tabular file",
            DataError::Schema => "column width is shorter than expected",
            DataError::EmptyData => "no one here",
            DataError::Export => "cannot export report",
        }
    }

    pub open spec fn spec_message(self) -> Seq<char> {
        match self {
            DataError::Io => "cannot read path"@,
            DataError::UnsupportedFormat => "not a supported tabular file"@,
            DataError::Schema => "column width is shorter than expected"@,
            DataError::EmptyData => "no one here"@,
            DataError::Export => "cannot export report"@,
        }
    }
}

} // verus!
