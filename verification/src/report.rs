//! Per-circle reports and the aggregate report over a directory.

use vstd::prelude::*;
use crate::extract::Students;
use crate::numfmt::spec_rate_label;

verus! {

/// The outcome of one roster's rate computation.
///
/// The rate itself is carried exactly, as the pair
/// (`gakuyukai_member_count`, `member_count`); `rate_string` is its
/// "NN.NN%" rendering.
#[derive(Debug, Clone)]
pub struct CircleInfo {
    pub file_path: String,
    pub name: String,
    pub rate_string: String,
    pub member_count: i64,
    pub gakuyukai_member_count: i64,
    pub member: Option<Students>,
}

impl CircleInfo {
    /// The counts are consistent and the label renders their ratio.
    pub open spec fn wf(self) -> bool {
        &&& 0 <= self.gakuyukai_member_count <= self.member_count
        &&& self.rate_string@ == spec_rate_label(
            self.gakuyukai_member_count as nat,
            self.member_count as nat,
        )
    }
}

/// The aggregate report of one directory run: the circles that could
/// be computed, and the paths of the files that could not.
#[derive(Debug, Clone)]
pub struct CircleGakuyukaiRates {
    pub circles: Vec<CircleInfo>,
    pub error_file_path: Vec<String>,
}

impl CircleGakuyukaiRates {
    /// A report with no circles and no failed paths.
    pub fn new() -> (r: Self)
        ensures
            r.circles@.len() == 0,
            r.error_file_path@.len() == 0,
    {
        CircleGakuyukaiRates { circles: Vec::new(), error_file_path: Vec::new() }
    }

    /// Appends one computed circle.
    pub fn push(&mut self, info: CircleInfo)
        ensures
            final(self).circles@ == old(self).circles@.push(info),
            final(self).error_file_path@ == old(self).error_file_path@,
    {
        self.circles.push(info);
    }

    /// Records one path whose processing failed.
    pub fn push_error_file_path(&mut self, path: String)
        ensures
            final(self).circles@ == old(self).circles@,
            final(self).error_file_path@ == old(self).error_file_path@.push(path),
    {
        self.error_file_path.push(path);
    }
}

} // verus!
