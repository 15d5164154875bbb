//! Per-package change-detection result.

use vstd::prelude::*;

verus! {

/// A package's diff against its last recorded baseline: counts plus the
/// changed-file and deleted-file lists. Computed once per package per
/// run and never invalidated mid-run.
pub struct Diff {
    pub files_changed: usize,
    pub insertions: usize,
    pub deletions: usize,
    pub changed_files: Vec<Vec<u8>>,
    pub deleted_files: Vec<Vec<u8>>,
}

impl Diff {
    /// A diff is empty exactly when no files were changed.
    pub open spec fn spec_is_empty(self) -> bool {
        self.files_changed == 0
    }

    /// Returns true if no files were changed.
    pub fn is_empty(&self) -> (r: bool)
        ensures
            r == self.spec_is_empty(),
    {
        self.files_changed == 0
    }
}

} // verus!
