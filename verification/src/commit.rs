//! Commit staging.
//!
//! A commit builder accumulates the staged-path set of exactly one
//! commit; builders are used strictly sequentially within a run, never
//! concurrently, so stale staged content cannot leak between logically
//! distinct commits. Writing the tree and creating the commit parented
//! on the current tip is the caller's outside work; `commit` hands it
//! the finished request and consumes the builder.

use vstd::prelude::*;

use crate::diff::Diff;
use crate::lines::lines_view;
use crate::pathext::{clean_path, clean_path_bytes};

verus! {

/// The staged-path set of one pending commit.
pub struct CommitBuilder {
    /// The staged paths, in staging order. A path may name a deleted
    /// file: staging it records the deletion.
    pub staged: Vec<Vec<u8>>,
}

/// Everything the outside commit operation needs: the staged paths and
/// the message. The commit is created parented on the current tip.
pub struct CommitRequest {
    pub paths: Vec<Vec<u8>>,
    pub message: Vec<u8>,
}

impl CommitBuilder {
    /// A builder with nothing staged.
    pub fn new() -> (r: CommitBuilder)
        ensures
            r.staged@.len() == 0,
    {
        CommitBuilder { staged: Vec::new() }
    }

    /// Adds file path to the pending commit, cleaned.
    pub fn add_path(&mut self, path: &Vec<u8>)
        ensures
            final(self).staged@.len() == old(self).staged@.len() + 1,
            lines_view(final(self).staged@) == lines_view(old(self).staged@).push(
                clean_path_bytes(path@),
            ),
    {
        let p = clean_path(path);
        self.staged.push(p);
        proof {
            assert(lines_view(self.staged@) =~= lines_view(old(self).staged@).push(
                clean_path_bytes(path@),
            ));
        }
    }

    /// Stages everything a diff names: its changed files, then its
    /// deleted files, each cleaned.
    pub fn add_diff(&mut self, diff: &Diff)
        ensures
            lines_view(final(self).staged@) == lines_view(old(self).staged@) + lines_view(
                diff.changed_files@,
            ).map_values(|p: Seq<u8>| clean_path_bytes(p)) + lines_view(
                diff.deleted_files@,
            ).map_values(|p: Seq<u8>| clean_path_bytes(p)),
    {
        let ghost base = lines_view(self.staged@);
        let mut i: usize = 0;
        while i < diff.changed_files.len()
            invariant
                i <= diff.changed_files@.len(),
                lines_view(self.staged@) =~= base + lines_view(
                    diff.changed_files@.subrange(0, i as int),
                ).map_values(|p: Seq<u8>| clean_path_bytes(p)),
            decreases diff.changed_files@.len() - i,
        {
            self.add_path(&diff.changed_files[i]);
            proof {
                assert(lines_view(self.staged@) =~= base + lines_view(
                    diff.changed_files@.subrange(0, i + 1),
                ).map_values(|p: Seq<u8>| clean_path_bytes(p)));
            }
            i += 1;
        }
        proof {
            assert(diff.changed_files@.subrange(0, diff.changed_files@.len() as int)
                =~= diff.changed_files@);
        }
        let ghost mid = lines_view(self.staged@);
        let mut j: usize = 0;
        while j < diff.deleted_files.len()
            invariant
                j <= diff.deleted_files@.len(),
                lines_view(self.staged@) =~= mid + lines_view(
                    diff.deleted_files@.subrange(0, j as int),
                ).map_values(|p: Seq<u8>| clean_path_bytes(p)),
            decreases diff.deleted_files@.len() - j,
        {
            self.add_path(&diff.deleted_files[j]);
            proof {
                assert(lines_view(self.staged@) =~= mid + lines_view(
                    diff.deleted_files@.subrange(0, j + 1),
                ).map_values(|p: Seq<u8>| clean_path_bytes(p)));
            }
            j += 1;
        }
        proof {
            assert(diff.deleted_files@.subrange(0, diff.deleted_files@.len() as int)
                =~= diff.deleted_files@);
            assert(lines_view(self.staged@) =~= base + lines_view(
                diff.changed_files@,
            ).map_values(|p: Seq<u8>| clean_path_bytes(p)) + lines_view(
                diff.deleted_files@,
            ).map_values(|p: Seq<u8>| clean_path_bytes(p)));
        }
    }

    /// Closes the builder into one commit request carrying exactly the
    /// staged paths and the given message.
    pub fn commit(self, message: Vec<u8>) -> (r: CommitRequest)
        ensures
            r.paths == self.staged,
            r.message == message,
    {
        CommitRequest { paths: self.staged, message }
    }
}

} // verus!
