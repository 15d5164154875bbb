//! Topological, idempotent, memoized publish across dependants.
//!
//! The session owns the idempotence set of this run. The caller asks for
//! the next package to publish, performs the outside publish call, and
//! reports the outcome; the session marks a package before it is handed
//! out, so diamond dependencies cannot make it come out twice, and a
//! real failure stops the chain. A report that the exact version
//! already exists in the registry counts as success, and the package's
//! dependants are still enqueued.

use vstd::prelude::*;

use crate::graphs::{graph_view, graph_wf, WorkspaceGraphs};
use crate::text::{contains_bytes, find_bytes};

verus! {

/// What the registry reported for one publish attempt.
#[derive(Copy, Clone, PartialEq, Eq, Structural, Debug)]
pub enum PublishOutcome {
    /// The version was uploaded.
    Published,
    /// The exact version already exists in the registry.
    AlreadyPublished,
    /// Any other failure.
    Failed,
}

/// Whether an outcome counts as success: a failure solely because the
/// exact version already exists is treated as success (idempotent
/// retry); only a real failure aborts the chain.
pub open spec fn spec_outcome_ok(o: PublishOutcome) -> bool {
    match o {
        PublishOutcome::Failed => false,
        _ => true,
    }
}

/// `already uploaded`
pub open spec fn already_uploaded_text() -> Seq<u8> {
    seq![
        97u8, 108u8, 114u8, 101u8, 97u8, 100u8, 121u8, 32u8, 117u8, 112u8, 108u8, 111u8,
        97u8, 100u8, 101u8, 100u8,
    ]
}

/// What a publish attempt's exit flag and error text mean: success is
/// an upload; a failure whose message says the version was already
/// uploaded is the already-in-registry case; anything else is a real
/// failure.
pub open spec fn spec_classify_publish(success: bool, err: Seq<u8>) -> PublishOutcome {
    if success {
        PublishOutcome::Published
    } else if contains_bytes(err, already_uploaded_text()) {
        PublishOutcome::AlreadyPublished
    } else {
        PublishOutcome::Failed
    }
}

/// Classifies the registry's answer from the publish call's exit flag
/// and its error text.
pub fn classify_publish_output(success: bool, err: &Vec<u8>) -> (r: PublishOutcome)
    ensures
        r == spec_classify_publish(success, err@),
{
    if success {
        return PublishOutcome::Published;
    }
    // `already uploaded`
    let needle: Vec<u8> = vec![
        97u8, 108u8, 114u8, 101u8, 97u8, 100u8, 121u8, 32u8, 117u8, 112u8, 108u8, 111u8,
        97u8, 100u8, 101u8, 100u8,
    ];
    proof {
        assert(needle@ =~= already_uploaded_text());
    }
    if find_bytes(err, &needle) {
        PublishOutcome::AlreadyPublished
    } else {
        PublishOutcome::Failed
    }
}

/// Returns whether an outcome counts as success.
pub fn outcome_ok(o: &PublishOutcome) -> (r: bool)
    ensures
        r == spec_outcome_ok(*o),
{
    match o {
        PublishOutcome::Failed => false,
        _ => true,
    }
}

/// The worklist after discarding already-published entries from the
/// top, paired with the package handed out, if any.
pub open spec fn pop_next(pending: Seq<usize>, published: Seq<bool>) -> (Seq<usize>, Option<
    usize,
>)
    decreases pending.len(),
{
    if pending.len() == 0 {
        (pending, None::<usize>)
    } else {
        let top = pending.last();
        let rest = pending.drop_last();
        if published[top as int] {
            pop_next(rest, published)
        } else {
            (rest, Some(top))
        }
    }
}

/// A publish session: the idempotence set and the worklist of one run.
pub struct PublishSession {
    /// The idempotence set: entry `i` marks member `i` as already handed
    /// out for publishing this run.
    pub published: Vec<bool>,
    /// Members awaiting a publish attempt, depth-first.
    pub pending: Vec<usize>,
    /// Whether a real publish failure ended the chain.
    pub failed: bool,
}

impl PublishSession {
    /// The worklist refers only to members the set covers.
    pub open spec fn wf(self) -> bool {
        forall|i: int|
            0 <= i < self.pending@.len() ==> (#[trigger] self.pending@[i]) < self.published@.len()
    }

    /// Opens a session for `n` members: nothing published, nothing
    /// pending, no failure.
    pub fn new(n: usize) -> (r: PublishSession)
        ensures
            r.wf(),
            r.published@.len() == n,
            forall|i: int| 0 <= i < n ==> !(#[trigger] r.published@[i]),
            r.pending@.len() == 0,
            !r.failed,
    {
        let mut published: Vec<bool> = Vec::new();
        while published.len() < n
            invariant
                published@.len() <= n,
                forall|i: int| 0 <= i < published@.len() ==> !(#[trigger] published@[i]),
            decreases n - published@.len(),
        {
            published.push(false);
        }
        PublishSession { published, pending: Vec::new(), failed: false }
    }

    /// Requests a deep publish of `root`: enqueues it for the next
    /// attempt. A root already published this run will be skipped when
    /// the worklist is drained.
    pub fn begin(&mut self, root: usize)
        requires
            old(self).wf(),
            root < old(self).published@.len(),
        ensures
            final(self).wf(),
            final(self).pending@ == old(self).pending@.push(root),
            final(self).published == old(self).published,
            final(self).failed == old(self).failed,
    {
        self.pending.push(root);
    }

    /// Hands out the next package to publish, marking it published
    /// first, so that no package is handed out twice in one session.
    /// Entries already published are discarded; after a real failure
    /// nothing more is handed out.
    pub fn next_to_publish(&mut self) -> (r: Option<usize>)
        requires
            old(self).wf(),
        ensures
            final(self).wf(),
            final(self).failed == old(self).failed,
            final(self).published@.len() == old(self).published@.len(),
            old(self).failed ==> *final(self) == *old(self) && r is None,
            !old(self).failed ==> {
                let (rest, cand) = pop_next(old(self).pending@, old(self).published@);
                &&& r == cand
                &&& final(self).pending@ == rest
                &&& (match cand {
                    Some(p) => !old(self).published@[p as int] && final(self).published@
                        == old(self).published@.update(p as int, true),
                    None => final(self).published == old(self).published,
                })
            },
    {
        if self.failed {
            return None;
        }
        while self.pending.len() > 0
            invariant
                self.wf(),
                !old(self).failed,
                self.published == old(self).published,
                self.failed == old(self).failed,
                pop_next(old(self).pending@, old(self).published@) == pop_next(
                    self.pending@,
                    self.published@,
                ),
            decreases self.pending@.len(),
        {
            let ghost pre = self.pending@;
            let p = self.pending.pop().unwrap();
            proof {
                assert(pre.last() == p);
                assert(pre.drop_last() =~= self.pending@);
            }
            if !self.published[p] {
                self.published[p] = true;
                return Some(p);
            }
        }
        None
    }

    /// Records the outcome of publishing `pkg`. On success, including
    /// the already-in-registry case, every direct dependant of `pkg` is
    /// enqueued, so the chain still recurses; a real failure marks the
    /// session failed and enqueues nothing.
    pub fn report(&mut self, graphs: &WorkspaceGraphs, pkg: usize, outcome: PublishOutcome)
        requires
            old(self).wf(),
            graph_wf(graph_view(graphs.dependants@)),
            graphs.dependants@.len() == old(self).published@.len(),
            pkg < graphs.dependants@.len(),
        ensures
            final(self).wf(),
            final(self).published == old(self).published,
            spec_outcome_ok(outcome) ==> {
                &&& final(self).failed == old(self).failed
                &&& final(self).pending@ == old(self).pending@ + graphs.dependants@[pkg as int]@
            },
            !spec_outcome_ok(outcome) ==> {
                &&& final(self).failed
                &&& final(self).pending@ == old(self).pending@
            },
    {
        if outcome_ok(&outcome) {
            let ghost g = graph_view(graphs.dependants@);
            let deg = graphs.dependants[pkg].len();
            proof {
                assert(g[pkg as int] == graphs.dependants@[pkg as int]@);
            }
            let mut k: usize = 0;
            while k < deg
                invariant
                    self.wf(),
                    self.published == old(self).published,
                    self.failed == old(self).failed,
                    g == graph_view(graphs.dependants@),
                    graph_wf(g),
                    graphs.dependants@.len() == self.published@.len(),
                    pkg < graphs.dependants@.len(),
                    k <= deg,
                    deg == g[pkg as int].len(),
                    self.pending@ == old(self).pending@ + g[pkg as int].subrange(0, k as int),
                decreases deg - k,
            {
                let q = graphs.dependants[pkg][k];
                proof {
                    assert(g[pkg as int][k as int] == q);
                    assert(q < g.len());
                    assert(old(self).pending@ + g[pkg as int].subrange(0, k as int).push(q)
                        =~= old(self).pending@ + g[pkg as int].subrange(0, k + 1));
                }
                self.pending.push(q);
                proof {
                    assert(self.pending@ =~= old(self).pending@ + g[pkg as int].subrange(
                        0,
                        k + 1,
                    ));
                }
                k += 1;
            }
            proof {
                assert(g[pkg as int].subrange(0, deg as int) =~= g[pkg as int]);
                assert(self.pending@ =~= old(self).pending@ + graphs.dependants@[pkg as int]@);
            }
        } else {
            self.failed = true;
        }
    }
}

/// The worklist drain never hands out a package that is already marked
/// published.
pub proof fn lemma_pop_next_unpublished(pending: Seq<usize>, published: Seq<bool>)
    ensures
        pop_next(pending, published).1 matches Some(p) ==> !published[p as int],
    decreases pending.len(),
{
    if pending.len() > 0 {
        lemma_pop_next_unpublished(pending.drop_last(), published);
    }
}

/// Law: a deep publish requested twice for one package within a single
/// idempotence-set session publishes it at most once: once a package is
/// marked published, no draining of any worklist hands it out again,
/// and marking happens before the attempt, so a second request only
/// ever finds it marked.
pub proof fn lemma_publish_at_most_once(pending: Seq<usize>, published: Seq<bool>, p: usize)
    requires
        0 <= (p as int) < published.len(),
        published[p as int],
    ensures
        pop_next(pending, published).1 != Some(p),
    decreases pending.len(),
{
    if pending.len() > 0 {
        lemma_publish_at_most_once(pending.drop_last(), published, p);
    }
}

} // verus!
