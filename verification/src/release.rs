//! The release orchestrator.
//!
//! The run is a state machine: the decision logic lives here, exactly
//! specified, while the outside work each action names (prompting,
//! writing previews, running tests, publishing, pushing) is performed by
//! the caller, which then reports the outcome as the next event. Any
//! state from the manifest previews up to the publish step can fall to
//! the rolled-back terminal state, whose action restores every manifest
//! touched so far. Only the finalize state may push or tag, and a dry
//! run skips it.

use vstd::prelude::*;

use crate::bump::{Bump, Update, Version};
use crate::packages::Package;

verus! {

/// Options of a release run.
#[derive(Copy, Clone, PartialEq, Eq, Structural, Debug)]
pub struct Command {
    /// Skip the package tests.
    pub skip_tests: bool,
    /// Do not publish packages.
    pub no_publish: bool,
    /// Execute every state but the final push and tag.
    pub dry_run: bool,
}

/// The states of a release run.
#[derive(Copy, Clone, PartialEq, Eq, Structural, Debug)]
pub enum ReleaseState {
    Idle,
    SelectPackage,
    SelectUpdateKind,
    CollectDependants,
    SelectCommitSet,
    PreviewManifests,
    StageRootCommit,
    Verify,
    Publish,
    StageDependantCommits,
    Finalize,
    /// Terminal: every touched manifest restored.
    RolledBack,
    /// Terminal: the run finished, or the operator cancelled cleanly.
    Done,
}

/// What the outside world reports to the orchestrator.
#[derive(Copy, Clone, PartialEq, Eq, Structural, Debug)]
pub enum ReleaseEvent {
    Started,
    PackageSelected,
    UpdateKindSelected,
    DependantsCollected,
    CommitSetSelected,
    ManifestsPreviewed,
    RootCommitStaged,
    VerifyPassed,
    VerifyFailed,
    PublishSucceeded,
    PublishFailed,
    DependantCommitsStaged,
    Finalized,
    /// The operator selected nothing or declined a confirmation.
    SelectionCancelled,
}

/// What the caller must perform next.
#[derive(Copy, Clone, PartialEq, Eq, Structural, Debug)]
pub enum ReleaseAction {
    PromptPackage,
    PromptUpdateKind,
    Collect,
    PromptCommitSet,
    WritePreviews,
    StageRoot,
    RunVerification,
    RunPublish,
    StageDependants,
    PushAndTag,
    /// Restore every manifest swapped so far to its canonical state.
    RestoreManifests,
    /// Nothing more to do.
    Stop,
}

/// After the root commit is staged (and verified, unless tests are
/// skipped), the run publishes unless publishing is disabled.
pub open spec fn spec_after_verification(cmd: Command) -> (ReleaseState, ReleaseAction) {
    if cmd.no_publish {
        (ReleaseState::StageDependantCommits, ReleaseAction::StageDependants)
    } else {
        (ReleaseState::Publish, ReleaseAction::RunPublish)
    }
}

/// The transition relation of the release run. An event that does not
/// belong to the current state leaves the state alone and asks for
/// nothing.
pub open spec fn spec_step(cmd: Command, s: ReleaseState, e: ReleaseEvent) -> (
    ReleaseState,
    ReleaseAction,
) {
    match (s, e) {
        (ReleaseState::Idle, ReleaseEvent::Started) => (
            ReleaseState::SelectPackage,
            ReleaseAction::PromptPackage,
        ),
        (ReleaseState::SelectPackage, ReleaseEvent::PackageSelected) => (
            ReleaseState::SelectUpdateKind,
            ReleaseAction::PromptUpdateKind,
        ),
        (ReleaseState::SelectPackage, ReleaseEvent::SelectionCancelled) => (
            ReleaseState::Done,
            ReleaseAction::Stop,
        ),
        (ReleaseState::SelectUpdateKind, ReleaseEvent::UpdateKindSelected) => (
            ReleaseState::CollectDependants,
            ReleaseAction::Collect,
        ),
        (ReleaseState::SelectUpdateKind, ReleaseEvent::SelectionCancelled) => (
            ReleaseState::Done,
            ReleaseAction::Stop,
        ),
        (ReleaseState::CollectDependants, ReleaseEvent::DependantsCollected) => (
            ReleaseState::SelectCommitSet,
            ReleaseAction::PromptCommitSet,
        ),
        (ReleaseState::SelectCommitSet, ReleaseEvent::CommitSetSelected) => (
            ReleaseState::PreviewManifests,
            ReleaseAction::WritePreviews,
        ),
        (ReleaseState::SelectCommitSet, ReleaseEvent::SelectionCancelled) => (
            ReleaseState::Done,
            ReleaseAction::Stop,
        ),
        (ReleaseState::PreviewManifests, ReleaseEvent::ManifestsPreviewed) => (
            ReleaseState::StageRootCommit,
            ReleaseAction::StageRoot,
        ),
        (ReleaseState::PreviewManifests, ReleaseEvent::SelectionCancelled) => (
            ReleaseState::RolledBack,
            ReleaseAction::RestoreManifests,
        ),
        (ReleaseState::StageRootCommit, ReleaseEvent::RootCommitStaged) => if cmd.skip_tests {
            spec_after_verification(cmd)
        } else {
            (ReleaseState::Verify, ReleaseAction::RunVerification)
        },
        (ReleaseState::StageRootCommit, ReleaseEvent::SelectionCancelled) => (
            ReleaseState::RolledBack,
            ReleaseAction::RestoreManifests,
        ),
        (ReleaseState::Verify, ReleaseEvent::VerifyPassed) => spec_after_verification(cmd),
        (ReleaseState::Verify, ReleaseEvent::VerifyFailed) => (
            ReleaseState::RolledBack,
            ReleaseAction::RestoreManifests,
        ),
        (ReleaseState::Verify, ReleaseEvent::SelectionCancelled) => (
            ReleaseState::RolledBack,
            ReleaseAction::RestoreManifests,
        ),
        (ReleaseState::Publish, ReleaseEvent::PublishSucceeded) => (
            ReleaseState::StageDependantCommits,
            ReleaseAction::StageDependants,
        ),
        (ReleaseState::Publish, ReleaseEvent::PublishFailed) => (
            ReleaseState::RolledBack,
            ReleaseAction::RestoreManifests,
        ),
        (ReleaseState::Publish, ReleaseEvent::SelectionCancelled) => (
            ReleaseState::RolledBack,
            ReleaseAction::RestoreManifests,
        ),
        (ReleaseState::StageDependantCommits, ReleaseEvent::DependantCommitsStaged) => if cmd.dry_run {
            (ReleaseState::Done, ReleaseAction::Stop)
        } else {
            (ReleaseState::Finalize, ReleaseAction::PushAndTag)
        },
        (ReleaseState::Finalize, ReleaseEvent::Finalized) => (
            ReleaseState::Done,
            ReleaseAction::Stop,
        ),
        _ => (s, ReleaseAction::Stop),
    }
}

/// A release run in progress.
pub struct ReleaseOrchestrator {
    /// The run's options.
    pub cmd: Command,
    /// The current state.
    pub state: ReleaseState,
}

impl ReleaseOrchestrator {
    /// A fresh run, not yet started.
    pub fn new(cmd: Command) -> (r: ReleaseOrchestrator)
        ensures
            r.cmd == cmd,
            r.state == ReleaseState::Idle,
    {
        ReleaseOrchestrator { cmd, state: ReleaseState::Idle }
    }

    /// Advances the run by one event and names the action the caller
    /// must perform next.
    pub fn step(&mut self, event: ReleaseEvent) -> (a: ReleaseAction)
        ensures
            final(self).cmd == old(self).cmd,
            (final(self).state, a) == spec_step(old(self).cmd, old(self).state, event),
    {
        let (next, action) = step_impl(self.cmd, self.state, event);
        self.state = next;
        action
    }
}

/// The executable transition function.
fn step_impl(cmd: Command, s: ReleaseState, e: ReleaseEvent) -> (r: (ReleaseState, ReleaseAction))
    ensures
        r == spec_step(cmd, s, e),
{
    match (s, e) {
        (ReleaseState::Idle, ReleaseEvent::Started) => (
            ReleaseState::SelectPackage,
            ReleaseAction::PromptPackage,
        ),
        (ReleaseState::SelectPackage, ReleaseEvent::PackageSelected) => (
            ReleaseState::SelectUpdateKind,
            ReleaseAction::PromptUpdateKind,
        ),
        (ReleaseState::SelectPackage, ReleaseEvent::SelectionCancelled) => (
            ReleaseState::Done,
            ReleaseAction::Stop,
        ),
        (ReleaseState::SelectUpdateKind, ReleaseEvent::UpdateKindSelected) => (
            ReleaseState::CollectDependants,
            ReleaseAction::Collect,
        ),
        (ReleaseState::SelectUpdateKind, ReleaseEvent::SelectionCancelled) => (
            ReleaseState::Done,
            ReleaseAction::Stop,
        ),
        (ReleaseState::CollectDependants, ReleaseEvent::DependantsCollected) => (
            ReleaseState::SelectCommitSet,
            ReleaseAction::PromptCommitSet,
        ),
        (ReleaseState::SelectCommitSet, ReleaseEvent::CommitSetSelected) => (
            ReleaseState::PreviewManifests,
            ReleaseAction::WritePreviews,
        ),
        (ReleaseState::SelectCommitSet, ReleaseEvent::SelectionCancelled) => (
            ReleaseState::Done,
            ReleaseAction::Stop,
        ),
        (ReleaseState::PreviewManifests, ReleaseEvent::ManifestsPreviewed) => (
            ReleaseState::StageRootCommit,
            ReleaseAction::StageRoot,
        ),
        (ReleaseState::PreviewManifests, ReleaseEvent::SelectionCancelled) => (
            ReleaseState::RolledBack,
            ReleaseAction::RestoreManifests,
        ),
        (ReleaseState::StageRootCommit, ReleaseEvent::RootCommitStaged) => if cmd.skip_tests {
            after_verification(cmd)
        } else {
            (ReleaseState::Verify, ReleaseAction::RunVerification)
        },
        (ReleaseState::StageRootCommit, ReleaseEvent::SelectionCancelled) => (
            ReleaseState::RolledBack,
            ReleaseAction::RestoreManifests,
        ),
        (ReleaseState::Verify, ReleaseEvent::VerifyPassed) => after_verification(cmd),
        (ReleaseState::Verify, ReleaseEvent::VerifyFailed) => (
            ReleaseState::RolledBack,
            ReleaseAction::RestoreManifests,
        ),
        (ReleaseState::Verify, ReleaseEvent::SelectionCancelled) => (
            ReleaseState::RolledBack,
            ReleaseAction::RestoreManifests,
        ),
        (ReleaseState::Publish, ReleaseEvent::PublishSucceeded) => (
            ReleaseState::StageDependantCommits,
            ReleaseAction::StageDependants,
        ),
        (ReleaseState::Publish, ReleaseEvent::PublishFailed) => (
            ReleaseState::RolledBack,
            ReleaseAction::RestoreManifests,
        ),
        (ReleaseState::Publish, ReleaseEvent::SelectionCancelled) => (
            ReleaseState::RolledBack,
            ReleaseAction::RestoreManifests,
        ),
        (ReleaseState::StageDependantCommits, ReleaseEvent::DependantCommitsStaged) => if cmd.dry_run {
            (ReleaseState::Done, ReleaseAction::Stop)
        } else {
            (ReleaseState::Finalize, ReleaseAction::PushAndTag)
        },
        (ReleaseState::Finalize, ReleaseEvent::Finalized) => (
            ReleaseState::Done,
            ReleaseAction::Stop,
        ),
        _ => (s, ReleaseAction::Stop),
    }
}

/// The publish-or-skip decision after the root commit is staged.
fn after_verification(cmd: Command) -> (r: (ReleaseState, ReleaseAction))
    ensures
        r == spec_after_verification(cmd),
{
    if cmd.no_publish {
        (ReleaseState::StageDependantCommits, ReleaseAction::StageDependants)
    } else {
        (ReleaseState::Publish, ReleaseAction::RunPublish)
    }
}

/// Law: from the manifest previews up to the publish step, a declined
/// confirmation falls to the rolled-back terminal state, as does a
/// verification or publish failure in its own state; the demanded
/// action is always the restore of every touched manifest.
pub proof fn lemma_failure_rolls_back(cmd: Command, s: ReleaseState)
    requires
        s == ReleaseState::PreviewManifests || s == ReleaseState::StageRootCommit || s
            == ReleaseState::Verify || s == ReleaseState::Publish,
    ensures
        spec_step(cmd, s, ReleaseEvent::SelectionCancelled) == (
            ReleaseState::RolledBack,
            ReleaseAction::RestoreManifests,
        ),
        spec_step(cmd, ReleaseState::Verify, ReleaseEvent::VerifyFailed) == (
            ReleaseState::RolledBack,
            ReleaseAction::RestoreManifests,
        ),
        spec_step(cmd, ReleaseState::Publish, ReleaseEvent::PublishFailed) == (
            ReleaseState::RolledBack,
            ReleaseAction::RestoreManifests,
        ),
{
}

/// Law: the push-and-tag action is demanded only on the way into the
/// finalize state, and never in a dry run: a dry run executes every
/// prior state but skips the irreversible one.
pub proof fn lemma_only_finalize_pushes(cmd: Command, s: ReleaseState, e: ReleaseEvent)
    ensures
        spec_step(cmd, s, e).1 == ReleaseAction::PushAndTag ==> !cmd.dry_run && spec_step(
            cmd,
            s,
            e,
        ).0 == ReleaseState::Finalize,
        cmd.dry_run ==> spec_step(cmd, s, e).1 != ReleaseAction::PushAndTag,
{
}

/// Law: the two terminal states absorb every event and demand nothing.
pub proof fn lemma_terminal_states_absorb(cmd: Command, e: ReleaseEvent)
    ensures
        spec_step(cmd, ReleaseState::Done, e) == (ReleaseState::Done, ReleaseAction::Stop),
        spec_step(cmd, ReleaseState::RolledBack, e) == (
            ReleaseState::RolledBack,
            ReleaseAction::Stop,
        ),
{
}

/// One dependant's resolved update, computed exactly once per run: when
/// another dependant's manifest later records this package's version,
/// it reads this entry rather than recomputing, so no two referrers can
/// disagree about the same package.
pub struct DependantPlan {
    /// The member index of the dependant.
    pub member: usize,
    /// Its effective bump, absent when the update has no version effect.
    pub bump: Option<Bump>,
    /// Its version after the bump; the recorded version when there is
    /// no version effect.
    pub new_version: Version,
}

/// The effective update of one dependant: nothing under an update
/// without a version effect; otherwise the root's bump filtered through
/// the dependant policy.
pub open spec fn spec_effective_bump(update: Update, changed: bool, commit: bool) -> Option<
    Bump,
> {
    match update.spec_as_bump() {
        None => None,
        Some(b) => Some(b.spec_dependency(changed, commit)),
    }
}

/// Whether every collected dependant can take its effective bump
/// without overflowing a version component.
pub open spec fn plan_bumps_allowed(
    members: Seq<Package>,
    dependants: Seq<usize>,
    in_commit: Seq<bool>,
    update: Update,
) -> bool {
    forall|k: int|
        0 <= k < dependants.len() ==> {
            let m = #[trigger] dependants[k] as int;
            match spec_effective_bump(update, members[m].spec_is_changed(), in_commit[m]) {
                Some(b) => members[m].version.can_bump(b),
                None => true,
            }
        }
}

/// Resolves every dependant's effective bump and new version, each
/// exactly once. `dependants` is the collected dependant list,
/// `in_commit` says per member whether its changes are folded into the
/// reviewed commit.
pub fn plan_dependant_updates(
    members: &Vec<Package>,
    dependants: &Vec<usize>,
    in_commit: &Vec<bool>,
    update: Update,
) -> (r: Vec<DependantPlan>)
    requires
        in_commit@.len() == members@.len(),
        forall|k: int|
            0 <= k < dependants@.len() ==> (#[trigger] dependants@[k]) < members@.len(),
        plan_bumps_allowed(members@, dependants@, in_commit@, update),
    ensures
        r@.len() == dependants@.len(),
        forall|k: int|
            0 <= k < r@.len() ==> {
                let m = dependants@[k] as int;
                let eb = spec_effective_bump(
                    update,
                    members@[m].spec_is_changed(),
                    in_commit@[m],
                );
                &&& (#[trigger] r@[k]).member == dependants@[k]
                &&& r@[k].bump == eb
                &&& r@[k].new_version == (match eb {
                    Some(b) => members@[m].version.spec_bump(b),
                    None => members@[m].version,
                })
            },
{
    let mut r: Vec<DependantPlan> = Vec::new();
    let mut k: usize = 0;
    while k < dependants.len()
        invariant
            k <= dependants@.len(),
            r@.len() == k,
            in_commit@.len() == members@.len(),
            forall|t: int|
                0 <= t < dependants@.len() ==> (#[trigger] dependants@[t]) < members@.len(),
            plan_bumps_allowed(members@, dependants@, in_commit@, update),
            forall|t: int|
                0 <= t < k ==> {
                    let m = dependants@[t] as int;
                    let eb = spec_effective_bump(
                        update,
                        members@[m].spec_is_changed(),
                        in_commit@[m],
                    );
                    &&& (#[trigger] r@[t]).member == dependants@[t]
                    &&& r@[t].bump == eb
                    &&& r@[t].new_version == (match eb {
                        Some(b) => members@[m].version.spec_bump(b),
                        None => members@[m].version,
                    })
                },
        decreases dependants@.len() - k,
    {
        let m = dependants[k];
        let changed = members[m].is_changed();
        let commit = in_commit[m];
        let entry = match update.as_bump() {
            None => DependantPlan {
                member: m,
                bump: None,
                new_version: members[m].version,
            },
            Some(b) => {
                let eb = b.dependency(changed, commit);
                DependantPlan {
                    member: m,
                    bump: Some(eb),
                    new_version: crate::bump::BumpExt::bump(&members[m].version, eb),
                }
            },
        };
        r.push(entry);
        k += 1;
    }
    r
}

/// Law: under any update with a version effect, an unchanged
/// dependant's effective bump is exactly a patch, whether or not it is
/// in the commit set.
pub proof fn lemma_plan_unchanged_is_patch(update: Update, commit: bool)
    requires
        update.spec_as_bump() is Some,
    ensures
        spec_effective_bump(update, false, commit) == Some(Bump::Patch),
{
}

/// Law: a changed dependant in the commit set receives the root's bump
/// kind exactly.
pub proof fn lemma_plan_committed_matches_root(update: Update)
    requires
        update.spec_as_bump() is Some,
    ensures
        spec_effective_bump(update, true, true) == update.spec_as_bump(),
{
}

/// Law: a changed dependant deferred out of the commit set never
/// receives more than a minor bump; a requested major downgrades.
pub proof fn lemma_plan_deferred_clamped(update: Update)
    requires
        update.spec_as_bump() == Some(Bump::Major),
    ensures
        spec_effective_bump(update, true, false) == Some(Bump::Minor),
{
}

/// The members of `items` whose flag is set, in order.
pub open spec fn selected_of(items: Seq<usize>, selected: Seq<bool>) -> Seq<usize>
    decreases items.len(),
{
    if items.len() == 0 {
        Seq::empty()
    } else {
        let rest = selected_of(items.subrange(1, items.len() as int), selected);
        if selected[items[0] as int] {
            seq![items[0]] + rest
        } else {
            rest
        }
    }
}

/// Appending an item appends it to whichever side its flag puts it on.
pub proof fn lemma_selected_of_push(items: Seq<usize>, selected: Seq<bool>, x: usize)
    ensures
        selected_of(items.push(x), selected) == if selected[x as int] {
            selected_of(items, selected).push(x)
        } else {
            selected_of(items, selected)
        },
    decreases items.len(),
{
    if items.len() == 0 {
        assert(items.push(x).len() == 1);
        assert(items.push(x)[0] == x);
        let sub = items.push(x).subrange(1, 1);
        assert(sub.len() == 0);
        assert(selected_of(sub, selected) == Seq::<usize>::empty());
        assert(selected_of(items, selected) == Seq::<usize>::empty());
        if selected[x as int] {
            assert(seq![x] + Seq::<usize>::empty() =~= selected_of(items, selected).push(x));
        }
    } else {
        let rest = items.subrange(1, items.len() as int);
        assert(items.push(x).subrange(1, items.len() as int + 1) =~= rest.push(x));
        lemma_selected_of_push(rest, selected, x);
        assert(items.push(x)[0] == items[0]);
        if selected[items[0] as int] {
            if selected[x as int] {
                assert(seq![items[0]] + selected_of(rest, selected).push(x)
                    =~= (seq![items[0]] + selected_of(rest, selected)).push(x));
            }
        }
    }
}

/// Splits the collected dependants into the subset the operator
/// selected for update and the remainder, keeping the collection order
/// on both sides.
pub fn partition_selected(items: &Vec<usize>, selected: &Vec<bool>) -> (r: (Vec<usize>, Vec<
    usize,
>))
    requires
        forall|k: int| 0 <= k < items@.len() ==> (#[trigger] items@[k]) < selected@.len(),
    ensures
        r.0@ == selected_of(items@, selected@),
        r.1@ == rejected_of(items@, selected@),
{
    let mut chosen: Vec<usize> = Vec::new();
    let mut rest: Vec<usize> = Vec::new();
    let mut i: usize = 0;
    while i < items.len()
        invariant
            i <= items@.len(),
            forall|k: int| 0 <= k < items@.len() ==> (#[trigger] items@[k]) < selected@.len(),
            chosen@ == selected_of(items@.subrange(0, i as int), selected@),
            rest@ == rejected_of(items@.subrange(0, i as int), selected@),
        decreases items@.len() - i,
    {
        proof {
            lemma_selected_of_push(items@.subrange(0, i as int), selected@, items@[i as int]);
            lemma_rejected_of_push(items@.subrange(0, i as int), selected@, items@[i as int]);
            assert(items@.subrange(0, i as int).push(items@[i as int]) =~= items@.subrange(
                0,
                i + 1,
            ));
        }
        let x = items[i];
        if selected[x] {
            chosen.push(x);
        } else {
            rest.push(x);
        }
        i += 1;
    }
    proof {
        assert(items@.subrange(0, items@.len() as int) =~= items@);
    }
    (chosen, rest)
}

/// The members of `items` whose flag is clear, in order.
pub open spec fn rejected_of(items: Seq<usize>, selected: Seq<bool>) -> Seq<usize>
    decreases items.len(),
{
    if items.len() == 0 {
        Seq::empty()
    } else {
        let rest = rejected_of(items.subrange(1, items.len() as int), selected);
        if selected[items[0] as int] {
            rest
        } else {
            seq![items[0]] + rest
        }
    }
}

/// The mirror of `lemma_selected_of_push` for the rejected side.
pub proof fn lemma_rejected_of_push(items: Seq<usize>, selected: Seq<bool>, x: usize)
    ensures
        rejected_of(items.push(x), selected) == if selected[x as int] {
            rejected_of(items, selected)
        } else {
            rejected_of(items, selected).push(x)
        },
    decreases items.len(),
{
    if items.len() == 0 {
        assert(items.push(x).len() == 1);
        assert(items.push(x)[0] == x);
        let sub = items.push(x).subrange(1, 1);
        assert(sub.len() == 0);
        assert(rejected_of(sub, selected) == Seq::<usize>::empty());
        assert(rejected_of(items, selected) == Seq::<usize>::empty());
        if !selected[x as int] {
            assert(seq![x] + Seq::<usize>::empty() =~= rejected_of(items, selected).push(x));
        }
    } else {
        let rest = items.subrange(1, items.len() as int);
        assert(items.push(x).subrange(1, items.len() as int + 1) =~= rest.push(x));
        lemma_rejected_of_push(rest, selected, x);
        assert(items.push(x)[0] == items[0]);
        if !selected[items[0] as int] {
            if !selected[x as int] {
                assert(seq![items[0]] + rejected_of(rest, selected).push(x)
                    =~= (seq![items[0]] + rejected_of(rest, selected)).push(x));
            }
        }
    }
}

} // verus!
