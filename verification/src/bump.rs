//! Update kinds, semantic-version bumps and the bump propagation policy.

use vstd::prelude::*;

verus! {

/// Kind of update selected for a release: two kinds without a version
/// effect (documentation and chore) and the three semantic-version bumps.
#[derive(Copy, Clone, PartialEq, Eq, Structural, Debug)]
pub enum Update {
    Docs,
    Chore,
    Patch,
    Minor,
    Major,
}

/// Kind of a semantic-version bump.
#[derive(Copy, Clone, PartialEq, Eq, Structural, Debug)]
pub enum Bump {
    Patch,
    Minor,
    Major,
}

/// A semantic version: major, minor and patch component.
#[derive(Copy, Clone, PartialEq, Eq, Structural, Debug)]
pub struct Version {
    pub major: u64,
    pub minor: u64,
    pub patch: u64,
}

impl Update {
    /// The bump kind of this update, if it has a version effect.
    pub open spec fn spec_as_bump(self) -> Option<Bump> {
        match self {
            Update::Docs => None,
            Update::Chore => None,
            Update::Patch => Some(Bump::Patch),
            Update::Minor => Some(Bump::Minor),
            Update::Major => Some(Bump::Major),
        }
    }

    /// Returns update commit type.
    pub fn commit_type(&self) -> (r: &'static str)
        ensures
            r@ == self.spec_commit_type(),
    {
        match self {
            Update::Docs => "docs",
            Update::Chore => "chore",
            Update::Patch => "fix",
            Update::Minor => "feat",
            Update::Major => "feat",
        }
    }

    pub open spec fn spec_commit_type(self) -> Seq<char> {
        match self {
            Update::Docs => "docs"@,
            Update::Chore => "chore"@,
            Update::Patch => "fix"@,
            Update::Minor => "feat"@,
            Update::Major => "feat"@,
        }
    }

    /// Returns update commit description.
    pub fn commit_description(&self) -> (r: &'static str)
        ensures
            r@ == self.spec_commit_description(),
    {
        match self {
            Update::Docs => "docs update",
            Update::Chore => "cleanup",
            Update::Patch => "patch",
            Update::Minor => "minor update",
            Update::Major => "major update",
        }
    }

    pub open spec fn spec_commit_description(self) -> Seq<char> {
        match self {
            Update::Docs => "docs update"@,
            Update::Chore => "cleanup"@,
            Update::Patch => "patch"@,
            Update::Minor => "minor update"@,
            Update::Major => "major update"@,
        }
    }

    /// Returns update bump kind.
    pub fn as_bump(&self) -> (r: Option<Bump>)
        ensures
            r == self.spec_as_bump(),
    {
        match self {
            Update::Docs => None,
            Update::Chore => None,
            Update::Patch => Some(Bump::Patch),
            Update::Minor => Some(Bump::Minor),
            Update::Major => Some(Bump::Major),
        }
    }

    /// The version this update takes `ver` to: bumped for the three bump
    /// kinds, unchanged for documentation and chore updates.
    pub open spec fn spec_bump(self, ver: Version) -> Version {
        match self.spec_as_bump() {
            Some(b) => ver.spec_bump(b),
            None => ver,
        }
    }

    /// Returns the version after applying this update to `ver`.
    pub fn bump(&self, ver: &Version) -> (r: Version)
        requires
            (self.spec_as_bump() matches Some(b)) ==> ver.can_bump(self.spec_as_bump()->Some_0),
        ensures
            r == self.spec_bump(*ver),
    {
        if let Some(bump) = self.as_bump() {
            ver.bump(bump)
        } else {
            *ver
        }
    }
}

impl Bump {
    /// The bump a dependant receives when the root package is bumped by
    /// `self`. The rule, stated once here: an unchanged dependant always
    /// receives a patch bump; a changed dependant inside the commit set
    /// receives the root's bump kind exactly; a changed dependant deferred
    /// out of the commit set receives the root's bump clamped to at most
    /// minor, so a major never propagates onto unreviewed work.
    pub open spec fn spec_dependency(self, changed: bool, commit: bool) -> Bump {
        if !changed {
            Bump::Patch
        } else if !commit {
            match self {
                Bump::Major => Bump::Minor,
                _ => self,
            }
        } else {
            self
        }
    }

    /// Returns dependency bump.
    pub fn dependency(&self, changed: bool, commit: bool) -> (r: Self)
        ensures
            r == self.spec_dependency(changed, commit),
    {
        if !changed {
            Bump::Patch
        } else if !commit {
            match self {
                Bump::Major => Bump::Minor,
                Bump::Minor => Bump::Minor,
                Bump::Patch => Bump::Patch,
            }
        } else {
            *self
        }
    }
}

impl Version {
    /// Whether bumping by `bump` stays within the component's range.
    pub open spec fn can_bump(self, bump: Bump) -> bool {
        match bump {
            Bump::Patch => self.patch < u64::MAX,
            Bump::Minor => self.minor < u64::MAX,
            Bump::Major => self.major < u64::MAX,
        }
    }

    /// The bumped version: the chosen component is incremented and every
    /// lower component is reset to zero.
    pub open spec fn spec_bump(self, bump: Bump) -> Version {
        match bump {
            Bump::Patch => Version { major: self.major, minor: self.minor, patch: (self.patch + 1) as u64 },
            Bump::Minor => Version { major: self.major, minor: (self.minor + 1) as u64, patch: 0 },
            Bump::Major => Version { major: (self.major + 1) as u64, minor: 0, patch: 0 },
        }
    }
}

/// Version bump extension.
pub trait BumpExt: Sized {
    /// Whether bumping by `bump` is possible without overflow.
    spec fn bump_allowed(self, bump: Bump) -> bool;

    /// The value after the bump.
    spec fn spec_bumped(self, bump: Bump) -> Self;

    /// Bumps a version with a given bump kind.
    fn bump(&self, bump: Bump) -> (r: Self)
        requires
            self.bump_allowed(bump),
        ensures
            r == self.spec_bumped(bump),
    ;
}

impl BumpExt for Version {
    open spec fn bump_allowed(self, bump: Bump) -> bool {
        self.can_bump(bump)
    }

    open spec fn spec_bumped(self, bump: Bump) -> Version {
        self.spec_bump(bump)
    }

    fn bump(&self, bump: Bump) -> (r: Version)
    {
        match bump {
            Bump::Patch => Version { major: self.major, minor: self.minor, patch: self.patch + 1 },
            Bump::Minor => Version { major: self.major, minor: self.minor + 1, patch: 0 },
            Bump::Major => Version { major: self.major + 1, minor: 0, patch: 0 },
        }
    }
}

/// Law: an unchanged dependant always receives exactly a patch bump,
/// whatever bump kind was selected for the root package and whether or
/// not the dependant is in the commit set.
pub proof fn lemma_unchanged_dependant_gets_patch(root: Bump, commit: bool)
    ensures
        root.spec_dependency(false, commit) == Bump::Patch,
{
}

/// Law: an update without a version effect bumps no package at all; the
/// update leaves any version exactly as it was.
pub proof fn lemma_no_version_effect_is_noop(u: Update, v: Version)
    requires
        u.spec_as_bump() is None,
    ensures
        u.spec_bump(v) == v,
{
}

/// Law: a changed dependant inside the commit set receives the root's
/// bump kind exactly.
pub proof fn lemma_committed_dependant_matches_root(root: Bump)
    ensures
        root.spec_dependency(true, true) == root,
{
}

/// Law: a changed dependant deferred out of the commit set receives the
/// root's bump clamped to at most minor: a requested major downgrades to
/// minor, and anything else passes through unchanged.
pub proof fn lemma_deferred_dependant_clamped(root: Bump)
    ensures
        root.spec_dependency(true, false) == (if root == Bump::Major { Bump::Minor } else { root }),
{
}

} // verus!
