//! Workspace packages and their dependencies.
//!
//! A package's change flag comes from its diff; a dependency's change
//! flag is memoized once, at workspace load, from the referenced
//! member's diff, and never re-queried mid-run.

use vstd::prelude::*;

use crate::bump::Version;
use crate::diff::Diff;
use crate::text::bytes_eq;

verus! {

/// A declared dependency of a package.
pub struct Dependency {
    /// Name of the referenced package.
    pub name: Vec<u8>,
    /// Whether the referenced package's diff is non-empty; memoized at
    /// workspace load.
    pub changed: bool,
    /// Whether the dependency is optional.
    pub optional: bool,
    /// Whether the dependency uses default features.
    pub default_features: bool,
    /// The dependency's requested feature names.
    pub features: Vec<Vec<u8>>,
}

impl Dependency {
    /// Returns true if the referenced package is changed.
    pub fn is_changed(&self) -> (r: bool)
        ensures
            r == self.changed,
    {
        self.changed
    }
}

/// A workspace member.
pub struct Package {
    /// The package's unique name.
    pub name: Vec<u8>,
    /// The package's semantic version.
    pub version: Version,
    /// The package's diff, if one was computed.
    pub diff: Option<Diff>,
    /// The package's declared dependencies.
    pub dependencies: Vec<Dependency>,
    /// The package's directory, relative to the repository root.
    pub directory: Vec<u8>,
    /// The package's manifest path, relative to the repository root.
    pub manifest_path: Vec<u8>,
}

impl Package {
    /// A package is changed exactly when it has a non-empty diff.
    pub open spec fn spec_is_changed(self) -> bool {
        match self.diff {
            Some(d) => !d.spec_is_empty(),
            None => false,
        }
    }

    /// Returns true if the package diff is present and not empty.
    pub fn is_changed(&self) -> (r: bool)
        ensures
            r == self.spec_is_changed(),
    {
        match &self.diff {
            Some(d) => !d.is_empty(),
            None => false,
        }
    }

    /// Returns package dependencies.
    pub fn dependencies(&self) -> (r: &Vec<Dependency>)
        ensures
            r == &self.dependencies,
    {
        &self.dependencies
    }

    /// Returns package manifest path.
    pub fn manifest_path(&self) -> (r: &Vec<u8>)
        ensures
            r == &self.manifest_path,
    {
        &self.manifest_path
    }

    /// Returns package directory.
    pub fn directory(&self) -> (r: &Vec<u8>)
        ensures
            r == &self.directory,
    {
        &self.directory
    }
}

/// Whether some member of `members` is named `name` and is changed.
pub open spec fn member_name_changed(members: Seq<Package>, name: Seq<u8>) -> bool {
    exists|j: int|
        0 <= j < members.len() && members[j].name@ == name && members[j].spec_is_changed()
}

/// Whether two packages agree on everything except their dependencies'
/// change flags.
pub open spec fn same_but_dep_flags(a: Package, b: Package) -> bool {
    &&& a.name == b.name
    &&& a.version == b.version
    &&& a.diff == b.diff
    &&& a.directory == b.directory
    &&& a.manifest_path == b.manifest_path
    &&& a.dependencies@.len() == b.dependencies@.len()
    &&& forall|d: int|
        0 <= d < a.dependencies@.len() ==> {
            &&& (#[trigger] a.dependencies@[d]).name == b.dependencies@[d].name
            &&& a.dependencies@[d].optional == b.dependencies@[d].optional
            &&& a.dependencies@[d].default_features == b.dependencies@[d].default_features
            &&& a.dependencies@[d].features == b.dependencies@[d].features
        }
}

/// The number of changed packages among the first `n`.
pub open spec fn count_changed(members: Seq<Package>) -> nat
    decreases members.len(),
{
    if members.len() == 0 {
        0
    } else {
        (if members[0].spec_is_changed() {
            1nat
        } else {
            0nat
        }) + count_changed(members.subrange(1, members.len() as int))
    }
}

/// Appending a package adds one to the changed count exactly when it is
/// changed.
pub proof fn lemma_count_changed_push(members: Seq<Package>, p: Package)
    ensures
        count_changed(members.push(p)) == count_changed(members) + (if p.spec_is_changed() {
            1nat
        } else {
            0nat
        }),
    decreases members.len(),
{
    if members.len() == 0 {
        assert(members.push(p).len() == 1);
        assert(members.push(p)[0] == p);
        let sub = members.push(p).subrange(1, 1);
        assert(sub.len() == 0);
        assert(count_changed(sub) == 0);
        assert(count_changed(members) == 0);
    } else {
        let rest = members.subrange(1, members.len() as int);
        assert(members.push(p).subrange(1, members.len() as int + 1) =~= rest.push(p));
        lemma_count_changed_push(rest, p);
        assert(members.push(p)[0] == members[0]);
        assert(count_changed(members.push(p)) == (if members[0].spec_is_changed() {
            1nat
        } else {
            0nat
        }) + count_changed(rest.push(p)));
    }
}

/// Looks up whether any member in the parallel name/changed lists is
/// named `name` and changed.
fn lookup_changed(names: &Vec<Vec<u8>>, changed: &Vec<bool>, name: &Vec<u8>) -> (r: bool)
    requires
        names@.len() == changed@.len(),
    ensures
        r == exists|j: int|
            0 <= j < names@.len() && names@[j]@ == name@ && changed@[j],
{
    let mut i: usize = 0;
    while i < names.len()
        invariant
            i <= names@.len(),
            names@.len() == changed@.len(),
            forall|j: int| 0 <= j < i ==> !(names@[j]@ == name@ && changed@[j]),
        decreases names@.len() - i,
    {
        if changed[i] && bytes_eq(&names[i], name) {
            return true;
        }
        i += 1;
    }
    false
}

/// The workspace's packages.
pub struct Packages {
    pub inner: Vec<Package>,
}

impl Packages {
    /// Builds the package list, memoizing each dependency's change flag
    /// from the referenced member's diff: a dependency is changed exactly
    /// when it names a changed member of the workspace.
    pub fn new(raw: Vec<Package>) -> (r: Packages)
        ensures
            r.inner@.len() == raw@.len(),
            forall|i: int|
                0 <= i < raw@.len() ==> same_but_dep_flags(#[trigger] r.inner@[i], raw@[i]),
            forall|i: int, d: int|
                0 <= i < raw@.len() && 0 <= d < raw@[i].dependencies@.len()
                    ==> (#[trigger] r.inner@[i].dependencies@[d]).changed == member_name_changed(
                    raw@,
                    raw@[i].dependencies@[d].name@,
                ),
    {
        let ghost raw0 = raw@;
        let mut names: Vec<Vec<u8>> = Vec::new();
        let mut changed: Vec<bool> = Vec::new();
        let mut i: usize = 0;
        while i < raw.len()
            invariant
                i <= raw@.len(),
                raw@ == raw0,
                names@.len() == i,
                changed@.len() == i,
                forall|j: int| 0 <= j < i ==> #[trigger] names@[j]@ == raw0[j].name@,
                forall|j: int| 0 <= j < i ==> #[trigger] changed@[j] == raw0[j].spec_is_changed(),
            decreases raw@.len() - i,
        {
            let n = crate::lines::copy_bytes(&raw[i].name);
            names.push(n);
            changed.push(raw[i].is_changed());
            i += 1;
        }
        proof {
            assert forall|nm: Seq<u8>|
                member_name_changed(raw0, nm) == exists|j: int|
                    0 <= j < names@.len() && names@[j]@ == nm && changed@[j] by {
                if member_name_changed(raw0, nm) {
                    let j = choose|j: int|
                        0 <= j < raw0.len() && raw0[j].name@ == nm && raw0[j].spec_is_changed();
                    assert(names@[j]@ == nm && changed@[j]);
                }
                if exists|j: int| 0 <= j < names@.len() && names@[j]@ == nm && changed@[j] {
                    let j = choose|j: int|
                        0 <= j < names@.len() && names@[j]@ == nm && changed@[j];
                    assert(raw0[j].name@ == nm && raw0[j].spec_is_changed());
                }
            }
        }
        let mut rest = raw;
        let mut done: Vec<Package> = Vec::new();
        while rest.len() > 0
            invariant
                names@.len() == raw0.len(),
                changed@.len() == raw0.len(),
                done@.len() + rest@.len() == raw0.len(),
                forall|j: int|
                    0 <= j < rest@.len() ==> #[trigger] rest@[j] == raw0[done@.len() + j],
                forall|nm: Seq<u8>|
                    member_name_changed(raw0, nm) == exists|j: int|
                        0 <= j < names@.len() && names@[j]@ == nm && changed@[j],
                forall|i2: int|
                    0 <= i2 < done@.len() ==> same_but_dep_flags(#[trigger] done@[i2], raw0[i2]),
                forall|i2: int, d: int|
                    0 <= i2 < done@.len() && 0 <= d < raw0[i2].dependencies@.len()
                        ==> (#[trigger] done@[i2].dependencies@[d]).changed
                        == member_name_changed(raw0, raw0[i2].dependencies@[d].name@),
            decreases rest@.len(),
        {
            let ghost i2 = done@.len() as int;
            let mut pkg = rest.remove(0);
            let ghost pkg0 = pkg;
            let mut deps = Vec::new();
            core::mem::swap(&mut deps, &mut pkg.dependencies);
            let mut newdeps: Vec<Dependency> = Vec::new();
            while deps.len() > 0
                invariant
                    names@.len() == raw0.len(),
                    changed@.len() == raw0.len(),
                    forall|nm: Seq<u8>|
                        member_name_changed(raw0, nm) == exists|j: int|
                            0 <= j < names@.len() && names@[j]@ == nm && changed@[j],
                    newdeps@.len() + deps@.len() == pkg0.dependencies@.len(),
                    forall|d: int|
                        0 <= d < deps@.len() ==> #[trigger] deps@[d] == pkg0.dependencies@[
                            newdeps@.len() + d
                        ],
                    forall|d: int|
                        0 <= d < newdeps@.len() ==> {
                            &&& (#[trigger] newdeps@[d]).name == pkg0.dependencies@[d].name
                            &&& newdeps@[d].optional == pkg0.dependencies@[d].optional
                            &&& newdeps@[d].default_features
                                == pkg0.dependencies@[d].default_features
                            &&& newdeps@[d].features == pkg0.dependencies@[d].features
                            &&& newdeps@[d].changed == member_name_changed(
                                raw0,
                                pkg0.dependencies@[d].name@,
                            )
                        },
                decreases deps@.len(),
            {
                let mut dep = deps.remove(0);
                dep.changed = lookup_changed(&names, &changed, &dep.name);
                newdeps.push(dep);
            }
            pkg.dependencies = newdeps;
            done.push(pkg);
        }
        Packages { inner: done }
    }

    /// Counts changed packages.
    pub fn changed(&self) -> (r: usize)
        ensures
            r == count_changed(self.inner@),
    {
        let mut count: usize = 0;
        let mut i: usize = 0;
        while i < self.inner.len()
            invariant
                i <= self.inner@.len(),
                count == count_changed(self.inner@.subrange(0, i as int)),
                count <= i,
            decreases self.inner@.len() - i,
        {
            proof {
                lemma_count_changed_push(
                    self.inner@.subrange(0, i as int),
                    self.inner@[i as int],
                );
                assert(self.inner@.subrange(0, i as int).push(self.inner@[i as int])
                    =~= self.inner@.subrange(0, i + 1));
            }
            if self.inner[i].is_changed() {
                count += 1;
            }
            i += 1;
        }
        proof {
            assert(self.inner@.subrange(0, self.inner@.len() as int) =~= self.inner@);
        }
        count
    }

    /// Finds the first package with the given name.
    pub fn find_by_name(&self, name: &Vec<u8>) -> (r: Option<usize>)
        ensures
            match r {
                Some(i) => i < self.inner@.len() && self.inner@[i as int].name@ == name@
                    && forall|j: int| 0 <= j < i ==> self.inner@[j].name@ != name@,
                None => forall|j: int|
                    0 <= j < self.inner@.len() ==> self.inner@[j].name@ != name@,
            },
    {
        let mut i: usize = 0;
        while i < self.inner.len()
            invariant
                i <= self.inner@.len(),
                forall|j: int| 0 <= j < i ==> self.inner@[j].name@ != name@,
            decreases self.inner@.len() - i,
        {
            if bytes_eq(&self.inner[i].name, name) {
                return Some(i);
            }
            i += 1;
        }
        None
    }

    /// The number of packages.
    pub fn len(&self) -> (r: usize)
        ensures
            r == self.inner@.len(),
    {
        self.inner.len()
    }
}

/// Whether every member name is distinct.
pub open spec fn names_unique(members: Seq<Package>) -> bool {
    forall|i: int, j: int|
        0 <= i < j < members.len() ==> (#[trigger] members[i].name)@ != (#[trigger] members[j].name)@
}

/// Checks that every member name is distinct.
pub fn check_names_unique(members: &Vec<Package>) -> (r: bool)
    ensures
        r == names_unique(members@),
{
    let mut i: usize = 0;
    while i < members.len()
        invariant
            i <= members@.len(),
            forall|a: int, b: int|
                0 <= a < b < members@.len() && b < i ==> (#[trigger] members@[a].name)@ != (
                #[trigger] members@[b].name)@,
        decreases members@.len() - i,
    {
        let mut j: usize = 0;
        while j < i
            invariant
                j <= i < members@.len(),
                forall|a: int, b: int|
                    0 <= a < b < members@.len() && b < i ==> (#[trigger] members@[a].name)@ != (
                    #[trigger] members@[b].name)@,
                forall|a: int| 0 <= a < j ==> (#[trigger] members@[a].name)@ != members@[i as int].name@,
            decreases i - j,
        {
            if bytes_eq(&members[j].name, &members[i].name) {
                return false;
            }
            j += 1;
        }
        i += 1;
    }
    true
}

impl Packages {
    /// The indices of the changed packages, in ascending order: the
    /// candidate list a release starts from.
    pub fn changed_indices(&self) -> (r: Vec<usize>)
        ensures
            forall|a: int, b: int| 0 <= a < b < r@.len() ==> r@[a] < r@[b],
            forall|k: int|
                0 <= k < r@.len() ==> (#[trigger] r@[k]) < self.inner@.len()
                    && self.inner@[r@[k] as int].spec_is_changed(),
            forall|i: int|
                0 <= i < self.inner@.len() && self.inner@[i].spec_is_changed()
                    ==> exists|k: int| 0 <= k < r@.len() && r@[k] == i,
    {
        let mut r: Vec<usize> = Vec::new();
        let mut i: usize = 0;
        while i < self.inner.len()
            invariant
                i <= self.inner@.len(),
                forall|a: int, b: int| 0 <= a < b < r@.len() ==> r@[a] < r@[b],
                forall|k: int|
                    0 <= k < r@.len() ==> (#[trigger] r@[k]) < i
                        && self.inner@[r@[k] as int].spec_is_changed(),
                forall|j: int|
                    0 <= j < i && self.inner@[j].spec_is_changed() ==> exists|k: int|
                        0 <= k < r@.len() && r@[k] == j,
            decreases self.inner@.len() - i,
        {
            if self.inner[i].is_changed() {
                let ghost oldr = r@;
                r.push(i);
                proof {
                    assert(r@[r@.len() - 1] == i);
                    assert forall|j: int|
                        0 <= j < i + 1 && self.inner@[j].spec_is_changed() implies exists|k: int|
                        0 <= k < r@.len() && r@[k] == j by {
                        if j < i {
                            let k = choose|k: int| 0 <= k < oldr.len() && oldr[k] == j;
                            assert(r@[k] == j);
                        } else {
                            assert(r@[r@.len() - 1] == j);
                        }
                    }
                }
            }
            i += 1;
        }
        r
    }
}

} // verus!
