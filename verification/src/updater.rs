//! The updater: the workspace manifest pair plus a per-member cache of
//! package manifest pairs, mutated together.

use vstd::prelude::*;

use crate::bump::{Update, Version};
use crate::files::ManifestFiles;
use crate::lines::{lines_view, set_matching_lines, set_or_insert_line};
use crate::manifest::{
    colon_version_quote, dep_bare_key, dep_force_line, dep_path_line, dep_space_key,
    override_entry_key, override_key, override_path_line, version_line,
};
use crate::manifests::{PackageManifests, WorkspaceManifests};
use crate::packages::{Dependency, Package};
use crate::pathext::{clean_path_bytes, diff_paths_of, rel_path_between};
use crate::text::bytes_eq;

verus! {

/// Why a path update stopped.
#[derive(Copy, Clone, PartialEq, Eq, Structural, Debug)]
pub enum UpdateError {
    /// No relative path relates a dependency's directory to the
    /// package's directory.
    NoRelativePath,
}

/// Some member carries this name.
pub open spec fn names_member(members: Seq<Package>, name: Seq<u8>) -> bool {
    exists|j: int| 0 <= j < members.len() && members[j].name@ == name
}

/// The number of dependencies that name a workspace member.
pub open spec fn count_member_deps(
    deps: Seq<crate::packages::Dependency>,
    members: Seq<Package>,
) -> nat
    decreases deps.len(),
{
    if deps.len() == 0 {
        0
    } else {
        (if names_member(members, deps[0].name@) {
            1nat
        } else {
            0nat
        }) + count_member_deps(deps.subrange(1, deps.len() as int), members)
    }
}

/// Appending a dependency adds one to the member-dependency count
/// exactly when it names a member.
pub proof fn lemma_count_member_deps_push(
    deps: Seq<crate::packages::Dependency>,
    members: Seq<Package>,
    dep: crate::packages::Dependency,
)
    ensures
        count_member_deps(deps.push(dep), members) == count_member_deps(deps, members) + (
        if names_member(members, dep.name@) {
            1nat
        } else {
            0nat
        }),
    decreases deps.len(),
{
    if deps.len() == 0 {
        assert(deps.push(dep).len() == 1);
        assert(deps.push(dep)[0] == dep);
        let sub = deps.push(dep).subrange(1, 1);
        assert(sub.len() == 0);
        assert(count_member_deps(sub, members) == 0);
        assert(count_member_deps(deps, members) == 0);
    } else {
        let rest = deps.subrange(1, deps.len() as int);
        assert(deps.push(dep).subrange(1, deps.len() as int + 1) =~= rest.push(dep));
        lemma_count_member_deps_push(rest, members, dep);
        assert(deps.push(dep)[0] == deps[0]);
        assert(count_member_deps(deps.push(dep), members) == (if names_member(
            members,
            deps[0].name@,
        ) {
            1nat
        } else {
            0nat
        }) + count_member_deps(rest.push(dep), members));
    }
}

/// Index of the first member with the given name, or `members.len()`.
pub open spec fn member_index(members: Seq<Package>, name: Seq<u8>) -> int
    decreases members.len(),
{
    if members.len() == 0 {
        0
    } else if members[0].name@ == name {
        0
    } else {
        1 + member_index(members.subrange(1, members.len() as int), name)
    }
}

/// If no member before `i` has the name, and member `i` does (or `i`
/// is one past the end), then `i` is the member index.
pub proof fn lemma_member_index_at(members: Seq<Package>, name: Seq<u8>, i: int)
    requires
        0 <= i <= members.len(),
        forall|j: int| 0 <= j < i ==> members[j].name@ != name,
        i < members.len() ==> members[i].name@ == name,
    ensures
        member_index(members, name) == i,
    decreases i,
{
    if members.len() == 0 {
    } else if i == 0 {
    } else {
        let rest = members.subrange(1, members.len() as int);
        assert forall|j: int| 0 <= j < i - 1 implies rest[j].name@ != name by {
            assert(rest[j] == members[j + 1]);
        }
        lemma_member_index_at(rest, name, i - 1);
    }
}

/// Finds the first member with the given name.
pub fn find_member(members: &Vec<Package>, name: &Vec<u8>) -> (r: Option<usize>)
    ensures
        0 <= member_index(members@, name@) <= members@.len(),
        r == (if member_index(members@, name@) < members@.len() {
            Some(member_index(members@, name@) as usize)
        } else {
            None::<usize>
        }),
        r matches Some(i) ==> i as int == member_index(members@, name@) && i < members@.len()
            && members@[i as int].name@ == name@,
        r is None ==> member_index(members@, name@) == members@.len() && forall|j: int|
            0 <= j < members@.len() ==> members@[j].name@ != name@,
{
    let mut i: usize = 0;
    while i < members.len()
        invariant
            i <= members@.len(),
            forall|j: int| 0 <= j < i ==> members@[j].name@ != name@,
        decreases members@.len() - i,
    {
        if bytes_eq(&members[i].name, name) {
            proof {
                lemma_member_index_at(members@, name@, i as int);
            }
            return Some(i);
        }
        i += 1;
    }
    proof {
        lemma_member_index_at(members@, name@, members@.len() as int);
    }
    None
}

/// The four documents the path update rewrites, as line views: the
/// package's manifest pair and the workspace's manifest pair.
#[verifier::ext_equal]
pub struct PathDocs {
    pub head: Seq<Seq<u8>>,
    pub index: Seq<Seq<u8>>,
    pub ws_head: Seq<Seq<u8>>,
    pub ws_index: Seq<Seq<u8>>,
}

/// One dependency's path rewrite: both package documents gain the
/// path-and-version entry (or, when forced, the whole rewritten
/// entry), and in the forced case both workspace documents gain the
/// override entry pointing at the member's directory.
pub open spec fn apply_one_path_update(
    docs: PathDocs,
    member: Package,
    dep: Dependency,
    force: bool,
    is_submodule: bool,
    pkg_dir: Seq<u8>,
) -> PathDocs {
    let rel = clean_path_bytes(diff_paths_of(member.directory@, pkg_dir)->Some_0);
    if force {
        let line = dep_force_line(
            dep.name@,
            member.version,
            if is_submodule {
                None
            } else {
                Some(rel)
            },
            dep.optional,
            dep.default_features,
            lines_view(dep.features@),
        );
        PathDocs {
            head: set_matching_lines(docs.head, dep_space_key(dep.name@), line),
            index: set_matching_lines(docs.index, dep_space_key(dep.name@), line),
            ws_head: set_or_insert_line(
                docs.ws_head,
                override_key(member.name@),
                override_path_line(member.name@, member.version, member.directory@),
            ),
            ws_index: set_or_insert_line(
                docs.ws_index,
                override_key(member.name@),
                override_path_line(member.name@, member.version, member.directory@),
            ),
        }
    } else {
        PathDocs {
            head: set_matching_lines(
                docs.head,
                dep_bare_key(dep.name@),
                dep_path_line(dep.name@, member.version, rel),
            ),
            index: set_matching_lines(
                docs.index,
                dep_bare_key(dep.name@),
                dep_path_line(dep.name@, member.version, rel),
            ),
            ws_head: docs.ws_head,
            ws_index: docs.ws_index,
        }
    }
}

/// The fold of the per-dependency path rewrites over a dependency
/// list, in order; a dependency naming no member changes nothing.
pub open spec fn apply_path_updates(
    docs: PathDocs,
    members: Seq<Package>,
    pkg_dir: Seq<u8>,
    deps: Seq<Dependency>,
    force: bool,
    is_submodule: bool,
) -> PathDocs
    decreases deps.len(),
{
    if deps.len() == 0 {
        docs
    } else {
        let j = member_index(members, deps[0].name@);
        let docs1 = if j < members.len() {
            apply_one_path_update(docs, members[j], deps[0], force, is_submodule, pkg_dir)
        } else {
            docs
        };
        apply_path_updates(
            docs1,
            members,
            pkg_dir,
            deps.subrange(1, deps.len() as int),
            force,
            is_submodule,
        )
    }
}

/// Appending a dependency appends its rewrite to the fold.
pub proof fn lemma_apply_path_updates_push(
    docs: PathDocs,
    members: Seq<Package>,
    pkg_dir: Seq<u8>,
    deps: Seq<Dependency>,
    force: bool,
    is_submodule: bool,
    dep: Dependency,
)
    ensures
        apply_path_updates(docs, members, pkg_dir, deps.push(dep), force, is_submodule) == ({
            let base = apply_path_updates(docs, members, pkg_dir, deps, force, is_submodule);
            let j = member_index(members, dep.name@);
            if j < members.len() {
                apply_one_path_update(base, members[j], dep, force, is_submodule, pkg_dir)
            } else {
                base
            }
        }),
    decreases deps.len(),
{
    if deps.len() == 0 {
        assert(deps.push(dep).len() == 1);
        assert(deps.push(dep)[0] == dep);
        let sub = deps.push(dep).subrange(1, 1);
        assert(sub.len() == 0);
        let j = member_index(members, dep.name@);
        let docs1 = if j < members.len() {
            apply_one_path_update(docs, members[j], dep, force, is_submodule, pkg_dir)
        } else {
            docs
        };
        assert(apply_path_updates(docs1, members, pkg_dir, sub, force, is_submodule) == docs1);
        assert(apply_path_updates(docs, members, pkg_dir, deps, force, is_submodule) == docs);
    } else {
        assert(deps.push(dep)[0] == deps[0]);
        assert(deps.push(dep).subrange(1, deps.len() as int + 1) =~= deps.subrange(
            1,
            deps.len() as int,
        ).push(dep));
        let j0 = member_index(members, deps[0].name@);
        let docs1 = if j0 < members.len() {
            apply_one_path_update(docs, members[j0], deps[0], force, is_submodule, pkg_dir)
        } else {
            docs
        };
        lemma_apply_path_updates_push(
            docs1,
            members,
            pkg_dir,
            deps.subrange(1, deps.len() as int),
            force,
            is_submodule,
            dep,
        );
    }
}

/// Dependency `dep` blocks the path update: it names a member whose
/// directory has no relative path from the package's directory.
pub open spec fn dep_path_blocked(members: Seq<Package>, pkg_dir: Seq<u8>, dep: Dependency) -> bool {
    let j = member_index(members, dep.name@);
    j < members.len() && diff_paths_of(members[j].directory@, pkg_dir) is None
}

/// Index of the first blocking dependency, or `deps.len()`.
pub open spec fn first_path_failure(
    members: Seq<Package>,
    pkg_dir: Seq<u8>,
    deps: Seq<Dependency>,
) -> int
    decreases deps.len(),
{
    if deps.len() == 0 {
        0
    } else if dep_path_blocked(members, pkg_dir, deps[0]) {
        0
    } else {
        1 + first_path_failure(members, pkg_dir, deps.subrange(1, deps.len() as int))
    }
}

/// If nothing before `i` blocks and `i` blocks (or is one past the
/// end), then `i` is the first blocking index.
pub proof fn lemma_first_path_failure_at(
    members: Seq<Package>,
    pkg_dir: Seq<u8>,
    deps: Seq<Dependency>,
    i: int,
)
    requires
        0 <= i <= deps.len(),
        forall|t: int| 0 <= t < i ==> !dep_path_blocked(members, pkg_dir, #[trigger] deps[t]),
        i < deps.len() ==> dep_path_blocked(members, pkg_dir, deps[i]),
    ensures
        first_path_failure(members, pkg_dir, deps) == i,
    decreases i,
{
    if deps.len() == 0 {
    } else if i == 0 {
    } else {
        let rest = deps.subrange(1, deps.len() as int);
        assert forall|t: int|
            0 <= t < i - 1 implies !dep_path_blocked(members, pkg_dir, #[trigger] rest[t]) by {
            assert(rest[t] == deps[t + 1]);
        }
        lemma_first_path_failure_at(members, pkg_dir, rest, i - 1);
    }
}

/// The workspace manifest pair and the per-member package manifest
/// cache of one run.
pub struct Updater {
    /// The workspace root's manifest pair.
    pub workspace: WorkspaceManifests,
    /// Per member, the package's manifest pair, loaded at most once.
    pub toml_files: Vec<Option<PackageManifests>>,
}

impl Updater {
    /// A fresh updater for `members` packages, with no package manifest
    /// loaded yet.
    pub fn new(workspace: WorkspaceManifests, members: usize) -> (r: Updater)
        ensures
            r.workspace == workspace,
            r.toml_files@.len() == members,
            forall|j: int| 0 <= j < members ==> (#[trigger] r.toml_files@[j]) is None,
    {
        let mut toml_files: Vec<Option<PackageManifests>> = Vec::new();
        while toml_files.len() < members
            invariant
                toml_files@.len() <= members,
                forall|j: int|
                    0 <= j < toml_files@.len() ==> (#[trigger] toml_files@[j]) is None,
            decreases members - toml_files@.len(),
        {
            toml_files.push(None);
        }
        Updater { workspace, toml_files }
    }

    /// Whether member `i`'s manifest pair is cached.
    pub fn manifests_loaded(&self, i: usize) -> (r: bool)
        requires
            i < self.toml_files@.len(),
        ensures
            r == (self.toml_files@[i as int] is Some),
    {
        self.toml_files[i].is_some()
    }

    /// Caches member `i`'s loaded manifest pair.
    pub fn insert_manifests(&mut self, i: usize, m: PackageManifests)
        requires
            i < old(self).toml_files@.len(),
        ensures
            final(self).workspace == old(self).workspace,
            final(self).toml_files@ == old(self).toml_files@.update(i as int, Some(m)),
    {
        let _ = self.toml_files.remove(i);
        self.toml_files.insert(i, Some(m));
        proof {
            assert(self.toml_files@ =~= old(self).toml_files@.update(i as int, Some(m)));
        }
    }

    /// Applies an update to member `i`: bumps the package's own version
    /// field in both manifest variants, saves both previews, and bumps
    /// the package's entry in the workspace override section. An update
    /// without a version effect changes nothing.
    pub fn update(&mut self, i: usize, update: Update, files: &mut ManifestFiles)
        requires
            i < old(self).toml_files@.len(),
            old(self).toml_files@[i as int] is Some,
            (update.spec_as_bump() matches Some(b)
                ==> old(self).toml_files@[i as int]->Some_0.version.can_bump(b)),
        ensures
            final(self).toml_files@.len() == old(self).toml_files@.len(),
            forall|j: int|
                0 <= j < old(self).toml_files@.len() && j != i
                    ==> final(self).toml_files@[j] == old(self).toml_files@[j],
            update.spec_as_bump() is None ==> *final(self) == *old(self) && *final(files) == *old(
                files,
            ),
            update.spec_as_bump() matches Some(b) ==> {
                let m0 = old(self).toml_files@[i as int]->Some_0;
                let newl = version_line(m0.version.spec_bump(b));
                &&& final(self).toml_files@[i as int] matches Some(m1) && {
                    &&& m1.name == m0.name
                    &&& m1.version == m0.version
                    &&& m1.manifest_path == m0.manifest_path
                    &&& lines_view(m1.head.lines@) == crate::lines::replace_first_equal(
                        lines_view(m0.head.lines@),
                        version_line(m0.version),
                        newl,
                    )
                    &&& lines_view(m1.index.lines@) == crate::lines::replace_first_equal(
                        lines_view(m0.index.lines@),
                        version_line(m0.version),
                        newl,
                    )
                    &&& final(files).preview_head is Some && lines_view(
                        final(files).preview_head->Some_0@,
                    ) == lines_view(m1.head.lines@)
                    &&& final(files).preview_index is Some && lines_view(
                        final(files).preview_index->Some_0@,
                    ) == lines_view(m1.index.lines@)
                    &&& final(files).canonical == old(files).canonical
                    &&& final(files).backup == old(files).backup
                }
                &&& lines_view(final(self).workspace.head.lines@)
                    == crate::lines::rewrite_matching_lines(
                    lines_view(old(self).workspace.head.lines@),
                    override_entry_key(m0.name@, m0.version),
                    colon_version_quote(m0.version),
                    colon_version_quote(m0.version.spec_bump(b)),
                )
                &&& lines_view(final(self).workspace.index.lines@)
                    == crate::lines::rewrite_matching_lines(
                    lines_view(old(self).workspace.index.lines@),
                    override_entry_key(m0.name@, m0.version),
                    colon_version_quote(m0.version),
                    colon_version_quote(m0.version.spec_bump(b)),
                )
                &&& final(self).workspace.manifest_path == old(self).workspace.manifest_path
            },
    {
        match update.as_bump() {
            None => {
            },
            Some(b) => {
                let m_opt = self.toml_files.remove(i);
                match m_opt {
                    Some(mut m) => {
                        m.bump_ver(b);
                        m.save_preview(files);
                        let v = m.version;
                        self.workspace.bump_replace_ver(&m.name, &v, b);
                        self.toml_files.insert(i, Some(m));
                        proof {
                            assert(self.toml_files@ =~= old(self).toml_files@.update(
                                i as int,
                                self.toml_files@[i as int],
                            ));
                        }
                    },
                    None => {
                        proof {
                            assert(false);
                        }
                        self.toml_files.insert(i, None);
                    },
                }
            },
        }
    }

    /// Updates the paths recorded for one package's workspace-member
    /// dependencies: each such dependency entry gains the relative path
    /// from the package's directory to the member's directory, either
    /// as a path-and-version entry or, when forced, as a whole
    /// rewritten entry (with the workspace override pointed at the
    /// member's directory). Dependencies naming no member are skipped.
    /// Succeeds exactly when every member-naming dependency has such a
    /// relative path, returning how many entries were rewritten; on the
    /// first blocked dependency it stops with an error, leaving exactly
    /// the rewrites before it applied.
    pub fn set_pkg_paths(
        &mut self,
        i: usize,
        pkg: &Package,
        members: &Vec<Package>,
        force_versions: bool,
        is_submodule: bool,
    ) -> (r: Result<usize, UpdateError>)
        requires
            i < old(self).toml_files@.len(),
            old(self).toml_files@[i as int] is Some,
        ensures
            final(self).toml_files@.len() == old(self).toml_files@.len(),
            forall|j: int|
                0 <= j < old(self).toml_files@.len() && j != i
                    ==> final(self).toml_files@[j] == old(self).toml_files@[j],
            final(self).toml_files@[i as int] is Some,
            ({
                let m0 = old(self).toml_files@[i as int]->Some_0;
                let m1 = final(self).toml_files@[i as int]->Some_0;
                let stop = first_path_failure(members@, pkg.directory@, pkg.dependencies@);
                let docs = apply_path_updates(
                    (PathDocs {
                        head: lines_view(m0.head.lines@),
                        index: lines_view(m0.index.lines@),
                        ws_head: lines_view(old(self).workspace.head.lines@),
                        ws_index: lines_view(old(self).workspace.index.lines@),
                    }),
                    members@,
                    pkg.directory@,
                    pkg.dependencies@.subrange(0, stop),
                    force_versions,
                    is_submodule,
                );
                &&& m1.name == m0.name
                &&& m1.version == m0.version
                &&& m1.manifest_path == m0.manifest_path
                &&& lines_view(m1.head.lines@) == docs.head
                &&& lines_view(m1.index.lines@) == docs.index
                &&& lines_view(final(self).workspace.head.lines@) == docs.ws_head
                &&& lines_view(final(self).workspace.index.lines@) == docs.ws_index
                &&& final(self).workspace.manifest_path == old(self).workspace.manifest_path
                &&& (r is Ok <==> stop == pkg.dependencies@.len())
                &&& (r matches Ok(n) ==> n == count_member_deps(pkg.dependencies@, members@))
            }),
    {
        let ghost m0 = old(self).toml_files@[i as int]->Some_0;
        let ghost docs0 = PathDocs {
            head: lines_view(m0.head.lines@),
            index: lines_view(m0.index.lines@),
            ws_head: lines_view(old(self).workspace.head.lines@),
            ws_index: lines_view(old(self).workspace.index.lines@),
        };
        let m_opt = self.toml_files.remove(i);
        let mut m = match m_opt {
            Some(m) => m,
            None => {
                // Ruled out by the precondition: the slot is loaded.
                proof {
                    assert(false);
                }
                PackageManifests::new(
                    Vec::new(),
                    Version { major: 0, minor: 0, patch: 0 },
                    crate::manifests::PackageManifest::new(Vec::new()),
                    crate::manifests::PackageManifest::new(Vec::new()),
                    Vec::new(),
                )
            },
        };
        let mut updated: usize = 0;
        let mut failed = false;
        let ghost mut fail_at: int = 0;
        let mut d: usize = 0;
        proof {
            assert(pkg.dependencies@.subrange(0, 0) =~= Seq::<Dependency>::empty());
        }
        while d < pkg.dependencies.len() && !failed
            invariant
                d <= pkg.dependencies@.len(),
                updated <= d,
                m.name == m0.name,
                m.version == m0.version,
                m.manifest_path == m0.manifest_path,
                self.toml_files@ == old(self).toml_files@.remove(i as int),
                self.workspace.manifest_path == old(self).workspace.manifest_path,
                !failed ==> updated == count_member_deps(
                    pkg.dependencies@.subrange(0, d as int),
                    members@,
                ),
                !failed ==> forall|t: int|
                    0 <= t < d ==> !dep_path_blocked(
                        members@,
                        pkg.directory@,
                        #[trigger] pkg.dependencies@[t],
                    ),
                !failed ==> (PathDocs {
                    head: lines_view(m.head.lines@),
                    index: lines_view(m.index.lines@),
                    ws_head: lines_view(self.workspace.head.lines@),
                    ws_index: lines_view(self.workspace.index.lines@),
                }) == apply_path_updates(
                    docs0,
                    members@,
                    pkg.directory@,
                    pkg.dependencies@.subrange(0, d as int),
                    force_versions,
                    is_submodule,
                ),
                failed ==> {
                    &&& 0 <= fail_at < pkg.dependencies@.len()
                    &&& fail_at == d - 1
                    &&& dep_path_blocked(members@, pkg.directory@, pkg.dependencies@[fail_at])
                    &&& forall|t: int|
                        0 <= t < fail_at ==> !dep_path_blocked(
                            members@,
                            pkg.directory@,
                            #[trigger] pkg.dependencies@[t],
                        )
                    &&& (PathDocs {
                        head: lines_view(m.head.lines@),
                        index: lines_view(m.index.lines@),
                        ws_head: lines_view(self.workspace.head.lines@),
                        ws_index: lines_view(self.workspace.index.lines@),
                    }) == apply_path_updates(
                        docs0,
                        members@,
                        pkg.directory@,
                        pkg.dependencies@.subrange(0, fail_at),
                        force_versions,
                        is_submodule,
                    )
                },
            decreases pkg.dependencies@.len() - d,
        {
            let ghost docs_pre = PathDocs {
                head: lines_view(m.head.lines@),
                index: lines_view(m.index.lines@),
                ws_head: lines_view(self.workspace.head.lines@),
                ws_index: lines_view(self.workspace.index.lines@),
            };
            proof {
                lemma_count_member_deps_push(
                    pkg.dependencies@.subrange(0, d as int),
                    members@,
                    pkg.dependencies@[d as int],
                );
                lemma_apply_path_updates_push(
                    docs0,
                    members@,
                    pkg.directory@,
                    pkg.dependencies@.subrange(0, d as int),
                    force_versions,
                    is_submodule,
                    pkg.dependencies@[d as int],
                );
                assert(pkg.dependencies@.subrange(0, d as int).push(pkg.dependencies@[d as int])
                    =~= pkg.dependencies@.subrange(0, d + 1));
            }
            let dep = &pkg.dependencies[d];
            match find_member(members, &dep.name) {
                Some(j) => {
                    proof {
                        assert(j as int == member_index(
                            members@,
                            pkg.dependencies@[d as int].name@,
                        ));
                        assert(names_member(members@, pkg.dependencies@[d as int].name@));
                    }
                    match rel_path_between(&members[j].directory, &pkg.directory) {
                        Some(rel) => {
                            if force_versions {
                                if is_submodule {
                                    m.set_dep_force(
                                        &dep.name,
                                        &members[j].version,
                                        None,
                                        dep.optional,
                                        dep.default_features,
                                        &dep.features,
                                    );
                                } else {
                                    m.set_dep_force(
                                        &dep.name,
                                        &members[j].version,
                                        Some(&rel),
                                        dep.optional,
                                        dep.default_features,
                                        &dep.features,
                                    );
                                }
                                let v = members[j].version;
                                self.workspace.set_replace(
                                    &members[j].name,
                                    &v,
                                    &members[j].directory,
                                );
                            } else {
                                m.set_dep_path(&dep.name, &rel, &members[j].version);
                            }
                            updated += 1;
                            proof {
                                assert((PathDocs {
                                    head: lines_view(m.head.lines@),
                                    index: lines_view(m.index.lines@),
                                    ws_head: lines_view(self.workspace.head.lines@),
                                    ws_index: lines_view(self.workspace.index.lines@),
                                }) =~= apply_one_path_update(
                                    docs_pre,
                                    members@[j as int],
                                    pkg.dependencies@[d as int],
                                    force_versions,
                                    is_submodule,
                                    pkg.directory@,
                                ));
                            }
                        },
                        None => {
                            failed = true;
                            proof {
                                fail_at = d as int;
                            }
                        },
                    }
                },
                None => {
                    proof {
                        assert(!names_member(members@, pkg.dependencies@[d as int].name@)) by {
                            if names_member(members@, pkg.dependencies@[d as int].name@) {
                                let j = choose|j: int|
                                    0 <= j < members@.len() && members@[j].name@
                                        == pkg.dependencies@[d as int].name@;
                            }
                        }
                    }
                },
            }
            d += 1;
        }
        proof {
            if failed {
                lemma_first_path_failure_at(members@, pkg.directory@, pkg.dependencies@, fail_at);
            } else {
                lemma_first_path_failure_at(
                    members@,
                    pkg.directory@,
                    pkg.dependencies@,
                    pkg.dependencies@.len() as int,
                );
                assert(pkg.dependencies@.subrange(0, pkg.dependencies@.len() as int)
                    =~= pkg.dependencies@);
            }
        }
        self.toml_files.insert(i, Some(m));
        proof {
            assert(self.toml_files@ =~= old(self).toml_files@.update(
                i as int,
                self.toml_files@[i as int],
            ));
        }
        if failed {
            Err(UpdateError::NoRelativePath)
        } else {
            Ok(updated)
        }
    }
}

} // verus!
