//! Manifest mutation, the preview/backup/restore lifecycle, and the
//! cascade scenario over a three-package chain.

use wtf_rlsr::bump::{Bump, Update, Version};
use wtf_rlsr::files::{move_index_manifest, restore_manifest, ManifestFiles};
use wtf_rlsr::manifest::{
    change_dep_ver, change_first_ver, change_replace, set_dep_force, set_dep_path, set_replace,
};
use wtf_rlsr::manifests::{PackageManifest, PackageManifests, WorkspaceManifest,
    WorkspaceManifests};
use wtf_rlsr::packages::Package;
use wtf_rlsr::release::plan_dependant_updates;

fn v(major: u64, minor: u64, patch: u64) -> Version {
    Version { major, minor, patch }
}

fn doc(lines: &[&str]) -> Vec<Vec<u8>> {
    lines.iter().map(|l| l.as_bytes().to_vec()).collect()
}

fn text(lines: &Vec<Vec<u8>>) -> String {
    let mut out = String::new();
    for l in lines {
        out.push_str(std::str::from_utf8(l).unwrap());
        out.push('\n');
    }
    out
}

#[test]
fn bump_version_rewrites_only_the_version_line() {
    let mut lines = doc(&["[package]", "name = \"a\"", "version = \"0.1.0\"", "edition = \"2018\""]);
    change_first_ver(&mut lines, &v(0, 1, 0), &v(0, 1, 1));
    assert_eq!(
        text(&lines),
        "[package]\nname = \"a\"\nversion = \"0.1.1\"\nedition = \"2018\"\n"
    );
}

#[test]
fn bump_version_without_matching_line_changes_nothing() {
    let mut lines = doc(&["[package]", "version = \"0.2.0\""]);
    change_first_ver(&mut lines, &v(0, 1, 0), &v(0, 1, 1));
    assert_eq!(text(&lines), "[package]\nversion = \"0.2.0\"\n");
}

#[test]
fn update_dependency_covers_both_entry_forms() {
    let mut lines = doc(&[
        "dep-a = \"0.1.0\"",
        "dep-a-extra = \"0.1.0\"",
        "dep-a = { version = \"0.1.0\", path = \"../a\" }",
        "dep-b = \"0.1.0\"",
    ]);
    change_dep_ver(&mut lines, &b"dep-a".to_vec(), &v(0, 1, 0), &v(0, 2, 0));
    assert_eq!(
        text(&lines),
        "dep-a = \"0.2.0\"\ndep-a-extra = \"0.1.0\"\ndep-a = { version = \"0.2.0\", path = \"../a\" }\ndep-b = \"0.1.0\"\n"
    );
}

#[test]
fn update_dependency_on_absent_name_returns_document_unchanged() {
    let original = doc(&["[package]", "dep-b = \"0.1.0\"", "version = \"1.0.0\""]);
    let mut lines = original.clone();
    change_dep_ver(&mut lines, &b"dep-a".to_vec(), &v(0, 1, 0), &v(0, 2, 0));
    assert_eq!(lines, original);
}

#[test]
fn set_dependency_path_converts_bare_entry() {
    let mut lines = doc(&["dep-a = \"0.1.0\"", "dep-b = \"0.1.0\""]);
    set_dep_path(&mut lines, &b"dep-a".to_vec(), &b"../a".to_vec(), &v(0, 1, 0));
    assert_eq!(
        text(&lines),
        "dep-a = { version = \"0.1.0\", path = \"../a\" }\ndep-b = \"0.1.0\"\n"
    );
}

#[test]
fn set_override_rewrites_first_match_in_place() {
    let mut lines = doc(&["[replace]", "\"pkg-a:0.1.0\" = { path = \"old\" }"]);
    set_replace(&mut lines, &b"pkg-a".to_vec(), &v(0, 1, 0), &b"crates/a".to_vec());
    assert_eq!(
        text(&lines),
        "[replace]\n\"pkg-a:0.1.0\" = { path = \"crates/a\" }\n"
    );
}

#[test]
fn set_override_appends_when_absent() {
    let mut lines = doc(&["[replace]"]);
    set_replace(&mut lines, &b"pkg-a".to_vec(), &v(0, 1, 0), &b"crates/a".to_vec());
    assert_eq!(text(&lines), "[replace]\n\"pkg-a:0.1.0\" = { path = \"crates/a\" }\n");
}

#[test]
fn bump_override_version_rewrites_matching_entry() {
    let mut lines = doc(&[
        "\"pkg-a:0.1.0\" = { git = \"url\", rev = \"r\" }",
        "\"pkg-b:0.1.0\" = { git = \"url\", rev = \"r\" }",
    ]);
    change_replace(&mut lines, &b"pkg-a".to_vec(), &v(0, 1, 0), &v(0, 2, 0));
    assert_eq!(
        text(&lines),
        "\"pkg-a:0.2.0\" = { git = \"url\", rev = \"r\" }\n\"pkg-b:0.1.0\" = { git = \"url\", rev = \"r\" }\n"
    );
}

#[test]
fn forced_dependency_entry_renders_every_recorded_flag() {
    let mut lines = doc(&["dep-a = \"0.0.9\""]);
    let features = vec![b"alpha".to_vec(), b"beta".to_vec()];
    set_dep_force(
        &mut lines,
        &b"dep-a".to_vec(),
        &v(0, 1, 0),
        Some(&b"../a".to_vec()),
        true,
        false,
        &features,
    );
    assert_eq!(
        text(&lines),
        "dep-a = { version = \"0.1.0\", path = \"../a\", optional = true, default-features = false, features = [\"alpha\", \"beta\"] }\n"
    );
}

#[test]
fn forced_dependency_entry_plain_form() {
    let mut lines = doc(&["dep-a = { version = \"0.0.9\" }"]);
    set_dep_force(
        &mut lines,
        &b"dep-a".to_vec(),
        &v(0, 1, 0),
        None,
        false,
        true,
        &Vec::new(),
    );
    assert_eq!(text(&lines), "dep-a = \"0.1.0\"\n");
}

#[test]
fn bump_then_restore_reproduces_the_original_bytes() {
    let original = doc(&["[package]", "name = \"a\"", "version = \"0.1.0\""]);
    let mut man = PackageManifests::new(
        b"a".to_vec(),
        v(0, 1, 0),
        PackageManifest::new(original.clone()),
        PackageManifest::new(original.clone()),
        b"crates/a/Cargo.toml".to_vec(),
    );
    let mut files = ManifestFiles::new(original.clone());

    man.bump_ver(Bump::Minor);
    man.save_preview(&mut files);
    move_index_manifest(&mut files);
    assert_eq!(
        text(&files.canonical),
        "[package]\nname = \"a\"\nversion = \"0.2.0\"\n"
    );
    restore_manifest(&mut files);
    assert_eq!(files.canonical, original);
    assert!(files.backup.is_none());
}

#[test]
fn preview_paths_are_siblings_of_the_manifest() {
    let man = PackageManifests::new(
        b"a".to_vec(),
        v(0, 1, 0),
        PackageManifest::new(Vec::new()),
        PackageManifest::new(Vec::new()),
        b"crates/a/Cargo.toml".to_vec(),
    );
    assert_eq!(man.head_preview_path(), b"crates/a/Cargo.preview-head.toml".to_vec());
    assert_eq!(man.index_preview_path(), b"crates/a/Cargo.preview-index.toml".to_vec());
    let ws = WorkspaceManifests::new(
        WorkspaceManifest::new(Vec::new()),
        WorkspaceManifest::new(Vec::new()),
        b"Cargo.toml".to_vec(),
    );
    assert_eq!(ws.head_preview_path(), b"Cargo.preview-head.toml".to_vec());
    assert_eq!(ws.index_preview_path(), b"Cargo.preview-index.toml".to_vec());
}

fn member(name: &str, version: Version, changed: bool, deps: &[&str]) -> Package {
    Package {
        name: name.as_bytes().to_vec(),
        version,
        diff: Some(wtf_rlsr::diff::Diff {
            files_changed: if changed { 1 } else { 0 },
            insertions: 0,
            deletions: 0,
            changed_files: Vec::new(),
            deleted_files: Vec::new(),
        }),
        dependencies: deps
            .iter()
            .map(|d| wtf_rlsr::packages::Dependency {
                name: d.as_bytes().to_vec(),
                changed: false,
                optional: false,
                default_features: true,
                features: Vec::new(),
            })
            .collect(),
        directory: format!("crates/{}", name).into_bytes(),
        manifest_path: format!("crates/{}/Cargo.toml", name).into_bytes(),
    }
}

#[test]
fn minor_bump_of_root_cascades_patch_bumps_onto_deferred_chain() {
    // Workspace {A, B, C}: B depends on A, C depends on B; only A changed.
    let members = vec![
        member("pkg-a", v(0, 5, 0), true, &[]),
        member("pkg-b", v(1, 1, 1), false, &["pkg-a"]),
        member("pkg-c", v(2, 0, 3), false, &["pkg-b"]),
    ];
    let graphs = wtf_rlsr::graphs::workspace_graph(&members);
    let dependants = wtf_rlsr::graphs::collect_dependants(&graphs, 0);
    assert_eq!(dependants, vec![1, 2]);

    // B and C both deferred: not in the commit set.
    let in_commit = vec![false, false, false];
    let plan = plan_dependant_updates(&members, &dependants, &in_commit, Update::Minor);
    assert_eq!(plan.len(), 2);
    assert_eq!(plan[0].member, 1);
    assert_eq!(plan[0].bump, Some(Bump::Patch));
    assert_eq!(plan[0].new_version, v(1, 1, 2));
    assert_eq!(plan[1].member, 2);
    assert_eq!(plan[1].bump, Some(Bump::Patch));
    assert_eq!(plan[1].new_version, v(2, 0, 4));

    let new_a = Update::Minor.bump(&members[0].version);
    assert_eq!(new_a, v(0, 6, 0));

    // B's manifest: own version bumped by patch, dependency on A moved
    // to A's new minor version.
    let mut man_b = PackageManifests::new(
        b"pkg-b".to_vec(),
        v(1, 1, 1),
        PackageManifest::new(doc(&["version = \"1.1.1\"", "pkg-a = \"0.5.0\""])),
        PackageManifest::new(doc(&["version = \"1.1.1\"", "pkg-a = \"0.5.0\""])),
        b"crates/pkg-b/Cargo.toml".to_vec(),
    );
    man_b.bump_ver(plan[0].bump.unwrap());
    man_b.update_dep(&b"pkg-a".to_vec(), &members[0].version, &new_a);
    assert_eq!(text(&man_b.index.lines), "version = \"1.1.2\"\npkg-a = \"0.6.0\"\n");
    assert_eq!(text(&man_b.head.lines), "version = \"1.1.2\"\npkg-a = \"0.6.0\"\n");

    // C's manifest: own version bumped by patch, dependency on B moved
    // to B's already-resolved patch version, never recomputed.
    let mut man_c = PackageManifests::new(
        b"pkg-c".to_vec(),
        v(2, 0, 3),
        PackageManifest::new(doc(&["version = \"2.0.3\"", "pkg-b = \"1.1.1\""])),
        PackageManifest::new(doc(&["version = \"2.0.3\"", "pkg-b = \"1.1.1\""])),
        b"crates/pkg-c/Cargo.toml".to_vec(),
    );
    man_c.bump_ver(plan[1].bump.unwrap());
    man_c.update_dep(&b"pkg-b".to_vec(), &members[1].version, &plan[0].new_version);
    assert_eq!(text(&man_c.index.lines), "version = \"2.0.4\"\npkg-b = \"1.1.2\"\n");
}
