//! Graphs, the dependant collector, the publish session, the release
//! state machine, the updater and path handling.

use wtf_rlsr::bump::{Update, Version};
use wtf_rlsr::commit::CommitBuilder;
use wtf_rlsr::diff::Diff;
use wtf_rlsr::files::{move_index_manifest, restore_manifest, ManifestFiles};
use wtf_rlsr::graphs::{collect_dependants, presentation_order, workspace_graph, WorkspaceGraphs};
use wtf_rlsr::manifests::{PackageManifest, PackageManifests, WorkspaceManifest,
    WorkspaceManifests};
use wtf_rlsr::packages::{check_names_unique, Dependency, Package, Packages};
use wtf_rlsr::pathext::{clean_path, fix_path, rel_path_between};
use wtf_rlsr::lines::split_lines;
use wtf_rlsr::publisher::{classify_publish_output, PublishOutcome, PublishSession};
use wtf_rlsr::release::{Command, ReleaseAction, ReleaseEvent, ReleaseOrchestrator, ReleaseState};
use wtf_rlsr::updater::Updater;

fn v(major: u64, minor: u64, patch: u64) -> Version {
    Version { major, minor, patch }
}

fn diff_with(files_changed: usize) -> Diff {
    Diff {
        files_changed,
        insertions: 2 * files_changed,
        deletions: 0,
        changed_files: Vec::new(),
        deleted_files: Vec::new(),
    }
}

fn member(name: &str, changed: bool, deps: &[&str]) -> Package {
    Package {
        name: name.as_bytes().to_vec(),
        version: v(0, 1, 0),
        diff: Some(diff_with(if changed { 1 } else { 0 })),
        dependencies: deps
            .iter()
            .map(|d| Dependency {
                name: d.as_bytes().to_vec(),
                changed: false,
                optional: false,
                default_features: true,
                features: Vec::new(),
            })
            .collect(),
        directory: format!("crates/{}", name).into_bytes(),
        manifest_path: format!("crates/{}/Cargo.toml", name).into_bytes(),
    }
}

#[test]
fn diff_is_empty_exactly_when_no_files_changed() {
    assert!(diff_with(0).is_empty());
    assert!(!diff_with(3).is_empty());
}

#[test]
fn packages_memoize_dependency_change_flags() {
    let raw = vec![
        member("pkg-a", true, &[]),
        member("pkg-b", false, &["pkg-a", "serde"]),
    ];
    let packages = Packages::new(raw);
    let b = &packages.inner[1];
    // The dependency on the changed member is marked changed; the
    // dependency on a non-member is not.
    assert!(b.dependencies[0].is_changed());
    assert!(!b.dependencies[1].is_changed());
    assert_eq!(packages.changed(), 1);
    assert_eq!(packages.find_by_name(&b"pkg-b".to_vec()), Some(1));
    assert_eq!(packages.find_by_name(&b"pkg-x".to_vec()), None);
}

#[test]
fn names_unique_check() {
    let good = vec![member("pkg-a", false, &[]), member("pkg-b", false, &[])];
    assert!(check_names_unique(&good));
    let bad = vec![member("pkg-a", false, &[]), member("pkg-a", false, &[])];
    assert!(!check_names_unique(&bad));
}

#[test]
fn graphs_mirror_each_other() {
    let members = vec![
        member("pkg-a", false, &[]),
        member("pkg-b", false, &["pkg-a"]),
        member("pkg-c", false, &["pkg-b", "outside"]),
    ];
    let graphs = workspace_graph(&members);
    assert_eq!(graphs.dependencies, vec![vec![], vec![0], vec![1]]);
    assert_eq!(graphs.dependants, vec![vec![1], vec![2], vec![]]);
}

#[test]
fn dependant_collection_handles_diamonds_without_duplicates() {
    // A at the root; B and C depend on A; D depends on both B and C.
    let members = vec![
        member("pkg-a", true, &[]),
        member("pkg-b", false, &["pkg-a"]),
        member("pkg-c", false, &["pkg-a"]),
        member("pkg-d", false, &["pkg-b", "pkg-c"]),
    ];
    let graphs = workspace_graph(&members);
    let first = collect_dependants(&graphs, 0);
    assert_eq!(first, vec![1, 2, 3]);
    // Idempotent across repeated calls on the same graph.
    let second = collect_dependants(&graphs, 0);
    assert_eq!(first, second);
}

#[test]
fn dependant_collection_survives_a_cycle() {
    let graphs = WorkspaceGraphs {
        dependants: vec![vec![1], vec![0]],
        dependencies: vec![vec![1], vec![0]],
    };
    assert_eq!(collect_dependants(&graphs, 0), vec![1]);
}

#[test]
fn publish_deep_twice_publishes_at_most_once() {
    let members = vec![member("pkg-a", true, &[]), member("pkg-b", false, &["pkg-a"])];
    let graphs = workspace_graph(&members);
    let mut session = PublishSession::new(2);
    session.begin(0);
    session.begin(0);
    assert_eq!(session.next_to_publish(), Some(0));
    session.report(&graphs, 0, PublishOutcome::Published);
    session.begin(0);
    // Draining hands out the dependant, and never the root again.
    assert_eq!(session.next_to_publish(), Some(1));
    session.report(&graphs, 1, PublishOutcome::Published);
    assert_eq!(session.next_to_publish(), None);
}

#[test]
fn already_uploaded_counts_as_success_and_still_recurses() {
    let members = vec![member("pkg-a", true, &[]), member("pkg-b", false, &["pkg-a"])];
    let graphs = workspace_graph(&members);
    let mut session = PublishSession::new(2);
    session.begin(0);
    assert_eq!(session.next_to_publish(), Some(0));
    session.report(&graphs, 0, PublishOutcome::AlreadyPublished);
    assert!(!session.failed);
    assert_eq!(session.next_to_publish(), Some(1));
}

#[test]
fn publish_failure_stops_the_chain() {
    let members = vec![member("pkg-a", true, &[]), member("pkg-b", false, &["pkg-a"])];
    let graphs = workspace_graph(&members);
    let mut session = PublishSession::new(2);
    session.begin(0);
    assert_eq!(session.next_to_publish(), Some(0));
    session.report(&graphs, 0, PublishOutcome::Failed);
    assert!(session.failed);
    assert_eq!(session.next_to_publish(), None);
}

#[test]
fn verification_failure_rolls_back_and_leaves_canonical_bytes_intact() {
    // Drive the run to the verification step over real manifest state.
    let original = vec![b"version = \"0.1.0\"".to_vec()];
    let ws_original = vec![b"\"pkg-a:0.1.0\" = { git = \"u\", rev = \"r\" }".to_vec()];
    let mut pkg_files = ManifestFiles::new(original.clone());
    let mut ws_files = ManifestFiles::new(ws_original.clone());

    let ws = WorkspaceManifests::new(
        WorkspaceManifest::new(ws_original.clone()),
        WorkspaceManifest::new(ws_original.clone()),
        b"Cargo.toml".to_vec(),
    );
    let mut updater = Updater::new(ws, 1);
    updater.insert_manifests(
        0,
        PackageManifests::new(
            b"pkg-a".to_vec(),
            v(0, 1, 0),
            PackageManifest::new(original.clone()),
            PackageManifest::new(original.clone()),
            b"crates/pkg-a/Cargo.toml".to_vec(),
        ),
    );
    updater.update(0, Update::Minor, &mut pkg_files);
    updater.workspace.save_preview(&mut ws_files);
    move_index_manifest(&mut pkg_files);
    move_index_manifest(&mut ws_files);
    assert_ne!(pkg_files.canonical, original);

    let cmd = Command { skip_tests: false, no_publish: false, dry_run: false };
    let mut orch = ReleaseOrchestrator::new(cmd);
    orch.step(ReleaseEvent::Started);
    orch.step(ReleaseEvent::PackageSelected);
    orch.step(ReleaseEvent::UpdateKindSelected);
    orch.step(ReleaseEvent::DependantsCollected);
    orch.step(ReleaseEvent::CommitSetSelected);
    orch.step(ReleaseEvent::ManifestsPreviewed);
    let a = orch.step(ReleaseEvent::RootCommitStaged);
    assert_eq!(a, ReleaseAction::RunVerification);
    let a = orch.step(ReleaseEvent::VerifyFailed);
    assert_eq!(a, ReleaseAction::RestoreManifests);
    assert_eq!(orch.state, ReleaseState::RolledBack);

    // Performing the demanded restore leaves both canonical manifests
    // byte-identical to their pre-run contents.
    restore_manifest(&mut pkg_files);
    restore_manifest(&mut ws_files);
    assert_eq!(pkg_files.canonical, original);
    assert_eq!(ws_files.canonical, ws_original);

    // And the registry was never touched: no package was handed out.
    let session = PublishSession::new(1);
    assert!(!session.published[0]);
    assert!(!session.failed);
}

#[test]
fn operator_cancel_ends_the_run_cleanly() {
    let cmd = Command { skip_tests: false, no_publish: false, dry_run: false };
    let mut orch = ReleaseOrchestrator::new(cmd);
    orch.step(ReleaseEvent::Started);
    let a = orch.step(ReleaseEvent::SelectionCancelled);
    assert_eq!(a, ReleaseAction::Stop);
    assert_eq!(orch.state, ReleaseState::Done);
}

#[test]
fn dry_run_skips_the_finalize_state() {
    let cmd = Command { skip_tests: true, no_publish: true, dry_run: true };
    let mut orch = ReleaseOrchestrator::new(cmd);
    orch.step(ReleaseEvent::Started);
    orch.step(ReleaseEvent::PackageSelected);
    orch.step(ReleaseEvent::UpdateKindSelected);
    orch.step(ReleaseEvent::DependantsCollected);
    orch.step(ReleaseEvent::CommitSetSelected);
    orch.step(ReleaseEvent::ManifestsPreviewed);
    // Tests skipped and publishing disabled: straight to the dependant
    // commits.
    let a = orch.step(ReleaseEvent::RootCommitStaged);
    assert_eq!(a, ReleaseAction::StageDependants);
    let a = orch.step(ReleaseEvent::DependantCommitsStaged);
    assert_eq!(a, ReleaseAction::Stop);
    assert_eq!(orch.state, ReleaseState::Done);
}

#[test]
fn full_run_reaches_finalize_and_done() {
    let cmd = Command { skip_tests: false, no_publish: false, dry_run: false };
    let mut orch = ReleaseOrchestrator::new(cmd);
    assert_eq!(orch.step(ReleaseEvent::Started), ReleaseAction::PromptPackage);
    assert_eq!(orch.step(ReleaseEvent::PackageSelected), ReleaseAction::PromptUpdateKind);
    assert_eq!(orch.step(ReleaseEvent::UpdateKindSelected), ReleaseAction::Collect);
    assert_eq!(orch.step(ReleaseEvent::DependantsCollected), ReleaseAction::PromptCommitSet);
    assert_eq!(orch.step(ReleaseEvent::CommitSetSelected), ReleaseAction::WritePreviews);
    assert_eq!(orch.step(ReleaseEvent::ManifestsPreviewed), ReleaseAction::StageRoot);
    assert_eq!(orch.step(ReleaseEvent::RootCommitStaged), ReleaseAction::RunVerification);
    assert_eq!(orch.step(ReleaseEvent::VerifyPassed), ReleaseAction::RunPublish);
    assert_eq!(orch.step(ReleaseEvent::PublishSucceeded), ReleaseAction::StageDependants);
    assert_eq!(orch.step(ReleaseEvent::DependantCommitsStaged), ReleaseAction::PushAndTag);
    assert_eq!(orch.step(ReleaseEvent::Finalized), ReleaseAction::Stop);
    assert_eq!(orch.state, ReleaseState::Done);
}

#[test]
fn updater_update_bumps_manifest_and_workspace_override() {
    let pkg_doc = vec![b"version = \"0.1.0\"".to_vec(), b"dep = \"1.0.0\"".to_vec()];
    let ws_doc = vec![b"\"pkg-a:0.1.0\" = { git = \"u\", rev = \"r\" }".to_vec()];
    let ws = WorkspaceManifests::new(
        WorkspaceManifest::new(ws_doc.clone()),
        WorkspaceManifest::new(ws_doc.clone()),
        b"Cargo.toml".to_vec(),
    );
    let mut updater = Updater::new(ws, 1);
    updater.insert_manifests(
        0,
        PackageManifests::new(
            b"pkg-a".to_vec(),
            v(0, 1, 0),
            PackageManifest::new(pkg_doc.clone()),
            PackageManifest::new(pkg_doc.clone()),
            b"crates/pkg-a/Cargo.toml".to_vec(),
        ),
    );
    let mut files = ManifestFiles::new(pkg_doc.clone());
    updater.update(0, Update::Major, &mut files);
    let m = updater.toml_files[0].as_ref().unwrap();
    assert_eq!(m.index.lines[0], b"version = \"1.0.0\"".to_vec());
    assert_eq!(m.index.lines[1], b"dep = \"1.0.0\"".to_vec());
    assert_eq!(
        updater.workspace.index.lines[0],
        b"\"pkg-a:1.0.0\" = { git = \"u\", rev = \"r\" }".to_vec()
    );
    assert_eq!(files.preview_index.as_ref().unwrap()[0], b"version = \"1.0.0\"".to_vec());
    // A chore update changes nothing.
    updater.update(0, Update::Chore, &mut files);
    let m = updater.toml_files[0].as_ref().unwrap();
    assert_eq!(m.index.lines[0], b"version = \"1.0.0\"".to_vec());
}

#[test]
fn updater_sets_dependency_paths_from_real_path_difference() {
    let pkg_doc = vec![b"pkg-a = \"0.1.0\"".to_vec()];
    let ws = WorkspaceManifests::new(
        WorkspaceManifest::new(Vec::new()),
        WorkspaceManifest::new(Vec::new()),
        b"Cargo.toml".to_vec(),
    );
    let mut updater = Updater::new(ws, 2);
    updater.insert_manifests(
        1,
        PackageManifests::new(
            b"pkg-b".to_vec(),
            v(0, 1, 0),
            PackageManifest::new(pkg_doc.clone()),
            PackageManifest::new(pkg_doc.clone()),
            b"crates/pkg-b/Cargo.toml".to_vec(),
        ),
    );
    let members = vec![member("pkg-a", false, &[]), member("pkg-b", false, &["pkg-a"])];
    let updated = updater
        .set_pkg_paths(1, &members[1], &members, false, false)
        .unwrap();
    assert_eq!(updated, 1);
    let m = updater.toml_files[1].as_ref().unwrap();
    assert_eq!(
        m.index.lines[0],
        b"pkg-a = { version = \"0.1.0\", path = \"../pkg-a\" }".to_vec()
    );
}

#[test]
fn relative_paths_come_from_the_real_difference() {
    assert_eq!(
        rel_path_between(&b"crates/pkg-a".to_vec(), &b"crates/pkg-b".to_vec()),
        Some(b"../pkg-a".to_vec())
    );
    assert_eq!(
        rel_path_between(&b"/abs/x".to_vec(), &b"rel/y".to_vec()),
        Some(b"/abs/x".to_vec())
    );
}

#[test]
fn path_cleaning_strips_verbatim_fragments_and_backslashes() {
    assert_eq!(fix_path(&b"\\\\?\\C:\\w\\".to_vec()), b"C:\\w".to_vec());
    assert_eq!(clean_path(&b"\\\\?\\C:\\w\\x".to_vec()), b"C:/w/x".to_vec());
    assert_eq!(clean_path(&b"plain/path".to_vec()), b"plain/path".to_vec());
}

#[test]
fn commit_builder_stages_diff_paths_cleaned() {
    let mut builder = CommitBuilder::new();
    let diff = Diff {
        files_changed: 2,
        insertions: 5,
        deletions: 1,
        changed_files: vec![b"src\\lib.rs".to_vec(), b"src/main.rs".to_vec()],
        deleted_files: vec![b"old.rs".to_vec()],
    };
    builder.add_diff(&diff);
    builder.add_path(&b"Cargo.toml".to_vec());
    let request = builder.commit(b"feat: message".to_vec());
    assert_eq!(
        request.paths,
        vec![
            b"src/lib.rs".to_vec(),
            b"src/main.rs".to_vec(),
            b"old.rs".to_vec(),
            b"Cargo.toml".to_vec(),
        ]
    );
    assert_eq!(request.message, b"feat: message".to_vec());
}

#[test]
fn workspace_lookup_and_root_bump() {
    let packages = Packages::new(vec![member("pkg-a", true, &[]), member("pkg-b", false, &["pkg-a"])]);
    let ws = wtf_rlsr::workspace::Workspace::new(
        packages,
        b".".to_vec(),
        b"monorepo".to_vec(),
        v(3, 0, 0),
        b"Cargo.toml".to_vec(),
    );
    assert_eq!(ws.find_package(&b"pkg-b".to_vec()), Some(1));
    assert_eq!(ws.name(), &b"monorepo".to_vec());
    assert_eq!(*ws.version(), v(3, 0, 0));
    assert_eq!(ws.bump(wtf_rlsr::bump::Bump::Minor), v(3, 1, 0));
}

#[test]
fn changed_indices_lists_exactly_the_changed_members() {
    let packages = Packages::new(vec![
        member("pkg-a", true, &[]),
        member("pkg-b", false, &[]),
        member("pkg-c", true, &[]),
    ]);
    assert_eq!(packages.changed_indices(), vec![0, 2]);
}

#[test]
fn partition_respects_selection_and_keeps_order() {
    let items = vec![3usize, 1, 2];
    let selected = vec![false, true, false, true];
    let (chosen, rest) = wtf_rlsr::release::partition_selected(&items, &selected);
    assert_eq!(chosen, vec![3, 1]);
    assert_eq!(rest, vec![2]);
}

#[test]
fn document_content_renders_each_line_with_a_newline() {
    let man = PackageManifest::new(vec![b"alpha".to_vec(), b"beta".to_vec()]);
    assert_eq!(man.content(), b"alpha\nbeta\n".to_vec());
    let empty = PackageManifest::new(Vec::new());
    assert_eq!(empty.content(), Vec::<u8>::new());
}

#[test]
fn presentation_order_puts_unchanged_first_then_names_ascend() {
    // The changed package has the smallest index; presentation must
    // still put the unchanged one first, and sort names within each
    // partition.
    let members = vec![
        member("pkg-z", true, &[]),
        member("pkg-a", false, &[]),
        member("pkg-m", true, &[]),
    ];
    let collected = vec![0usize, 1, 2];
    let ordered = presentation_order(&members, &collected);
    assert_eq!(ordered, vec![1, 2, 0]);
}

#[test]
fn publish_output_classification() {
    assert_eq!(
        classify_publish_output(true, &b"".to_vec()),
        PublishOutcome::Published
    );
    assert_eq!(
        classify_publish_output(false, &b"error: crate 1.0.0 already uploaded".to_vec()),
        PublishOutcome::AlreadyPublished
    );
    assert_eq!(
        classify_publish_output(false, &b"error: network timeout".to_vec()),
        PublishOutcome::Failed
    );
}

#[test]
fn split_lines_inverts_document_rendering() {
    let doc = PackageManifest::new(vec![b"[package]".to_vec(), b"name = \"a\"".to_vec()]);
    let rendered = doc.content();
    assert_eq!(split_lines(&rendered), doc.lines);
    // Carriage returns are stripped; a final segment without a newline
    // is a line of its own.
    assert_eq!(
        split_lines(&b"alpha\r\nbeta".to_vec()),
        vec![b"alpha".to_vec(), b"beta".to_vec()]
    );
    assert_eq!(split_lines(&b"".to_vec()), Vec::<Vec<u8>>::new());
}

#[test]
fn relative_path_absent_when_paths_cannot_be_related() {
    assert_eq!(rel_path_between(&b"rel/x".to_vec(), &b"/abs".to_vec()), None);
}

#[test]
fn path_update_stops_on_unrelatable_directories() {
    let pkg_doc = vec![b"pkg-a = \"0.1.0\"".to_vec()];
    let ws = WorkspaceManifests::new(
        WorkspaceManifest::new(Vec::new()),
        WorkspaceManifest::new(Vec::new()),
        b"Cargo.toml".to_vec(),
    );
    let mut updater = Updater::new(ws, 2);
    updater.insert_manifests(
        1,
        PackageManifests::new(
            b"pkg-b".to_vec(),
            v(0, 1, 0),
            PackageManifest::new(pkg_doc.clone()),
            PackageManifest::new(pkg_doc.clone()),
            b"crates/pkg-b/Cargo.toml".to_vec(),
        ),
    );
    // The member's directory is relative while the package's is
    // absolute: no relative path relates them.
    let members = vec![member("pkg-a", false, &[]), member("pkg-b", false, &["pkg-a"])];
    let mut pkg = member("pkg-b", false, &["pkg-a"]);
    pkg.directory = b"/abs/pkg-b".to_vec();
    let result = updater.set_pkg_paths(1, &pkg, &members, false, false);
    assert!(result.is_err());
    // Nothing before the blocked dependency, so nothing was rewritten.
    let m = updater.toml_files[1].as_ref().unwrap();
    assert_eq!(m.index.lines, pkg_doc);
}
