//! The bump policy, version arithmetic, and commit messages.

use wtf_rlsr::bump::{Bump, BumpExt, Update, Version};
use wtf_rlsr::messages::message;

fn v(major: u64, minor: u64, patch: u64) -> Version {
    Version { major, minor, patch }
}

#[test]
fn unchanged_dependant_always_gets_patch() {
    assert_eq!(Bump::Major.dependency(false, true), Bump::Patch);
    assert_eq!(Bump::Major.dependency(false, false), Bump::Patch);
    assert_eq!(Bump::Minor.dependency(false, true), Bump::Patch);
    assert_eq!(Bump::Minor.dependency(false, false), Bump::Patch);
    assert_eq!(Bump::Patch.dependency(false, true), Bump::Patch);
    assert_eq!(Bump::Patch.dependency(false, false), Bump::Patch);
}

#[test]
fn committed_changed_dependant_matches_root() {
    assert_eq!(Bump::Major.dependency(true, true), Bump::Major);
    assert_eq!(Bump::Minor.dependency(true, true), Bump::Minor);
    assert_eq!(Bump::Patch.dependency(true, true), Bump::Patch);
}

#[test]
fn deferred_changed_dependant_clamps_major_to_minor() {
    assert_eq!(Bump::Major.dependency(true, false), Bump::Minor);
    assert_eq!(Bump::Minor.dependency(true, false), Bump::Minor);
    assert_eq!(Bump::Patch.dependency(true, false), Bump::Patch);
}

#[test]
fn docs_and_chore_have_no_version_effect() {
    assert!(Update::Docs.as_bump().is_none());
    assert!(Update::Chore.as_bump().is_none());
    assert_eq!(Update::Docs.bump(&v(1, 2, 3)), v(1, 2, 3));
    assert_eq!(Update::Chore.bump(&v(1, 2, 3)), v(1, 2, 3));
}

#[test]
fn update_bump_kinds() {
    assert_eq!(Update::Patch.as_bump(), Some(Bump::Patch));
    assert_eq!(Update::Minor.as_bump(), Some(Bump::Minor));
    assert_eq!(Update::Major.as_bump(), Some(Bump::Major));
}

#[test]
fn version_bump_resets_lower_components() {
    assert_eq!(BumpExt::bump(&v(1, 2, 3), Bump::Patch), v(1, 2, 4));
    assert_eq!(BumpExt::bump(&v(1, 2, 3), Bump::Minor), v(1, 3, 0));
    assert_eq!(BumpExt::bump(&v(1, 2, 3), Bump::Major), v(2, 0, 0));
}

#[test]
fn commit_type_and_description() {
    assert_eq!(Update::Docs.commit_type(), "docs");
    assert_eq!(Update::Chore.commit_type(), "chore");
    assert_eq!(Update::Patch.commit_type(), "fix");
    assert_eq!(Update::Minor.commit_type(), "feat");
    assert_eq!(Update::Major.commit_type(), "feat");
    assert_eq!(Update::Docs.commit_description(), "docs update");
    assert_eq!(Update::Chore.commit_description(), "cleanup");
    assert_eq!(Update::Patch.commit_description(), "patch");
    assert_eq!(Update::Minor.commit_description(), "minor update");
    assert_eq!(Update::Major.commit_description(), "major update");
}

#[test]
fn package_update_message_exact() {
    let name = b"wtf-core".to_vec();
    let header = b"rework".to_vec();
    let msg = message(&name, &Update::Minor, &v(0, 2, 1), &header, None, false);
    assert_eq!(
        String::from_utf8(msg).unwrap(),
        "feat(wtf/core): minor update of wtf-core v0.2.1 \u{2192} 0.3.0 (rework)"
    );
}

#[test]
fn dependency_update_message_with_extra_lines() {
    let name = b"wtf-util".to_vec();
    let header = b"deps".to_vec();
    let extra = vec![b"first".to_vec(), b"second".to_vec()];
    let msg = message(&name, &Update::Patch, &v(1, 0, 0), &header, Some(&extra), true);
    assert_eq!(
        String::from_utf8(msg).unwrap(),
        "fix(*): patch of wtf-util v1.0.0 \u{2192} 1.0.1 (deps)\n\nfirst\nsecond"
    );
}

#[test]
fn chore_message_has_plain_transition() {
    let name = b"solo".to_vec();
    let header = b"tidy".to_vec();
    let msg = message(&name, &Update::Chore, &v(3, 1, 4), &header, None, false);
    assert_eq!(
        String::from_utf8(msg).unwrap(),
        "chore(solo): cleanup of solo v3.1.4 (tidy)"
    );
}
