//! The on-disk state of one manifest location, modelled explicitly.
//!
//! A manifest under mutation lives as up to four sibling files: the
//! canonical file, two preview copies (head and index), and a backup of
//! the pre-mutation canonical file. The swap into place is two renames,
//! never a copy, so the canonical bytes are preserved exactly by a
//! backup-and-restore round trip. The functions here are the pure state
//! transitions; performing the renames on a real file system is the
//! caller's side of the contract.

use vstd::prelude::*;

verus! {

/// Contents of the manifest file family at one location. `None` means
/// the file is absent.
pub struct ManifestFiles {
    /// The canonical manifest file.
    pub canonical: Vec<Vec<u8>>,
    /// The preview copy of the head variant, if saved.
    pub preview_head: Option<Vec<Vec<u8>>>,
    /// The preview copy of the index variant, if saved.
    pub preview_index: Option<Vec<Vec<u8>>>,
    /// The backup of the pre-mutation canonical file, if staged.
    pub backup: Option<Vec<Vec<u8>>>,
}

impl ManifestFiles {
    /// A location holding only its canonical file.
    pub fn new(canonical: Vec<Vec<u8>>) -> (r: ManifestFiles)
        ensures
            r.canonical == canonical,
            r.preview_head is None,
            r.preview_index is None,
            r.backup is None,
    {
        ManifestFiles { canonical, preview_head: None, preview_index: None, backup: None }
    }
}

/// Moves the index preview in as the canonical manifest: the canonical
/// file is renamed to the backup, then the preview is renamed to
/// canonical. Two renames, not a copy: the old canonical bytes survive
/// in the backup exactly.
pub fn move_index_manifest(files: &mut ManifestFiles)
    requires
        old(files).preview_index is Some,
    ensures
        final(files).canonical == old(files).preview_index->Some_0,
        final(files).backup == Some(old(files).canonical),
        final(files).preview_index is None,
        final(files).preview_head == old(files).preview_head,
{
    let mut staged: Option<Vec<Vec<u8>>> = None;
    core::mem::swap(&mut staged, &mut files.preview_index);
    let mut canon: Vec<Vec<u8>> = staged.unwrap();
    core::mem::swap(&mut canon, &mut files.canonical);
    files.backup = Some(canon);
}

/// Restores the backed-up manifest: the backup is renamed back to the
/// canonical file, reversing the swap.
pub fn restore_manifest(files: &mut ManifestFiles)
    requires
        old(files).backup is Some,
    ensures
        final(files).canonical == old(files).backup->Some_0,
        final(files).backup is None,
        final(files).preview_head == old(files).preview_head,
        final(files).preview_index == old(files).preview_index,
{
    let mut saved: Option<Vec<Vec<u8>>> = None;
    core::mem::swap(&mut saved, &mut files.backup);
    files.canonical = saved.unwrap();
}

/// Law: swapping a mutated preview in as the canonical manifest and then
/// restoring the backup reproduces the original canonical document
/// byte-for-byte, whatever mutation produced the preview. `f1` is `f0`
/// after `move_index_manifest` and `f2` is `f1` after `restore_manifest`,
/// each described by that function's contract.
pub proof fn lemma_swap_then_restore_roundtrip(
    f0: ManifestFiles,
    f1: ManifestFiles,
    f2: ManifestFiles,
)
    requires
        f0.preview_index is Some,
        f1.canonical == f0.preview_index->Some_0,
        f1.backup == Some(f0.canonical),
        f2.canonical == f1.backup->Some_0,
        f2.backup is None,
    ensures
        f2.canonical == f0.canonical,
{
}

/// The directory part of a path: everything up to and including the last
/// slash, or empty when the path has no slash.
pub open spec fn dir_prefix(path: Seq<u8>) -> Seq<u8>
    decreases path.len(),
{
    if path.len() == 0 {
        Seq::empty()
    } else if path[path.len() - 1] == 47 {
        path
    } else {
        dir_prefix(path.subrange(0, path.len() - 1))
    }
}

/// `Cargo.preview-head.toml`
pub open spec fn preview_head_name() -> Seq<u8> {
    seq![
        67u8, 97u8, 114u8, 103u8, 111u8, 46u8, 112u8, 114u8, 101u8, 118u8, 105u8, 101u8,
        119u8, 45u8, 104u8, 101u8, 97u8, 100u8, 46u8, 116u8, 111u8, 109u8, 108u8,
    ]
}

/// `Cargo.preview-index.toml`
pub open spec fn preview_index_name() -> Seq<u8> {
    seq![
        67u8, 97u8, 114u8, 103u8, 111u8, 46u8, 112u8, 114u8, 101u8, 118u8, 105u8, 101u8,
        119u8, 45u8, 105u8, 110u8, 100u8, 101u8, 120u8, 46u8, 116u8, 111u8, 109u8, 108u8,
    ]
}

/// `Cargo.backup.toml`
pub open spec fn backup_name() -> Seq<u8> {
    seq![
        67u8, 97u8, 114u8, 103u8, 111u8, 46u8, 98u8, 97u8, 99u8, 107u8, 117u8, 112u8, 46u8,
        116u8, 111u8, 109u8, 108u8,
    ]
}

/// The directory part of `path`, as a vector.
pub fn dir_prefix_vec(path: &Vec<u8>) -> (r: Vec<u8>)
    ensures
        r@ == dir_prefix(path@),
{
    let mut i: usize = path.len();
    proof {
        assert(path@.subrange(0, path@.len() as int) =~= path@);
    }
    while i > 0 && path[i - 1] != 47
        invariant
            i <= path@.len(),
            dir_prefix(path@) == dir_prefix(path@.subrange(0, i as int)),
        decreases i,
    {
        proof {
            assert(path@.subrange(0, i as int).subrange(0, i - 1) =~= path@.subrange(0, i - 1));
        }
        i -= 1;
    }
    let mut out: Vec<u8> = Vec::new();
    let mut j: usize = 0;
    while j < i
        invariant
            j <= i <= path@.len(),
            out@ =~= path@.subrange(0, j as int),
        decreases i - j,
    {
        out.push(path[j]);
        j += 1;
    }
    proof {
        if i > 0 {
            assert(dir_prefix(path@.subrange(0, i as int)) == path@.subrange(0, i as int));
        } else {
            assert(path@.subrange(0, 0) =~= Seq::<u8>::empty());
        }
    }
    out
}

/// The sibling of `path` named `name`: the directory part joined with it.
pub fn sibling_path(path: &Vec<u8>, name: &Vec<u8>) -> (r: Vec<u8>)
    ensures
        r@ == dir_prefix(path@) + name@,
{
    let mut out = dir_prefix_vec(path);
    crate::text::push_all(&mut out, name);
    out
}

/// Renders `Cargo.preview-head.toml`.
pub fn preview_head_name_vec() -> (r: Vec<u8>)
    ensures
        r@ == preview_head_name(),
{
    let r: Vec<u8> = vec![
        67u8, 97u8, 114u8, 103u8, 111u8, 46u8, 112u8, 114u8, 101u8, 118u8, 105u8, 101u8,
        119u8, 45u8, 104u8, 101u8, 97u8, 100u8, 46u8, 116u8, 111u8, 109u8, 108u8,
    ];
    proof {
        assert(r@ =~= preview_head_name());
    }
    r
}

/// Renders `Cargo.preview-index.toml`.
pub fn preview_index_name_vec() -> (r: Vec<u8>)
    ensures
        r@ == preview_index_name(),
{
    let r: Vec<u8> = vec![
        67u8, 97u8, 114u8, 103u8, 111u8, 46u8, 112u8, 114u8, 101u8, 118u8, 105u8, 101u8,
        119u8, 45u8, 105u8, 110u8, 100u8, 101u8, 120u8, 46u8, 116u8, 111u8, 109u8, 108u8,
    ];
    proof {
        assert(r@ =~= preview_index_name());
    }
    r
}

/// Renders `Cargo.backup.toml`.
pub fn backup_name_vec() -> (r: Vec<u8>)
    ensures
        r@ == backup_name(),
{
    let r: Vec<u8> = vec![
        67u8, 97u8, 114u8, 103u8, 111u8, 46u8, 98u8, 97u8, 99u8, 107u8, 117u8, 112u8, 46u8,
        116u8, 111u8, 109u8, 108u8,
    ];
    proof {
        assert(r@ =~= backup_name());
    }
    r
}

} // verus!
