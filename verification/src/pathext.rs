//! Path text cleaning and relative-path computation.
//!
//! Paths travel through the library as UTF-8 bytes. Cleaning removes
//! verbatim-path fragments and turns backslashes into slashes, so that
//! what lands in a manifest line is the same on every platform.

use vstd::prelude::*;

use crate::text::{replace_all, replace_all_bytes};

verus! {

/// `\\?\`
pub open spec fn verbatim_prefix() -> Seq<u8> {
    seq![92u8, 92u8, 63u8, 92u8]
}

/// The path with every `\\?\` fragment removed and a trailing backslash
/// stripped.
pub open spec fn fix_path_bytes(s: Seq<u8>) -> Seq<u8> {
    let f = replace_all(s, verbatim_prefix(), Seq::empty());
    if f.len() > 0 && f.last() == 92 {
        f.drop_last()
    } else {
        f
    }
}

/// The fixed path with every backslash replaced by a slash.
pub open spec fn clean_path_bytes(s: Seq<u8>) -> Seq<u8> {
    fix_path_bytes(s).map_values(
        |c: u8|
            if c == 92 {
                47u8
            } else {
                c
            },
    )
}

/// Fixes a path: removes `\\?\` fragments and a trailing backslash.
pub fn fix_path(s: &Vec<u8>) -> (r: Vec<u8>)
    ensures
        r@ == fix_path_bytes(s@),
{
    let pat: Vec<u8> = vec![92u8, 92u8, 63u8, 92u8];  // `\\?\`
    let empty: Vec<u8> = Vec::new();
    proof {
        assert(pat@ =~= verbatim_prefix());
        assert(empty@ =~= Seq::<u8>::empty());
    }
    let mut f = replace_all_bytes(s, &pat, &empty);
    if f.len() > 0 && f[f.len() - 1] == 92 {
        f.pop();
    }
    f
}

/// Cleans a path: fixes it and turns backslashes into slashes.
pub fn clean_path(s: &Vec<u8>) -> (r: Vec<u8>)
    ensures
        r@ == clean_path_bytes(s@),
{
    let f = fix_path(s);
    let mut out: Vec<u8> = Vec::new();
    let mut i: usize = 0;
    while i < f.len()
        invariant
            i <= f@.len(),
            out@.len() == i,
            forall|j: int|
                0 <= j < i ==> out@[j] == (if f@[j] == 92 {
                    47u8
                } else {
                    f@[j]
                }),
        decreases f@.len() - i,
    {
        let c = f[i];
        if c == 92 {
            out.push(47u8);
        } else {
            out.push(c);
        }
        i += 1;
    }
    proof {
        assert(out@ =~= f@.map_values(
            |c: u8|
                if c == 92 {
                    47u8
                } else {
                    c
                },
        ));
    }
    out
}

/// What the outside path-difference routine computes from exactly
/// these two byte strings: `None` when no relative path relates them
/// (the target relative, the base absolute) or when one of them is not
/// valid UTF-8, otherwise the relative path from the directory `base`
/// to the directory `path`.
pub uninterp spec fn diff_paths_of(path: Seq<u8>, base: Seq<u8>) -> Option<Seq<u8>>;

/// Relies on pathdiff::diff_paths: constructs the relative path from
/// `base` to `path`. The call walks the two paths' components and
/// nothing else, so the whole result, its presence included, is a
/// function of the two byte strings alone.
#[verifier::external_body]
fn diff_paths_raw(path: &Vec<u8>, base: &Vec<u8>) -> (r: Option<Vec<u8>>)
    ensures
        (match r {
            Some(p) => Some(p@),
            None => None,
        }) == diff_paths_of(path@, base@),
{
    let path = std::str::from_utf8(path.as_slice()).ok()?;
    let base = std::str::from_utf8(base.as_slice()).ok()?;
    let diff = pathdiff::diff_paths(path, base)?;
    Some(diff.to_str()?.as_bytes().to_vec())
}

/// The relative path from `base` to `path`, cleaned for a manifest
/// line: present exactly when the path difference exists, and then
/// equal to its cleaned form.
pub fn rel_path_between(path: &Vec<u8>, base: &Vec<u8>) -> (r: Option<Vec<u8>>)
    ensures
        r is Some <==> diff_paths_of(path@, base@) is Some,
        r matches Some(p) ==> p@ == clean_path_bytes(diff_paths_of(path@, base@)->Some_0),
{
    match diff_paths_raw(path, base) {
        Some(raw) => Some(clean_path(&raw)),
        None => None,
    }
}

/// Clean path trait: fixing removes verbatim fragments and a trailing
/// separator; cleaning additionally normalises separators to slashes.
pub trait CleanPath: View<V = Seq<u8>> + Sized {
    /// Fixes a path.
    fn fix_path(&self) -> (r: Self)
        ensures
            r@ == fix_path_bytes(self@),
    ;

    /// Cleans a path for a manifest line.
    fn clean_path(&self) -> (r: Self)
        ensures
            r@ == clean_path_bytes(self@),
    ;
}

impl CleanPath for Vec<u8> {
    fn fix_path(&self) -> (r: Vec<u8>) {
        fix_path(self)
    }

    fn clean_path(&self) -> (r: Vec<u8>) {
        clean_path(self)
    }
}

} // verus!
