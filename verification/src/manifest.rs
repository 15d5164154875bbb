//! The manifest mutation operations.
//!
//! Each operation rewrites only the lines matching a precise key pattern
//! and leaves every other line byte-identical: the document's own version
//! field, a dependency entry's version, a dependency entry converted to a
//! path-and-version form, and a workspace-level override entry.

use vstd::prelude::*;

use crate::bump::Version;
use crate::lines::{
    change_first_line, copy_bytes, lemma_rewrite_absent_key_unchanged, lines_view,
    rewrite_matching, rewrite_matching_lines, set_matching, set_matching_lines, set_or_insert,
    set_or_insert_line, replace_first_equal,
};
use crate::text::{dec_digits, is_prefix_of, push_all, u64_to_dec};

verus! {

/// `s` wrapped in double quotes.
pub open spec fn quoted(s: Seq<u8>) -> Seq<u8> {
    seq![34u8] + s + seq![34u8]
}

/// The rendered form of a version: major, minor and patch in decimal,
/// separated by dots.
pub open spec fn version_bytes(v: Version) -> Seq<u8> {
    dec_digits(v.major as nat) + seq![46u8] + dec_digits(v.minor as nat) + seq![46u8]
        + dec_digits(v.patch as nat)
}

/// ` = `
pub open spec fn lit_sp_eq_sp() -> Seq<u8> {
    seq![32u8, 61u8, 32u8]
}

/// `{ `
pub open spec fn lit_obrace() -> Seq<u8> {
    seq![123u8, 32u8]
}

/// ` }`
pub open spec fn lit_cbrace() -> Seq<u8> {
    seq![32u8, 125u8]
}

/// `version = `
pub open spec fn lit_version_eq() -> Seq<u8> {
    seq![118u8, 101u8, 114u8, 115u8, 105u8, 111u8, 110u8, 32u8, 61u8, 32u8]
}

/// `path = `
pub open spec fn lit_path_eq() -> Seq<u8> {
    seq![112u8, 97u8, 116u8, 104u8, 32u8, 61u8, 32u8]
}

/// `, `
pub open spec fn comma_sp() -> Seq<u8> {
    seq![44u8, 32u8]
}

/// `optional = true`
pub open spec fn lit_optional_true() -> Seq<u8> {
    seq![
        111u8, 112u8, 116u8, 105u8, 111u8, 110u8, 97u8, 108u8, 32u8, 61u8, 32u8, 116u8, 114u8, 117u8,
        101u8,
    ]
}

/// `default-features = false`
pub open spec fn lit_no_default_features() -> Seq<u8> {
    seq![
        100u8, 101u8, 102u8, 97u8, 117u8, 108u8, 116u8, 45u8, 102u8, 101u8, 97u8, 116u8, 117u8, 114u8,
        101u8, 115u8, 32u8, 61u8, 32u8, 102u8, 97u8, 108u8, 115u8, 101u8,
    ]
}

/// `features = [`
pub open spec fn lit_features_open() -> Seq<u8> {
    seq![
        102u8, 101u8, 97u8, 116u8, 117u8, 114u8, 101u8, 115u8, 32u8, 61u8, 32u8, 91u8,
    ]
}

/// The document's own version field line: `version = "<v>"`.
pub open spec fn version_line(v: Version) -> Seq<u8> {
    lit_version_eq() + quoted(version_bytes(v))
}

/// The key selecting a dependency entry in either form: `<name> `.
pub open spec fn dep_space_key(name: Seq<u8>) -> Seq<u8> {
    name + seq![32u8]
}

/// The key selecting a bare-string dependency entry: `<name> = "`.
pub open spec fn dep_bare_key(name: Seq<u8>) -> Seq<u8> {
    name + lit_sp_eq_sp() + seq![34u8]
}

/// A dependency entry carrying both a version and a local path:
/// `<name> = { version = "<v>", path = "<path>" }`.
pub open spec fn dep_path_line(name: Seq<u8>, v: Version, path: Seq<u8>) -> Seq<u8> {
    name + lit_sp_eq_sp() + lit_obrace() + lit_version_eq() + quoted(version_bytes(v))
        + comma_sp() + lit_path_eq() + quoted(path) + lit_cbrace()
}

/// The key selecting an override entry for a package: `"<name>:`.
pub open spec fn override_key(name: Seq<u8>) -> Seq<u8> {
    seq![34u8] + name + seq![58u8]
}

/// The key selecting the override entry for one exact package version:
/// `"<name>:<v>"`.
pub open spec fn override_entry_key(name: Seq<u8>, v: Version) -> Seq<u8> {
    seq![34u8] + name + seq![58u8] + version_bytes(v) + seq![34u8]
}

/// The version fragment of an override entry: `:<v>"`.
pub open spec fn colon_version_quote(v: Version) -> Seq<u8> {
    seq![58u8] + version_bytes(v) + seq![34u8]
}

/// An override entry pointing a package version at a local path:
/// `"<name>:<v>" = { path = "<path>" }`.
pub open spec fn override_path_line(name: Seq<u8>, v: Version, path: Seq<u8>) -> Seq<u8> {
    override_entry_key(name, v) + lit_sp_eq_sp() + lit_obrace() + lit_path_eq() + quoted(path)
        + lit_cbrace()
}

/// Renders `v`.
pub fn version_to_bytes(v: &Version) -> (r: Vec<u8>)
    ensures
        r@ == version_bytes(*v),
{
    let mut out = u64_to_dec(v.major);
    out.push(46u8);
    let minor = u64_to_dec(v.minor);
    push_all(&mut out, &minor);
    out.push(46u8);
    let patch = u64_to_dec(v.patch);
    push_all(&mut out, &patch);
    proof {
        assert(out@ =~= version_bytes(*v));
    }
    out
}

/// Renders `"<v>"`.
pub fn quoted_version(v: &Version) -> (r: Vec<u8>)
    ensures
        r@ == quoted(version_bytes(*v)),
{
    let mut out: Vec<u8> = vec![34u8];  // `"`
    let vb = version_to_bytes(v);
    push_all(&mut out, &vb);
    out.push(34u8);
    proof {
        assert(out@ =~= quoted(version_bytes(*v)));
    }
    out
}

/// Renders `version = "<v>"`.
pub fn version_line_vec(v: &Version) -> (r: Vec<u8>)
    ensures
        r@ == version_line(*v),
{
    // `version = "`
    let mut out: Vec<u8> = vec![
        118u8, 101u8, 114u8, 115u8, 105u8, 111u8, 110u8, 32u8, 61u8, 32u8, 34u8,
    ];
    let vb = version_to_bytes(v);
    push_all(&mut out, &vb);
    out.push(34u8);
    proof {
        assert(out@ =~= version_line(*v));
    }
    out
}

/// Renders `<name> `.
pub fn dep_space_key_vec(name: &Vec<u8>) -> (r: Vec<u8>)
    ensures
        r@ == dep_space_key(name@),
{
    let mut out = copy_bytes(name);
    out.push(32u8);
    proof {
        assert(out@ =~= dep_space_key(name@));
    }
    out
}

/// Renders `<name> = "`.
pub fn dep_bare_key_vec(name: &Vec<u8>) -> (r: Vec<u8>)
    ensures
        r@ == dep_bare_key(name@),
{
    let mut out = copy_bytes(name);
    out.push(32u8);
    out.push(61u8);
    out.push(32u8);
    out.push(34u8);
    proof {
        assert(out@ =~= dep_bare_key(name@));
    }
    out
}

/// Renders `<name> = { version = "<v>", path = "<path>" }`.
pub fn dep_path_line_vec(name: &Vec<u8>, v: &Version, path: &Vec<u8>) -> (r: Vec<u8>)
    ensures
        r@ == dep_path_line(name@, *v, path@),
{
    let mut out = copy_bytes(name);
    // ` = { version = "`
    let mid: Vec<u8> = vec![
        32u8, 61u8, 32u8, 123u8, 32u8, 118u8, 101u8, 114u8, 115u8, 105u8, 111u8, 110u8, 32u8, 61u8,
        32u8, 34u8,
    ];
    push_all(&mut out, &mid);
    let vb = version_to_bytes(v);
    push_all(&mut out, &vb);
    let mid2: Vec<u8> = vec![34u8, 44u8, 32u8, 112u8, 97u8, 116u8, 104u8, 32u8, 61u8, 32u8, 34u8];  // `", path = "`
    push_all(&mut out, &mid2);
    push_all(&mut out, path);
    let close: Vec<u8> = vec![34u8, 32u8, 125u8];  // `" }`
    push_all(&mut out, &close);
    proof {
        assert(out@ =~= dep_path_line(name@, *v, path@));
    }
    out
}

/// Renders `"<name>:`.
pub fn override_key_vec(name: &Vec<u8>) -> (r: Vec<u8>)
    ensures
        r@ == override_key(name@),
{
    let mut out: Vec<u8> = vec![34u8];  // `"`
    push_all(&mut out, name);
    out.push(58u8);  // `:`
    proof {
        assert(out@ =~= override_key(name@));
    }
    out
}

/// Renders `"<name>:<v>"`.
pub fn override_entry_key_vec(name: &Vec<u8>, v: &Version) -> (r: Vec<u8>)
    ensures
        r@ == override_entry_key(name@, *v),
{
    let mut out = override_key_vec(name);
    let vb = version_to_bytes(v);
    push_all(&mut out, &vb);
    out.push(34u8);
    proof {
        assert(out@ =~= override_entry_key(name@, *v));
    }
    out
}

/// Renders `:<v>"`.
pub fn colon_version_quote_vec(v: &Version) -> (r: Vec<u8>)
    ensures
        r@ == colon_version_quote(*v),
{
    let mut out: Vec<u8> = vec![58u8];  // `:`
    let vb = version_to_bytes(v);
    push_all(&mut out, &vb);
    out.push(34u8);
    proof {
        assert(out@ =~= colon_version_quote(*v));
    }
    out
}

/// Renders `"<name>:<v>" = { path = "<path>" }`.
pub fn override_path_line_vec(name: &Vec<u8>, v: &Version, path: &Vec<u8>) -> (r: Vec<u8>)
    ensures
        r@ == override_path_line(name@, *v, path@),
{
    let mut out = override_entry_key_vec(name, v);
    // ` = { path = "`
    let mid: Vec<u8> = vec![
        32u8, 61u8, 32u8, 123u8, 32u8, 112u8, 97u8, 116u8, 104u8, 32u8, 61u8, 32u8, 34u8,
    ];
    push_all(&mut out, &mid);
    push_all(&mut out, path);
    let close: Vec<u8> = vec![34u8, 32u8, 125u8];  // `" }`
    push_all(&mut out, &close);
    proof {
        assert(out@ =~= override_path_line(name@, *v, path@));
    }
    out
}

/// Replaces the first version field in the document: the first line that
/// is exactly `version = "<old>"` becomes `version = "<new>"`; no other
/// line changes, and a document without that line is left untouched.
pub fn change_first_ver(lines: &mut Vec<Vec<u8>>, old_v: &Version, new_v: &Version)
    ensures
        lines_view(final(lines)@) == replace_first_equal(
            lines_view(old(lines)@),
            version_line(*old_v),
            version_line(*new_v),
        ),
{
    let oldl = version_line_vec(old_v);
    let newl = version_line_vec(new_v);
    change_first_line(lines, &oldl, newl);
}

/// Rewrites the version inside a dependency entry: on every line starting
/// with `<name> `, each occurrence of `"<old>"` becomes `"<new>"`. This
/// covers both the bare-string and the inline-table entry form.
pub fn change_dep_ver(lines: &mut Vec<Vec<u8>>, name: &Vec<u8>, old_v: &Version, new_v: &Version)
    ensures
        lines_view(final(lines)@) == rewrite_matching_lines(
            lines_view(old(lines)@),
            dep_space_key(name@),
            quoted(version_bytes(*old_v)),
            quoted(version_bytes(*new_v)),
        ),
{
    let key = dep_space_key_vec(name);
    let from = quoted_version(old_v);
    let to = quoted_version(new_v);
    rewrite_matching(lines, &key, &from, &to);
}

/// Converts a bare-string dependency entry to carry both a local path and
/// a version: every line starting with `<name> = "` becomes
/// `<name> = { version = "<v>", path = "<path>" }`.
pub fn set_dep_path(lines: &mut Vec<Vec<u8>>, name: &Vec<u8>, path: &Vec<u8>, v: &Version)
    ensures
        lines_view(final(lines)@) == set_matching_lines(
            lines_view(old(lines)@),
            dep_bare_key(name@),
            dep_path_line(name@, *v, path@),
        ),
{
    let key = dep_bare_key_vec(name);
    let newl = dep_path_line_vec(name, v, path);
    set_matching(lines, &key, &newl);
}

/// Rewrites a workspace-level override entry in place, or appends one if
/// absent: the first line starting with `"<name>:` becomes
/// `"<name>:<v>" = { path = "<path>" }`; with no such line the entry is
/// appended. First match wins.
pub fn set_replace(lines: &mut Vec<Vec<u8>>, name: &Vec<u8>, v: &Version, path: &Vec<u8>)
    ensures
        lines_view(final(lines)@) == set_or_insert_line(
            lines_view(old(lines)@),
            override_key(name@),
            override_path_line(name@, *v, path@),
        ),
{
    let key = override_key_vec(name);
    let newl = override_path_line_vec(name, v, path);
    set_or_insert(lines, &key, newl);
}

/// Bumps the version recorded in a package's override entry: on every
/// line starting with `"<name>:<old>"`, each occurrence of `:<old>"`
/// becomes `:<new>"`.
pub fn change_replace(lines: &mut Vec<Vec<u8>>, name: &Vec<u8>, old_v: &Version, new_v: &Version)
    ensures
        lines_view(final(lines)@) == rewrite_matching_lines(
            lines_view(old(lines)@),
            override_entry_key(name@, *old_v),
            colon_version_quote(*old_v),
            colon_version_quote(*new_v),
        ),
{
    let key = override_entry_key_vec(name, old_v);
    let from = colon_version_quote_vec(old_v);
    let to = colon_version_quote_vec(new_v);
    rewrite_matching(lines, &key, &from, &to);
}

/// Law: updating a dependency whose name begins no line of the document
/// returns the document unchanged, whatever the old and new versions.
pub proof fn lemma_update_dep_absent_name_unchanged(
    lines: Seq<Seq<u8>>,
    name: Seq<u8>,
    old_v: Version,
    new_v: Version,
)
    requires
        forall|i: int|
            0 <= i < lines.len() ==> !is_prefix_of(dep_space_key(name), #[trigger] lines[i]),
    ensures
        rewrite_matching_lines(
            lines,
            dep_space_key(name),
            quoted(version_bytes(old_v)),
            quoted(version_bytes(new_v)),
        ) == lines,
{
    lemma_rewrite_absent_key_unchanged(
        lines,
        dep_space_key(name),
        quoted(version_bytes(old_v)),
        quoted(version_bytes(new_v)),
    );
}

/// The feature names, each quoted, joined with `, `.
pub open spec fn quoted_list(fs: Seq<Seq<u8>>) -> Seq<u8>
    decreases fs.len(),
{
    if fs.len() == 0 {
        Seq::empty()
    } else if fs.len() == 1 {
        quoted(fs[0])
    } else {
        quoted(fs[0]) + comma_sp() + quoted_list(fs.subrange(1, fs.len() as int))
    }
}

/// Appending a feature appends a separator and its quoted name.
pub proof fn lemma_quoted_list_push(fs: Seq<Seq<u8>>, x: Seq<u8>)
    requires
        fs.len() >= 1,
    ensures
        quoted_list(fs.push(x)) == quoted_list(fs) + comma_sp() + quoted(x),
    decreases fs.len(),
{
    if fs.len() == 1 {
        assert(fs.push(x).len() == 2);
        assert(fs.push(x)[0] == fs[0]);
        assert(fs.push(x)[1] == x);
        let sub = fs.push(x).subrange(1, 2);
        assert(sub.len() == 1);
        assert(sub[0] == x);
        assert(quoted_list(sub) == quoted(x));
        assert(quoted_list(fs.push(x)) =~= quoted_list(fs) + comma_sp() + quoted(x));
    } else {
        let rest = fs.subrange(1, fs.len() as int);
        assert(fs.push(x).subrange(1, fs.len() as int + 1) =~= rest.push(x));
        lemma_quoted_list_push(rest, x);
        assert(quoted_list(fs.push(x)) =~= quoted_list(fs) + comma_sp() + quoted(x));
    }
}

/// The value written for a dependency entry when its form is forced:
/// the plain quoted version when nothing else must be recorded, an
/// inline table otherwise.
pub open spec fn format_pkg_dep_spec(
    v: Version,
    path: Option<Seq<u8>>,
    optional: bool,
    default_features: bool,
    features: Seq<Seq<u8>>,
) -> Seq<u8> {
    if path is None && !optional && default_features && features.len() == 0 {
        quoted(version_bytes(v))
    } else {
        lit_obrace() + lit_version_eq() + quoted(version_bytes(v)) + (match path {
            Some(p) => comma_sp() + lit_path_eq() + quoted(p),
            None => Seq::empty(),
        }) + (if optional {
            comma_sp() + lit_optional_true()
        } else {
            Seq::empty()
        }) + (if !default_features {
            comma_sp() + lit_no_default_features()
        } else {
            Seq::empty()
        }) + (if features.len() > 0 {
            comma_sp() + lit_features_open() + quoted_list(features) + seq![93u8]
        } else {
            Seq::empty()
        }) + lit_cbrace()
    }
}

/// A whole forced dependency entry line: `<name> = <value>`.
pub open spec fn dep_force_line(
    name: Seq<u8>,
    v: Version,
    path: Option<Seq<u8>>,
    optional: bool,
    default_features: bool,
    features: Seq<Seq<u8>>,
) -> Seq<u8> {
    name + lit_sp_eq_sp() + format_pkg_dep_spec(v, path, optional, default_features, features)
}

/// Renders the forced value of a dependency entry.
#[verifier::rlimit(100)]
pub fn format_pkg_dep(
    v: &Version,
    path: Option<&Vec<u8>>,
    optional: bool,
    default_features: bool,
    features: &Vec<Vec<u8>>,
) -> (r: Vec<u8>)
    ensures
        r@ == format_pkg_dep_spec(
            *v,
            match path {
                Some(p) => Some(p@),
                None => None,
            },
            optional,
            default_features,
            crate::lines::lines_view(features@),
        ),
{
    let ghost fv = crate::lines::lines_view(features@);
    let bare = match path {
        Some(_) => false,
        None => !optional && default_features && features.len() == 0,
    };
    if bare {
        return quoted_version(v);
    }
    // `{ version = `
    let mut out: Vec<u8> = vec![
        123u8, 32u8, 118u8, 101u8, 114u8, 115u8, 105u8, 111u8, 110u8, 32u8, 61u8, 32u8,
    ];
    let qv = quoted_version(v);
    push_all(&mut out, &qv);
    proof {
        assert(out@ =~= lit_obrace() + lit_version_eq() + quoted(version_bytes(*v)));
    }
    let ghost head = out@;
    if let Some(p) = path {
        let mid: Vec<u8> = vec![44u8, 32u8, 112u8, 97u8, 116u8, 104u8, 32u8, 61u8, 32u8, 34u8];  // `, path = "`
        push_all(&mut out, &mid);
        push_all(&mut out, p);
        out.push(34u8);
        proof {
            assert(out@ =~= head + (comma_sp() + lit_path_eq() + quoted(p@)));
        }
    }
    let ghost head2 = out@;
    if optional {
        // `, optional = true`
        let part: Vec<u8> = vec![
            44u8, 32u8, 111u8, 112u8, 116u8, 105u8, 111u8, 110u8, 97u8, 108u8, 32u8, 61u8,
            32u8, 116u8, 114u8, 117u8, 101u8,
        ];
        push_all(&mut out, &part);
        proof {
            assert(out@ =~= head2 + (comma_sp() + lit_optional_true()));
        }
    }
    let ghost head3 = out@;
    if !default_features {
        // `, default-features = false`
        let part: Vec<u8> = vec![
            44u8, 32u8, 100u8, 101u8, 102u8, 97u8, 117u8, 108u8, 116u8, 45u8, 102u8, 101u8,
            97u8, 116u8, 117u8, 114u8, 101u8, 115u8, 32u8, 61u8, 32u8, 102u8, 97u8, 108u8,
            115u8, 101u8,
        ];
        push_all(&mut out, &part);
        proof {
            assert(out@ =~= head3 + (comma_sp() + lit_no_default_features()));
        }
    }
    let ghost head4 = out@;
    if features.len() > 0 {
        // `, features = [`
        let part: Vec<u8> = vec![
            44u8, 32u8, 102u8, 101u8, 97u8, 116u8, 117u8, 114u8, 101u8, 115u8, 32u8, 61u8,
            32u8, 91u8,
        ];
        push_all(&mut out, &part);
        proof {
            assert(out@ =~= head4 + (comma_sp() + lit_features_open()));
        }
        let ghost head5 = out@;
        let mut i: usize = 0;
        while i < features.len()
            invariant
                i <= features@.len(),
                features@.len() > 0,
                fv == crate::lines::lines_view(features@),
                out@ == head5 + (if i == 0 {
                    Seq::<u8>::empty()
                } else {
                    quoted_list(fv.subrange(0, i as int))
                }),
            decreases features@.len() - i,
        {
            if i > 0 {
                out.push(44u8);
                out.push(32u8);
            }
            out.push(34u8);
            push_all(&mut out, &features[i]);
            out.push(34u8);
            proof {
                if i == 0 {
                    assert(fv.subrange(0, 1).len() == 1);
                    assert(fv.subrange(0, 1)[0] == fv[0]);
                    assert(quoted_list(fv.subrange(0, 1)) == quoted(fv[0]));
                    assert(out@ =~= head5 + quoted_list(fv.subrange(0, 1)));
                } else {
                    lemma_quoted_list_push(fv.subrange(0, i as int), fv[i as int]);
                    assert(fv.subrange(0, i as int).push(fv[i as int]) =~= fv.subrange(
                        0,
                        i + 1,
                    ));
                    assert(out@ =~= head5 + quoted_list(fv.subrange(0, i + 1)));
                }
            }
            i += 1;
        }
        proof {
            assert(fv.subrange(0, features@.len() as int) =~= fv);
        }
        out.push(93u8);
    }
    out.push(32u8);
    out.push(125u8);
    proof {
        assert(out@ =~= format_pkg_dep_spec(
            *v,
            match path {
                Some(p) => Some(p@),
                None => None,
            },
            optional,
            default_features,
            fv,
        ));
    }
    out
}

/// Rewrites a dependency entry whole, forcing its recorded version and
/// form: every line starting with `<name> ` becomes the forced entry.
pub fn set_dep_force(
    lines: &mut Vec<Vec<u8>>,
    name: &Vec<u8>,
    v: &Version,
    path: Option<&Vec<u8>>,
    optional: bool,
    default_features: bool,
    features: &Vec<Vec<u8>>,
)
    ensures
        lines_view(final(lines)@) == set_matching_lines(
            lines_view(old(lines)@),
            dep_space_key(name@),
            dep_force_line(
                name@,
                *v,
                match path {
                    Some(p) => Some(p@),
                    None => None,
                },
                optional,
                default_features,
                crate::lines::lines_view(features@),
            ),
        ),
{
    let key = dep_space_key_vec(name);
    let mut newl = copy_bytes(name);
    newl.push(32u8);  // ` `
    newl.push(61u8);  // `=`
    newl.push(32u8);  // ` `
    let value = format_pkg_dep(v, path, optional, default_features, features);
    push_all(&mut newl, &value);
    proof {
        assert(newl@ =~= dep_force_line(
            name@,
            *v,
            match path {
                Some(p) => Some(p@),
                None => None,
            },
            optional,
            default_features,
            crate::lines::lines_view(features@),
        ));
    }
    set_matching(lines, &key, &newl);
}

} // verus!
