//! Commit message construction.

use vstd::prelude::*;

use crate::bump::{Update, Version};
use crate::lines::lines_view;
use crate::manifest::version_bytes;
use crate::text::{push_all, replace_first, replace_first_bytes};

verus! {

/// The commit type of an update: `docs`, `chore`, `fix` or `feat`.
pub open spec fn commit_type_bytes(u: Update) -> Seq<u8> {
    match u {
        Update::Docs => seq![100u8, 111u8, 99u8, 115u8],
        Update::Chore => seq![99u8, 104u8, 111u8, 114u8, 101u8],
        Update::Patch => seq![102u8, 105u8, 120u8],
        Update::Minor => seq![102u8, 101u8, 97u8, 116u8],
        Update::Major => seq![102u8, 101u8, 97u8, 116u8],
    }
}

/// The commit description of an update.
pub open spec fn commit_description_bytes(u: Update) -> Seq<u8> {
    match u {
        Update::Docs => seq![100u8, 111u8, 99u8, 115u8, 32u8, 117u8, 112u8, 100u8, 97u8, 116u8, 101u8],
        Update::Chore => seq![99u8, 108u8, 101u8, 97u8, 110u8, 117u8, 112u8],
        Update::Patch => seq![112u8, 97u8, 116u8, 99u8, 104u8],
        Update::Minor => seq![109u8, 105u8, 110u8, 111u8, 114u8, 32u8, 117u8, 112u8, 100u8, 97u8, 116u8, 101u8],
        Update::Major => seq![109u8, 97u8, 106u8, 111u8, 114u8, 32u8, 117u8, 112u8, 100u8, 97u8, 116u8, 101u8],
    }
}

/// ` -> ` rendered as the arrow separator of a version transition (the
/// arrow is one UTF-8 character).
pub open spec fn arrow_sep() -> Seq<u8> {
    seq![32u8, 226u8, 134u8, 146u8, 32u8]
}

/// The rendered version transition of an update: `v<old> <arrow> <new>`
/// for a bump, plain `v<old>` for an update without a version effect.
pub open spec fn transition_bytes(u: Update, v: Version) -> Seq<u8> {
    match u.spec_as_bump() {
        None => seq![118u8] + version_bytes(v),
        Some(b) => seq![118u8] + version_bytes(v) + arrow_sep() + version_bytes(v.spec_bump(b)),
    }
}

/// The scope of a package update commit: the package name with its
/// first dash turned into a slash.
pub open spec fn scope_bytes(name: Seq<u8>) -> Seq<u8> {
    replace_first(name, seq![45u8], seq![47u8])
}

/// A package update commit line:
/// `<type>(<scope>): <description> of <name> <transition> (<header>)`.
pub open spec fn pkg_update_bytes(name: Seq<u8>, u: Update, v: Version, header: Seq<u8>) -> Seq<u8> {
    commit_type_bytes(u) + seq![40u8] + scope_bytes(name) + seq![41u8, 58u8, 32u8]
        + commit_description_bytes(u) + seq![32u8, 111u8, 102u8, 32u8] + name + seq![32u8]
        + transition_bytes(u, v) + seq![32u8, 40u8] + header + seq![41u8]
}

/// A dependency update commit line:
/// `<type>(*): <description> of <name> <transition> (<header>)`.
pub open spec fn dep_update_bytes(name: Seq<u8>, u: Update, v: Version, header: Seq<u8>) -> Seq<u8> {
    commit_type_bytes(u) + seq![40u8, 42u8, 41u8, 58u8, 32u8] + commit_description_bytes(u)
        + seq![32u8, 111u8, 102u8, 32u8] + name + seq![32u8] + transition_bytes(u, v)
        + seq![32u8, 40u8] + header + seq![41u8]
}

/// The extra message lines, each preceded by a newline.
pub open spec fn extra_block(extra: Seq<Seq<u8>>) -> Seq<u8>
    decreases extra.len(),
{
    if extra.len() == 0 {
        Seq::empty()
    } else {
        seq![10u8] + extra[0] + extra_block(extra.subrange(1, extra.len() as int))
    }
}

/// Appending an extra line appends a newline and its bytes.
pub proof fn lemma_extra_block_push(extra: Seq<Seq<u8>>, x: Seq<u8>)
    ensures
        extra_block(extra.push(x)) == extra_block(extra) + seq![10u8] + x,
    decreases extra.len(),
{
    if extra.len() == 0 {
        assert(extra.push(x).len() == 1);
        assert(extra.push(x)[0] == x);
        let sub = extra.push(x).subrange(1, 1);
        assert(sub.len() == 0);
        assert(extra_block(sub) == Seq::<u8>::empty());
        assert(extra_block(extra) == Seq::<u8>::empty());
        assert(seq![10u8] + x + Seq::<u8>::empty() =~= Seq::<u8>::empty() + seq![10u8] + x);
    } else {
        let rest = extra.subrange(1, extra.len() as int);
        assert(extra.push(x).subrange(1, extra.len() as int + 1) =~= rest.push(x));
        lemma_extra_block_push(rest, x);
        assert(extra_block(extra.push(x)) =~= extra_block(extra) + seq![10u8] + x);
    }
}

/// A whole commit message: the update line, and, when extra lines are
/// given, a blank separator line followed by them.
pub open spec fn message_bytes(line: Seq<u8>, extra: Option<Seq<Seq<u8>>>) -> Seq<u8> {
    match extra {
        None => line,
        Some(ex) => line + seq![10u8] + extra_block(ex),
    }
}

/// The commit type as bytes.
pub fn commit_type_vec(u: &Update) -> (r: Vec<u8>)
    ensures
        r@ == commit_type_bytes(*u),
{
    let r: Vec<u8> = match u {
        Update::Docs => vec![100u8, 111u8, 99u8, 115u8],
        Update::Chore => vec![99u8, 104u8, 111u8, 114u8, 101u8],
        Update::Patch => vec![102u8, 105u8, 120u8],
        Update::Minor => vec![102u8, 101u8, 97u8, 116u8],
        Update::Major => vec![102u8, 101u8, 97u8, 116u8],
    };
    proof {
        assert(r@ =~= commit_type_bytes(*u));
    }
    r
}

/// The commit description as bytes.
pub fn commit_description_vec(u: &Update) -> (r: Vec<u8>)
    ensures
        r@ == commit_description_bytes(*u),
{
    let r: Vec<u8> = match u {
        Update::Docs => vec![100u8, 111u8, 99u8, 115u8, 32u8, 117u8, 112u8, 100u8, 97u8, 116u8, 101u8],
        Update::Chore => vec![99u8, 108u8, 101u8, 97u8, 110u8, 117u8, 112u8],
        Update::Patch => vec![112u8, 97u8, 116u8, 99u8, 104u8],
        Update::Minor => vec![109u8, 105u8, 110u8, 111u8, 114u8, 32u8, 117u8, 112u8, 100u8, 97u8, 116u8, 101u8],
        Update::Major => vec![109u8, 97u8, 106u8, 111u8, 114u8, 32u8, 117u8, 112u8, 100u8, 97u8, 116u8, 101u8],
    };
    proof {
        assert(r@ =~= commit_description_bytes(*u));
    }
    r
}

/// Formats the version transition of an update.
pub fn transition(u: &Update, v: &Version) -> (r: Vec<u8>)
    requires
        u.spec_as_bump() matches Some(b) ==> v.can_bump(b),
    ensures
        r@ == transition_bytes(*u, *v),
{
    let mut out: Vec<u8> = vec![118u8];  // `v`
    let vb = crate::manifest::version_to_bytes(v);
    push_all(&mut out, &vb);
    match u.as_bump() {
        None => {
            proof {
                assert(out@ =~= transition_bytes(*u, *v));
            }
            out
        },
        Some(b) => {
            let arrow: Vec<u8> = vec![32u8, 226u8, 134u8, 146u8, 32u8];  // spaced arrow
            push_all(&mut out, &arrow);
            let nv = crate::bump::BumpExt::bump(v, b);
            let nb = crate::manifest::version_to_bytes(&nv);
            push_all(&mut out, &nb);
            proof {
                assert(arrow@ =~= arrow_sep());
                assert(out@ =~= transition_bytes(*u, *v));
            }
            out
        },
    }
}

/// Builds the single commit line for a package or dependency update.
#[verifier::rlimit(50)]
fn update_line(name: &Vec<u8>, u: &Update, v: &Version, header: &Vec<u8>, is_dep: bool) -> (r:
    Vec<u8>)
    requires
        u.spec_as_bump() matches Some(b) ==> v.can_bump(b),
    ensures
        r@ == if is_dep {
            dep_update_bytes(name@, *u, *v, header@)
        } else {
            pkg_update_bytes(name@, *u, *v, header@)
        },
{
    let mut out = commit_type_vec(u);
    if is_dep {
        let mid: Vec<u8> = vec![40u8, 42u8, 41u8, 58u8, 32u8];  // `(*): `
        push_all(&mut out, &mid);
    } else {
        out.push(40u8);  // `(`
        let dash: Vec<u8> = vec![45u8];  // `-`
        let slash: Vec<u8> = vec![47u8];  // `/`
        proof {
            assert(dash@ =~= seq![45u8]);
            assert(slash@ =~= seq![47u8]);
        }
        let scope = replace_first_bytes(name, &dash, &slash);
        push_all(&mut out, &scope);
        let mid: Vec<u8> = vec![41u8, 58u8, 32u8];  // `): `
        push_all(&mut out, &mid);
    }
    proof {
        if is_dep {
            assert(out@ =~= commit_type_bytes(*u) + seq![40u8, 42u8, 41u8, 58u8, 32u8]);
        } else {
            assert(out@ =~= commit_type_bytes(*u) + seq![40u8] + scope_bytes(name@) + seq![
                41u8,
                58u8,
                32u8,
            ]);
        }
    }
    let ghost head = out@;
    let desc = commit_description_vec(u);
    push_all(&mut out, &desc);
    let of: Vec<u8> = vec![32u8, 111u8, 102u8, 32u8];  // ` of `
    push_all(&mut out, &of);
    push_all(&mut out, name);
    out.push(32u8);
    proof {
        assert(out@ =~= head + commit_description_bytes(*u) + seq![32u8, 111u8, 102u8, 32u8]
            + name@ + seq![32u8]);
    }
    let ghost mid2 = out@;
    let tr = transition(u, v);
    push_all(&mut out, &tr);
    let op: Vec<u8> = vec![32u8, 40u8];  // ` (`
    push_all(&mut out, &op);
    push_all(&mut out, header);
    out.push(41u8);  // `)`
    proof {
        assert(out@ =~= mid2 + transition_bytes(*u, *v) + seq![32u8, 40u8] + header@ + seq![
            41u8,
        ]);
        if is_dep {
            assert(out@ =~= dep_update_bytes(name@, *u, *v, header@));
        } else {
            assert(out@ =~= pkg_update_bytes(name@, *u, *v, header@));
        }
    }
    out
}

/// Creates a commit message: the update line for the package (or, for a
/// dependency commit, the starred scope), followed by the optional
/// extra lines behind a blank separator.
pub fn message(
    name: &Vec<u8>,
    u: &Update,
    v: &Version,
    header: &Vec<u8>,
    extra: Option<&Vec<Vec<u8>>>,
    is_dep: bool,
) -> (r: Vec<u8>)
    requires
        u.spec_as_bump() matches Some(b) ==> v.can_bump(b),
    ensures
        r@ == message_bytes(
            if is_dep {
                dep_update_bytes(name@, *u, *v, header@)
            } else {
                pkg_update_bytes(name@, *u, *v, header@)
            },
            match extra {
                Some(ex) => Some(lines_view(ex@)),
                None => None,
            },
        ),
{
    let mut out = update_line(name, u, v, header, is_dep);
    let ghost line = out@;
    match extra {
        None => out,
        Some(ex) => {
            out.push(10u8);
            let mut i: usize = 0;
            while i < ex.len()
                invariant
                    i <= ex@.len(),
                    out@ == line + seq![10u8] + extra_block(lines_view(ex@).subrange(0, i as int)),
                decreases ex@.len() - i,
            {
                out.push(10u8);
                push_all(&mut out, &ex[i]);
                proof {
                    lemma_extra_block_push(
                        lines_view(ex@).subrange(0, i as int),
                        ex@[i as int]@,
                    );
                    assert(lines_view(ex@).subrange(0, i as int).push(ex@[i as int]@)
                        =~= lines_view(ex@).subrange(0, i + 1));
                    assert(out@ =~= line + seq![10u8] + extra_block(
                        lines_view(ex@).subrange(0, i + 1),
                    ));
                }
                i += 1;
            }
            proof {
                assert(lines_view(ex@).subrange(0, ex@.len() as int) =~= lines_view(ex@));
            }
            out
        },
    }
}

} // verus!
