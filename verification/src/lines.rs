//! Generic line-level rewriting of a document held as lines of bytes.
//!
//! Every operation rewrites only the lines matching a precise key and
//! leaves all other lines byte-identical; each is specified exactly by a
//! spec-level transform of the document.

use vstd::prelude::*;

use crate::text::{
    bytes_eq, is_prefix_of, replace_all, replace_all_bytes, starts_with,
};

verus! {

/// The byte sequences of a document's lines.
pub open spec fn lines_view(lines: Seq<Vec<u8>>) -> Seq<Seq<u8>> {
    Seq::new(lines.len(), |i: int| lines[i]@)
}

/// Index of the first line equal to `tgt`, or `lines.len()` if none is.
pub open spec fn first_equal_index(lines: Seq<Seq<u8>>, tgt: Seq<u8>) -> int
    decreases lines.len(),
{
    if lines.len() == 0 {
        0
    } else if lines[0] == tgt {
        0
    } else {
        1 + first_equal_index(lines.subrange(1, lines.len() as int), tgt)
    }
}

/// Index of the first line starting with `key`, or `lines.len()`.
pub open spec fn first_prefix_index(lines: Seq<Seq<u8>>, key: Seq<u8>) -> int
    decreases lines.len(),
{
    if lines.len() == 0 {
        0
    } else if is_prefix_of(key, lines[0]) {
        0
    } else {
        1 + first_prefix_index(lines.subrange(1, lines.len() as int), key)
    }
}

/// If no line before `i` equals `tgt` and line `i` does (or `i` is one
/// past the end), then `i` is the first equal index.
pub proof fn lemma_first_equal_index(lines: Seq<Seq<u8>>, tgt: Seq<u8>, i: int)
    requires
        0 <= i <= lines.len(),
        forall|j: int| 0 <= j < i ==> lines[j] != tgt,
        i < lines.len() ==> lines[i] == tgt,
    ensures
        first_equal_index(lines, tgt) == i,
    decreases i,
{
    if lines.len() == 0 {
    } else if i == 0 {
    } else {
        let rest = lines.subrange(1, lines.len() as int);
        assert forall|j: int| 0 <= j < i - 1 implies rest[j] != tgt by {
            assert(rest[j] == lines[j + 1]);
        }
        lemma_first_equal_index(rest, tgt, i - 1);
    }
}

/// The analogue of `lemma_first_equal_index` for the prefix test.
pub proof fn lemma_first_prefix_index(lines: Seq<Seq<u8>>, key: Seq<u8>, i: int)
    requires
        0 <= i <= lines.len(),
        forall|j: int| 0 <= j < i ==> !is_prefix_of(key, lines[j]),
        i < lines.len() ==> is_prefix_of(key, lines[i]),
    ensures
        first_prefix_index(lines, key) == i,
    decreases i,
{
    if lines.len() == 0 {
    } else if i == 0 {
    } else {
        let rest = lines.subrange(1, lines.len() as int);
        assert forall|j: int| 0 <= j < i - 1 implies !is_prefix_of(key, rest[j]) by {
            assert(rest[j] == lines[j + 1]);
        }
        lemma_first_prefix_index(rest, key, i - 1);
    }
}

/// Every line starting with `key` rewritten by replacing each occurrence
/// of `from` with `to`; all other lines unchanged.
pub open spec fn rewrite_matching_lines(
    lines: Seq<Seq<u8>>,
    key: Seq<u8>,
    from: Seq<u8>,
    to: Seq<u8>,
) -> Seq<Seq<u8>> {
    Seq::new(
        lines.len(),
        |i: int|
            if is_prefix_of(key, lines[i]) {
                replace_all(lines[i], from, to)
            } else {
                lines[i]
            },
    )
}

/// Every line starting with `key` replaced whole by `newl`; all other
/// lines unchanged.
pub open spec fn set_matching_lines(lines: Seq<Seq<u8>>, key: Seq<u8>, newl: Seq<u8>) -> Seq<
    Seq<u8>,
> {
    Seq::new(
        lines.len(),
        |i: int|
            if is_prefix_of(key, lines[i]) {
                newl
            } else {
                lines[i]
            },
    )
}

/// The first line equal to `oldl` replaced by `newl`; every other line,
/// and the whole document when no line matches, unchanged.
pub open spec fn replace_first_equal(lines: Seq<Seq<u8>>, oldl: Seq<u8>, newl: Seq<u8>) -> Seq<
    Seq<u8>,
> {
    let i = first_equal_index(lines, oldl);
    if i < lines.len() {
        lines.update(i, newl)
    } else {
        lines
    }
}

/// The first line starting with `key` replaced by `newl`, or `newl`
/// appended when no line matches: first match wins, append if absent.
pub open spec fn set_or_insert_line(lines: Seq<Seq<u8>>, key: Seq<u8>, newl: Seq<u8>) -> Seq<
    Seq<u8>,
> {
    let i = first_prefix_index(lines, key);
    if i < lines.len() {
        lines.update(i, newl)
    } else {
        lines.push(newl)
    }
}

/// Law: a rewrite keyed on a pattern that occurs at the start of no line
/// leaves the document unchanged, whatever it would have substituted.
pub proof fn lemma_rewrite_absent_key_unchanged(
    lines: Seq<Seq<u8>>,
    key: Seq<u8>,
    from: Seq<u8>,
    to: Seq<u8>,
)
    requires
        forall|i: int| 0 <= i < lines.len() ==> !is_prefix_of(key, #[trigger] lines[i]),
    ensures
        rewrite_matching_lines(lines, key, from, to) == lines,
{
    assert(rewrite_matching_lines(lines, key, from, to) =~= lines);
}

/// Law: replacing whole lines keyed on a pattern that occurs at the
/// start of no line leaves the document unchanged, whatever the
/// replacement line.
pub proof fn lemma_set_absent_key_unchanged(lines: Seq<Seq<u8>>, key: Seq<u8>, newl: Seq<u8>)
    requires
        forall|i: int| 0 <= i < lines.len() ==> !is_prefix_of(key, #[trigger] lines[i]),
    ensures
        set_matching_lines(lines, key, newl) == lines,
{
    assert(set_matching_lines(lines, key, newl) =~= lines);
}

/// Law: replacing whole matching lines is idempotent: a second
/// application of the same operation changes nothing more.
pub proof fn lemma_set_matching_idempotent(lines: Seq<Seq<u8>>, key: Seq<u8>, newl: Seq<u8>)
    ensures
        set_matching_lines(set_matching_lines(lines, key, newl), key, newl)
            == set_matching_lines(lines, key, newl),
{
    assert(set_matching_lines(set_matching_lines(lines, key, newl), key, newl)
        =~= set_matching_lines(lines, key, newl));
}

/// The document rendered as bytes: each line followed by a newline.
pub open spec fn joined_lines(lines: Seq<Seq<u8>>) -> Seq<u8>
    decreases lines.len(),
{
    if lines.len() == 0 {
        Seq::empty()
    } else {
        lines[0] + seq![10u8] + joined_lines(lines.subrange(1, lines.len() as int))
    }
}

/// Appending a line appends its bytes and a newline to the rendering.
pub proof fn lemma_joined_lines_push(lines: Seq<Seq<u8>>, x: Seq<u8>)
    ensures
        joined_lines(lines.push(x)) == joined_lines(lines) + x + seq![10u8],
    decreases lines.len(),
{
    if lines.len() == 0 {
        assert(lines.push(x).len() == 1);
        assert(lines.push(x)[0] == x);
        let sub = lines.push(x).subrange(1, 1);
        assert(sub.len() == 0);
        assert(joined_lines(sub) == Seq::<u8>::empty());
        assert(joined_lines(lines.push(x)) == x + seq![10u8] + Seq::<u8>::empty());
        assert(joined_lines(lines) == Seq::<u8>::empty());
        assert(x + seq![10u8] + Seq::<u8>::empty() =~= Seq::<u8>::empty() + x + seq![10u8]);
    } else {
        let rest = lines.subrange(1, lines.len() as int);
        assert(lines.push(x).subrange(1, lines.len() as int + 1) =~= rest.push(x));
        lemma_joined_lines_push(rest, x);
        assert(joined_lines(lines.push(x)) =~= joined_lines(lines) + x + seq![10u8]);
    }
}

/// Renders the document: each line followed by a newline.
pub fn content_bytes(lines: &Vec<Vec<u8>>) -> (r: Vec<u8>)
    ensures
        r@ == joined_lines(lines_view(lines@)),
{
    let mut out: Vec<u8> = Vec::new();
    let mut i: usize = 0;
    while i < lines.len()
        invariant
            i <= lines@.len(),
            out@ == joined_lines(lines_view(lines@).subrange(0, i as int)),
        decreases lines@.len() - i,
    {
        let ghost prev = out@;
        crate::text::push_all(&mut out, &lines[i]);
        out.push(10u8);
        proof {
            lemma_joined_lines_push(
                lines_view(lines@).subrange(0, i as int),
                lines@[i as int]@,
            );
            assert(lines_view(lines@).subrange(0, i as int).push(lines@[i as int]@)
                =~= lines_view(lines@).subrange(0, i + 1));
            assert(out@ =~= joined_lines(lines_view(lines@).subrange(0, i + 1)));
        }
        i += 1;
    }
    proof {
        assert(lines_view(lines@).subrange(0, lines@.len() as int) =~= lines_view(lines@));
    }
    out
}

/// A copy of a document's lines, byte-identical.
pub fn copy_lines(lines: &Vec<Vec<u8>>) -> (r: Vec<Vec<u8>>)
    ensures
        lines_view(r@) == lines_view(lines@),
{
    let mut out: Vec<Vec<u8>> = Vec::new();
    let mut i: usize = 0;
    while i < lines.len()
        invariant
            i <= lines@.len(),
            out@.len() == i,
            forall|j: int| 0 <= j < i ==> #[trigger] out@[j]@ == lines@[j]@,
        decreases lines@.len() - i,
    {
        let l = copy_bytes(&lines[i]);
        out.push(l);
        i += 1;
    }
    proof {
        assert(lines_view(out@) =~= lines_view(lines@));
    }
    out
}

/// A copy of a byte vector.
pub fn copy_bytes(v: &Vec<u8>) -> (r: Vec<u8>)
    ensures
        r@ == v@,
{
    let mut out: Vec<u8> = Vec::new();
    crate::text::push_all(&mut out, v);
    proof {
        assert(Seq::<u8>::empty() + v@ =~= v@);
    }
    out
}

/// Rewrites, in place, each line starting with `key` by replacing every
/// occurrence of `from` with `to`.
pub fn rewrite_matching(lines: &mut Vec<Vec<u8>>, key: &Vec<u8>, from: &Vec<u8>, to: &Vec<u8>)
    requires
        from@.len() > 0,
    ensures
        lines_view(final(lines)@) == rewrite_matching_lines(
            lines_view(old(lines)@),
            key@,
            from@,
            to@,
        ),
{
    let ghost target = rewrite_matching_lines(lines_view(old(lines)@), key@, from@, to@);
    let mut i: usize = 0;
    while i < lines.len()
        invariant
            i <= lines@.len(),
            from@.len() > 0,
            lines@.len() == old(lines)@.len(),
            target == rewrite_matching_lines(lines_view(old(lines)@), key@, from@, to@),
            forall|j: int| 0 <= j < i ==> #[trigger] lines@[j]@ == target[j],
            forall|j: int| i <= j < lines@.len() ==> lines@[j] == old(lines)@[j],
        decreases lines@.len() - i,
    {
        if starts_with(&lines[i], key) {
            let nl = replace_all_bytes(&lines[i], from, to);
            lines[i] = nl;
        }
        i += 1;
    }
    proof {
        assert(lines_view(lines@) =~= target);
    }
}

/// Replaces, in place, each line starting with `key` by `newl`.
pub fn set_matching(lines: &mut Vec<Vec<u8>>, key: &Vec<u8>, newl: &Vec<u8>)
    ensures
        lines_view(final(lines)@) == set_matching_lines(lines_view(old(lines)@), key@, newl@),
{
    let ghost target = set_matching_lines(lines_view(old(lines)@), key@, newl@);
    let mut i: usize = 0;
    while i < lines.len()
        invariant
            i <= lines@.len(),
            lines@.len() == old(lines)@.len(),
            target == set_matching_lines(lines_view(old(lines)@), key@, newl@),
            forall|j: int| 0 <= j < i ==> #[trigger] lines@[j]@ == target[j],
            forall|j: int| i <= j < lines@.len() ==> lines@[j] == old(lines)@[j],
        decreases lines@.len() - i,
    {
        if starts_with(&lines[i], key) {
            let nl = copy_bytes(newl);
            lines[i] = nl;
        }
        i += 1;
    }
    proof {
        assert(lines_view(lines@) =~= target);
    }
}

/// Replaces, in place, the first line equal to `oldl` by `newl`; a
/// document without such a line is left untouched.
pub fn change_first_line(lines: &mut Vec<Vec<u8>>, oldl: &Vec<u8>, newl: Vec<u8>)
    ensures
        lines_view(final(lines)@) == replace_first_equal(lines_view(old(lines)@), oldl@, newl@),
{
    let mut i: usize = 0;
    while i < lines.len()
        invariant
            i <= lines@.len(),
            lines@ == old(lines)@,
            forall|j: int| 0 <= j < i ==> #[trigger] lines@[j]@ != oldl@,
        decreases lines@.len() - i,
    {
        if bytes_eq(&lines[i], oldl) {
            proof {
                lemma_first_equal_index(lines_view(lines@), oldl@, i as int);
            }
            lines[i] = newl;
            proof {
                assert(lines_view(lines@) =~= lines_view(old(lines)@).update(i as int, newl@));
            }
            return;
        }
        i += 1;
    }
    proof {
        lemma_first_equal_index(lines_view(lines@), oldl@, lines@.len() as int);
    }
}

/// Replaces, in place, the first line starting with `key` by `newl`, or
/// appends `newl` when no line matches.
pub fn set_or_insert(lines: &mut Vec<Vec<u8>>, key: &Vec<u8>, newl: Vec<u8>)
    ensures
        lines_view(final(lines)@) == set_or_insert_line(lines_view(old(lines)@), key@, newl@),
{
    let mut i: usize = 0;
    while i < lines.len()
        invariant
            i <= lines@.len(),
            lines@ == old(lines)@,
            forall|j: int| 0 <= j < i ==> !is_prefix_of(key@, #[trigger] lines@[j]@),
        decreases lines@.len() - i,
    {
        if starts_with(&lines[i], key) {
            proof {
                lemma_first_prefix_index(lines_view(lines@), key@, i as int);
            }
            lines[i] = newl;
            proof {
                assert(lines_view(lines@) =~= lines_view(old(lines)@).update(i as int, newl@));
            }
            return;
        }
        i += 1;
    }
    proof {
        lemma_first_prefix_index(lines_view(lines@), key@, lines@.len() as int);
    }
    lines.push(newl);
    proof {
        assert(lines_view(lines@) =~= lines_view(old(lines)@).push(newl@));
    }
}


/// Index of the first newline in `s`, or `s.len()` if there is none.
pub open spec fn first_newline(s: Seq<u8>) -> nat
    decreases s.len(),
{
    if s.len() == 0 {
        0
    } else if s[0] == 10 {
        0
    } else {
        1 + first_newline(s.subrange(1, s.len() as int))
    }
}

/// If nothing before `i` is a newline and `i` is one (or one past the
/// end), then `i` is the first newline index.
pub proof fn lemma_first_newline_at(s: Seq<u8>, i: nat)
    requires
        i <= s.len(),
        forall|t: int| 0 <= t < i ==> s[t] != 10,
        i < s.len() ==> s[i as int] == 10,
    ensures
        first_newline(s) == i,
    decreases i,
{
    if s.len() == 0 {
    } else if i == 0 {
    } else {
        let rest = s.subrange(1, s.len() as int);
        assert forall|t: int| 0 <= t < i - 1 implies rest[t] != 10 by {
            assert(rest[t] == s[t + 1]);
        }
        lemma_first_newline_at(rest, (i - 1) as nat);
    }
}

/// A line with a trailing carriage return stripped.
pub open spec fn strip_cr(l: Seq<u8>) -> Seq<u8> {
    if l.len() > 0 && l.last() == 13 {
        l.drop_last()
    } else {
        l
    }
}

/// The lines of a byte string: split on newlines, each line stripped
/// of a trailing carriage return; a final segment without a newline is
/// a line of its own, and a trailing newline adds no empty last line.
pub open spec fn split_lines_spec(s: Seq<u8>) -> Seq<Seq<u8>>
    decreases s.len(),
{
    if s.len() == 0 {
        Seq::empty()
    } else {
        let i = first_newline(s);
        if i < s.len() {
            seq![strip_cr(s.subrange(0, i as int))] + split_lines_spec(
                s.subrange(i as int + 1, s.len() as int),
            )
        } else {
            seq![strip_cr(s)]
        }
    }
}

/// Splits file content into the document's lines: the inverse of
/// `content_bytes` on documents whose lines hold no newline and do not
/// end in a carriage return.
pub fn split_lines(content: &Vec<u8>) -> (r: Vec<Vec<u8>>)
    ensures
        lines_view(r@) == split_lines_spec(content@),
{
    let mut out: Vec<Vec<u8>> = Vec::new();
    let mut pos: usize = 0;
    proof {
        assert(content@.subrange(0, content@.len() as int) =~= content@);
        assert(lines_view(out@) =~= Seq::<Seq<u8>>::empty());
        assert(Seq::<Seq<u8>>::empty() + split_lines_spec(content@) =~= split_lines_spec(
            content@,
        ));
    }
    while pos < content.len()
        invariant
            pos <= content@.len(),
            split_lines_spec(content@) == lines_view(out@) + split_lines_spec(
                content@.subrange(pos as int, content@.len() as int),
            ),
        decreases content@.len() - pos,
    {
        let ghost rem = content@.subrange(pos as int, content@.len() as int);
        let mut j: usize = pos;
        while j < content.len() && content[j] != 10
            invariant
                pos <= j <= content@.len(),
                forall|t: int| pos <= t < j ==> content@[t] != 10,
            decreases content@.len() - j,
        {
            j += 1;
        }
        proof {
            assert forall|t: int| 0 <= t < j - pos implies rem[t] != 10 by {
                assert(rem[t] == content@[pos + t]);
            }
            if j < content@.len() {
                assert(rem[j - pos] == content@[j as int]);
            }
            lemma_first_newline_at(rem, (j - pos) as nat);
        }
        let mut line: Vec<u8> = Vec::new();
        let mut t: usize = pos;
        while t < j
            invariant
                pos <= t <= j <= content@.len(),
                line@ =~= content@.subrange(pos as int, t as int),
            decreases j - t,
        {
            line.push(content[t]);
            proof {
                assert(content@.subrange(pos as int, t as int).push(content@[t as int])
                    =~= content@.subrange(pos as int, t + 1));
            }
            t += 1;
        }
        if line.len() > 0 && line[line.len() - 1] == 13 {
            line.pop();
        }
        let ghost lv = line@;
        let ghost prev = lines_view(out@);
        out.push(line);
        proof {
            assert(lines_view(out@) =~= prev.push(lv));
        }
        if j < content.len() {
            proof {
                assert(rem.subrange(0, (j - pos) as int) =~= content@.subrange(
                    pos as int,
                    j as int,
                ));
                assert(lv =~= strip_cr(rem.subrange(0, (j - pos) as int)));
                assert(rem.subrange(j - pos + 1, rem.len() as int) =~= content@.subrange(
                    j + 1,
                    content@.len() as int,
                ));
                assert(split_lines_spec(rem) == seq![strip_cr(rem.subrange(0, (j - pos) as int))]
                    + split_lines_spec(content@.subrange(j + 1, content@.len() as int)));
                assert(lines_view(out@) + split_lines_spec(
                    content@.subrange(j + 1, content@.len() as int),
                ) =~= prev + split_lines_spec(rem));
            }
            pos = j + 1;
        } else {
            proof {
                assert(rem =~= content@.subrange(pos as int, j as int));
                assert(lv =~= strip_cr(rem));
                assert(split_lines_spec(rem) == seq![strip_cr(rem)]);
                assert(content@.subrange(j as int, content@.len() as int).len() == 0);
                assert(split_lines_spec(content@.subrange(j as int, content@.len() as int))
                    =~= Seq::<Seq<u8>>::empty());
                assert(lines_view(out@) + Seq::<Seq<u8>>::empty() =~= prev + split_lines_spec(
                    rem,
                ));
            }
            pos = j;
        }
    }
    proof {
        assert(content@.subrange(pos as int, content@.len() as int).len() == 0);
        assert(split_lines_spec(content@.subrange(pos as int, content@.len() as int))
            =~= Seq::<Seq<u8>>::empty());
        assert(lines_view(out@) + Seq::<Seq<u8>>::empty() =~= lines_view(out@));
    }
    out
}

/// Law: rendering a document and splitting it back yields the same
/// lines, for documents whose lines hold no newline and do not end in
/// a carriage return.
pub proof fn lemma_split_joined_roundtrip(lines: Seq<Seq<u8>>)
    requires
        forall|i: int, k: int|
            0 <= i < lines.len() && 0 <= k < lines[i].len() ==> (#[trigger] lines[i][k]) != 10,
        forall|i: int| 0 <= i < lines.len() && lines[i].len() > 0 ==> (#[trigger] lines[i]).last()
            != 13,
    ensures
        split_lines_spec(joined_lines(lines)) == lines,
    decreases lines.len(),
{
    if lines.len() == 0 {
        assert(joined_lines(lines).len() == 0);
        assert(split_lines_spec(joined_lines(lines)) =~= lines);
    } else {
        let l0 = lines[0];
        let rest = lines.subrange(1, lines.len() as int);
        let s = joined_lines(lines);
        assert(s == l0 + seq![10u8] + joined_lines(rest));
        assert forall|t: int| 0 <= t < l0.len() implies s[t] != 10 by {
            assert(s[t] == l0[t]);
            assert(lines[0][t] != 10);
        }
        assert(s[l0.len() as int] == 10);
        lemma_first_newline_at(s, l0.len());
        assert(first_newline(s) < s.len());
        assert(s.subrange(0, l0.len() as int) =~= l0);
        assert(strip_cr(l0) == l0);
        assert(s.subrange(l0.len() as int + 1, s.len() as int) =~= joined_lines(rest));
        assert forall|i: int, k: int|
            0 <= i < rest.len() && 0 <= k < rest[i].len() implies (#[trigger] rest[i][k])
            != 10 by {
            assert(rest[i] == lines[i + 1]);
        }
        assert forall|i: int|
            0 <= i < rest.len() && rest[i].len() > 0 implies (#[trigger] rest[i]).last() != 13 by {
            assert(rest[i] == lines[i + 1]);
        }
        lemma_split_joined_roundtrip(rest);
        assert(split_lines_spec(s) == seq![strip_cr(s.subrange(0, l0.len() as int))]
            + split_lines_spec(s.subrange(l0.len() as int + 1, s.len() as int)));
        assert(split_lines_spec(s) =~= lines);
    }
}

} // verus!
