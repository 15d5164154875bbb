//! Byte-string helpers for the line-based manifest mutation engine.
//!
//! Manifest documents are kept as lines of bytes; every rewrite below is
//! specified exactly over the byte sequences, so that untouched text is
//! provably byte-identical.

use vstd::prelude::*;

verus! {

/// `p` is a prefix of `s`.
pub open spec fn is_prefix_of(p: Seq<u8>, s: Seq<u8>) -> bool {
    p.len() <= s.len() && s.subrange(0, p.len() as int) == p
}

/// `s` with every occurrence of the non-empty pattern `p` replaced by `q`,
/// scanning left to right and never rescanning replaced text.
pub open spec fn replace_all(s: Seq<u8>, p: Seq<u8>, q: Seq<u8>) -> Seq<u8>
    decreases s.len(),
{
    if p.len() == 0 || s.len() < p.len() {
        s
    } else if s.subrange(0, p.len() as int) == p {
        q + replace_all(s.subrange(p.len() as int, s.len() as int), p, q)
    } else {
        seq![s[0]] + replace_all(s.subrange(1, s.len() as int), p, q)
    }
}

/// Byte-wise equality of two byte vectors.
pub fn bytes_eq(a: &Vec<u8>, b: &Vec<u8>) -> (r: bool)
    ensures
        r == (a@ == b@),
{
    if a.len() != b.len() {
        return false;
    }
    let mut i: usize = 0;
    while i < a.len()
        invariant
            i <= a.len(),
            a.len() == b.len(),
            forall|j: int| 0 <= j < i ==> a@[j] == b@[j],
        decreases a.len() - i,
    {
        if a[i] != b[i] {
            return false;
        }
        i += 1;
    }
    proof {
        assert(a@ =~= b@);
    }
    true
}

/// Whether `p` is a prefix of `s`.
pub fn starts_with(s: &Vec<u8>, p: &Vec<u8>) -> (r: bool)
    ensures
        r == is_prefix_of(p@, s@),
{
    if p.len() > s.len() {
        return false;
    }
    let mut i: usize = 0;
    while i < p.len()
        invariant
            i <= p.len() <= s.len(),
            forall|j: int| 0 <= j < i ==> s@[j] == p@[j],
        decreases p.len() - i,
    {
        if s[i] != p[i] {
            proof {
                assert(!is_prefix_of(p@, s@)) by {
                    if is_prefix_of(p@, s@) {
                        assert(s@.subrange(0, p@.len() as int)[i as int] == p@[i as int]);
                    }
                }
            }
            return false;
        }
        i += 1;
    }
    proof {
        assert(s@.subrange(0, p@.len() as int) =~= p@);
    }
    true
}

/// Whether the pattern `p` occurs in `s` at position `i`.
pub fn matches_at(s: &Vec<u8>, p: &Vec<u8>, i: usize) -> (r: bool)
    requires
        i <= s@.len(),
    ensures
        r == (i + p@.len() <= s@.len() && s@.subrange(i as int, i + p@.len()) == p@),
{
    if p.len() > s.len() - i {
        return false;
    }
    let mut j: usize = 0;
    while j < p.len()
        invariant
            j <= p.len(),
            i + p.len() <= s.len(),
            forall|k: int| 0 <= k < j ==> s@[i + k] == p@[k],
        decreases p.len() - j,
    {
        if s[i + j] != p[j] {
            proof {
                assert(s@.subrange(i as int, i + p@.len()) != p@) by {
                    if s@.subrange(i as int, i + p@.len()) == p@ {
                        assert(s@.subrange(i as int, i + p@.len())[j as int] == p@[j as int]);
                    }
                }
            }
            return false;
        }
        j += 1;
    }
    proof {
        assert(s@.subrange(i as int, i + p@.len()) =~= p@);
    }
    true
}

/// Appends all of `add` to `out`.
pub fn push_all(out: &mut Vec<u8>, add: &Vec<u8>)
    ensures
        final(out)@ == old(out)@ + add@,
{
    let mut i: usize = 0;
    while i < add.len()
        invariant
            i <= add.len(),
            out@ == old(out)@ + add@.subrange(0, i as int),
        decreases add.len() - i,
    {
        out.push(add[i]);
        proof {
            assert(old(out)@ + add@.subrange(0, i as int) + seq![add@[i as int]]
                =~= old(out)@ + add@.subrange(0, i + 1));
        }
        i += 1;
    }
    proof {
        assert(add@.subrange(0, add@.len() as int) =~= add@);
    }
}

/// `s` with every occurrence of the non-empty pattern `p` replaced by `q`.
pub fn replace_all_bytes(s: &Vec<u8>, p: &Vec<u8>, q: &Vec<u8>) -> (r: Vec<u8>)
    requires
        p@.len() > 0,
    ensures
        r@ == replace_all(s@, p@, q@),
{
    let mut out: Vec<u8> = Vec::new();
    let mut i: usize = 0;
    proof {
        assert(s@.subrange(0, s@.len() as int) =~= s@);
        assert(Seq::<u8>::empty() + replace_all(s@, p@, q@) =~= replace_all(s@, p@, q@));
    }
    while i < s.len()
        invariant
            i <= s.len(),
            p@.len() > 0,
            replace_all(s@, p@, q@) == out@ + replace_all(
                s@.subrange(i as int, s@.len() as int),
                p@,
                q@,
            ),
        decreases s.len() - i,
    {
        let ghost rem = s@.subrange(i as int, s@.len() as int);
        if matches_at(s, p, i) {
            proof {
                assert(rem.subrange(0, p@.len() as int) =~= s@.subrange(i as int, i + p@.len()));
                assert(replace_all(rem, p@, q@) == q@ + replace_all(
                    rem.subrange(p@.len() as int, rem.len() as int),
                    p@,
                    q@,
                ));
                assert(rem.subrange(p@.len() as int, rem.len() as int)
                    =~= s@.subrange(i + p@.len(), s@.len() as int));
            }
            push_all(&mut out, q);
            i += p.len();
        } else {
            proof {
                if rem.len() >= p@.len() {
                    assert(rem.subrange(0, p@.len() as int) =~= s@.subrange(
                        i as int,
                        i + p@.len(),
                    ));
                    assert(replace_all(rem, p@, q@) == seq![rem[0]] + replace_all(
                        rem.subrange(1, rem.len() as int),
                        p@,
                        q@,
                    ));
                } else {
                    assert(replace_all(rem, p@, q@) == rem);
                    assert(rem.subrange(1, rem.len() as int) == replace_all(
                        rem.subrange(1, rem.len() as int),
                        p@,
                        q@,
                    ));
                    assert(rem =~= seq![rem[0]] + rem.subrange(1, rem.len() as int));
                }
                assert(rem.subrange(1, rem.len() as int)
                    =~= s@.subrange(i + 1, s@.len() as int));
                assert(out@ + replace_all(rem, p@, q@) =~= (out@ + seq![s@[i as int]])
                    + replace_all(s@.subrange(i + 1, s@.len() as int), p@, q@));
            }
            let c = s[i];
            out.push(c);
            i += 1;
        }
    }
    proof {
        assert(s@.subrange(i as int, s@.len() as int) =~= Seq::<u8>::empty());
        assert(replace_all(Seq::<u8>::empty(), p@, q@) == Seq::<u8>::empty());
        assert(out@ + Seq::<u8>::empty() =~= out@);
    }
    out
}

/// The pattern `p` occurs somewhere in `s`.
pub open spec fn contains_bytes(s: Seq<u8>, p: Seq<u8>) -> bool {
    exists|k: int| 0 <= k && k + p.len() <= s.len() && #[trigger] s.subrange(k, k + p.len()) == p
}

/// Whether the pattern `p` occurs somewhere in `s`.
pub fn find_bytes(s: &Vec<u8>, p: &Vec<u8>) -> (r: bool)
    ensures
        r == contains_bytes(s@, p@),
{
    if p.len() == 0 {
        proof {
            assert(s@.subrange(0, 0 + p@.len() as int) =~= p@);
            assert(contains_bytes(s@, p@));
        }
        return true;
    }
    if p.len() > s.len() {
        proof {
            assert(!contains_bytes(s@, p@)) by {
                if contains_bytes(s@, p@) {
                    let k = choose|k: int|
                        0 <= k && k + p@.len() <= s@.len() && #[trigger] s@.subrange(
                            k,
                            k + p@.len(),
                        ) == p@;
                }
            }
        }
        return false;
    }
    let limit = s.len() - p.len();
    let mut k: usize = 0;
    while k < limit + 1
        invariant
            1 <= p@.len() <= s@.len(),
            limit == s@.len() - p@.len(),
            limit < usize::MAX,
            k <= limit + 1,
            forall|t: int| 0 <= t < k ==> #[trigger] s@.subrange(t, t + p@.len()) != p@,
        decreases limit + 1 - k,
    {
        if matches_at(s, p, k) {
            proof {
                assert(contains_bytes(s@, p@)) by {
                    assert(s@.subrange(k as int, k + p@.len()) == p@);
                }
            }
            return true;
        }
        k += 1;
    }
    proof {
        assert(!contains_bytes(s@, p@)) by {
            if contains_bytes(s@, p@) {
                let t = choose|t: int|
                    0 <= t && t + p@.len() <= s@.len() && #[trigger] s@.subrange(
                        t,
                        t + p@.len(),
                    ) == p@;
                assert(t < k);
            }
        }
    }
    false
}

/// `s` with the first occurrence of the non-empty pattern `p`, if any,
/// replaced by `q`.
pub open spec fn replace_first(s: Seq<u8>, p: Seq<u8>, q: Seq<u8>) -> Seq<u8>
    decreases s.len(),
{
    if p.len() == 0 || s.len() < p.len() {
        s
    } else if s.subrange(0, p.len() as int) == p {
        q + s.subrange(p.len() as int, s.len() as int)
    } else {
        seq![s[0]] + replace_first(s.subrange(1, s.len() as int), p, q)
    }
}

/// `s` with the first occurrence of the non-empty pattern `p` replaced
/// by `q`.
pub fn replace_first_bytes(s: &Vec<u8>, p: &Vec<u8>, q: &Vec<u8>) -> (r: Vec<u8>)
    requires
        p@.len() > 0,
    ensures
        r@ == replace_first(s@, p@, q@),
{
    let mut out: Vec<u8> = Vec::new();
    let mut i: usize = 0;
    proof {
        assert(s@.subrange(0, s@.len() as int) =~= s@);
        assert(Seq::<u8>::empty() + replace_first(s@, p@, q@) =~= replace_first(s@, p@, q@));
    }
    while i < s.len()
        invariant
            i <= s.len(),
            p@.len() > 0,
            replace_first(s@, p@, q@) == out@ + replace_first(
                s@.subrange(i as int, s@.len() as int),
                p@,
                q@,
            ),
        decreases s.len() - i,
    {
        let ghost rem = s@.subrange(i as int, s@.len() as int);
        if matches_at(s, p, i) {
            proof {
                assert(rem.subrange(0, p@.len() as int) =~= s@.subrange(i as int, i + p@.len()));
                assert(replace_first(rem, p@, q@) == q@ + rem.subrange(
                    p@.len() as int,
                    rem.len() as int,
                ));
                assert(rem.subrange(p@.len() as int, rem.len() as int)
                    =~= s@.subrange(i + p@.len(), s@.len() as int));
            }
            push_all(&mut out, q);
            let mut j: usize = i + p.len();
            while j < s.len()
                invariant
                    j <= s@.len(),
                    replace_first(s@, p@, q@) == out@ + s@.subrange(j as int, s@.len() as int),
                decreases s.len() - j,
            {
                let ghost out_pre = out@;
                out.push(s[j]);
                proof {
                    assert(out@ + s@.subrange(j + 1, s@.len() as int)
                        =~= out_pre + s@.subrange(j as int, s@.len() as int));
                }
                j += 1;
            }
            proof {
                assert(s@.subrange(s@.len() as int, s@.len() as int) =~= Seq::<u8>::empty());
                assert(out@ + Seq::<u8>::empty() =~= out@);
            }
            return out;
        } else {
            proof {
                if rem.len() >= p@.len() {
                    assert(rem.subrange(0, p@.len() as int) =~= s@.subrange(
                        i as int,
                        i + p@.len(),
                    ));
                    assert(replace_first(rem, p@, q@) == seq![rem[0]] + replace_first(
                        rem.subrange(1, rem.len() as int),
                        p@,
                        q@,
                    ));
                } else {
                    assert(replace_first(rem, p@, q@) == rem);
                    assert(rem.subrange(1, rem.len() as int) == replace_first(
                        rem.subrange(1, rem.len() as int),
                        p@,
                        q@,
                    ));
                    assert(rem =~= seq![rem[0]] + rem.subrange(1, rem.len() as int));
                }
                assert(rem.subrange(1, rem.len() as int)
                    =~= s@.subrange(i + 1, s@.len() as int));
                assert(out@ + replace_first(rem, p@, q@) =~= (out@ + seq![s@[i as int]])
                    + replace_first(s@.subrange(i + 1, s@.len() as int), p@, q@));
            }
            let c = s[i];
            out.push(c);
            i += 1;
        }
    }
    proof {
        assert(s@.subrange(i as int, s@.len() as int) =~= Seq::<u8>::empty());
        assert(replace_first(Seq::<u8>::empty(), p@, q@) == Seq::<u8>::empty());
        assert(out@ + Seq::<u8>::empty() =~= out@);
    }
    out
}

/// The decimal digits of `n`, most significant first.
pub open spec fn dec_digits(n: nat) -> Seq<u8>
    decreases n,
{
    if n < 10 {
        seq![(48 + n) as u8]
    } else {
        dec_digits(n / 10) + seq![(48 + n % 10) as u8]
    }
}

/// Renders `n` in decimal.
pub fn u64_to_dec(n: u64) -> (r: Vec<u8>)
    ensures
        r@ == dec_digits(n as nat),
{
    if n == 0 {
        let out: Vec<u8> = vec![48u8];
        return out;
    }
    let mut rev_digits: Vec<u8> = Vec::new();
    let mut m = n;
    while m > 0
        invariant
            dec_digits(n as nat) == if m > 0 {
                dec_digits(m as nat) + rev_digits@.reverse()
            } else {
                rev_digits@.reverse()
            },
        decreases m,
    {
        let d = 48 + (m % 10) as u8;
        proof {
            assert(rev_digits@.push(d).reverse() =~= seq![d] + rev_digits@.reverse());
            if m >= 10 {
                assert(dec_digits(m as nat) == dec_digits((m as nat) / 10) + seq![d]);
                assert(dec_digits((m as nat) / 10) + (seq![d] + rev_digits@.reverse())
                    =~= dec_digits(m as nat) + rev_digits@.reverse());
            } else {
                assert(dec_digits(m as nat) == seq![d]);
                assert(seq![d] + rev_digits@.reverse()
                    =~= dec_digits(m as nat) + rev_digits@.reverse());
            }
        }
        rev_digits.push(d);
        m = m / 10;
    }
    let mut out: Vec<u8> = Vec::new();
    let mut i: usize = rev_digits.len();
    while i > 0
        invariant
            i <= rev_digits.len(),
            out@ =~= rev_digits@.subrange(i as int, rev_digits@.len() as int).reverse(),
        decreases i,
    {
        i -= 1;
        out.push(rev_digits[i]);
        proof {
            assert(out@ =~= rev_digits@.subrange(i as int, rev_digits@.len() as int).reverse());
        }
    }
    proof {
        assert(rev_digits@.subrange(0, rev_digits@.len() as int) =~= rev_digits@);
    }
    out
}

} // verus!
