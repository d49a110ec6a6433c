//! Byte-level path arithmetic.
//!
//! Guest paths are NUL-terminated byte strings; this module treats a path as
//! its bytes, without the terminator. Normalization collapses runs of
//! repeated separators, the only rewriting `resolve` performs before prefix
//! matching. Prefix matching respects component boundaries: `/over` covers
//! `/over` and `/over/a`, never `/overlay`.

use vstd::prelude::*;

verus! {

/// The path separator byte, `/`.
pub const SLASH: u8 = 47;

/// A run of repeated separators collapsed to one: the normal form keeps the
/// last separator of each run and every other byte unchanged.
pub open spec fn norm(s: Seq<u8>) -> Seq<u8>
    decreases s.len(),
{
    if s.len() == 0 {
        Seq::empty()
    } else if s.len() >= 2 && s[0] == SLASH && s[1] == SLASH {
        norm(s.drop_first())
    } else {
        seq![s[0]] + norm(s.drop_first())
    }
}

/// No two adjacent separator bytes.
pub open spec fn is_separator_normal(s: Seq<u8>) -> bool {
    forall|i: int| 0 <= i && i + 1 < s.len() ==> !((#[trigger] s[i]) == SLASH && s[i + 1] == SLASH)
}

/// No NUL byte; holds of every string read from a NUL-terminated C string.
pub open spec fn nul_free(s: Seq<u8>) -> bool {
    forall|i: int| 0 <= i < s.len() ==> s[i] != 0
}

/// `pre` is a path-prefix of `p`: its bytes start `p` and end at a component
/// boundary. A trailing separator on `pre` (the root `/`) is itself a
/// boundary.
pub open spec fn is_path_prefix(pre: Seq<u8>, p: Seq<u8>) -> bool {
    &&& pre.len() > 0
    &&& pre.len() <= p.len()
    &&& p.take(pre.len() as int) == pre
    &&& (pre.len() == p.len() || p[pre.len() as int] == SLASH || pre[pre.len() - 1] == SLASH)
}

/// Where the suffix of a path covered by `pre` starts: after `pre`, except
/// that a trailing separator of `pre` stays with the suffix.
pub open spec fn suffix_start(pre: Seq<u8>) -> int {
    if pre.len() > 0 && pre[pre.len() - 1] == SLASH {
        pre.len() - 1
    } else {
        pre.len() as int
    }
}

/// Normalization leaves a separator-normal string unchanged.
pub proof fn lemma_norm_of_normal(s: Seq<u8>)
    requires
        is_separator_normal(s),
    ensures
        norm(s) == s,
    decreases s.len(),
{
    if s.len() == 0 {
        assert(norm(s) =~= s);
    } else {
        assert(is_separator_normal(s.drop_first())) by {
            assert(forall|i: int|
                0 <= i && i + 1 < s.drop_first().len() ==> (#[trigger] s.drop_first()[i]) == s[i
                    + 1] && s.drop_first()[i + 1] == s[i + 2]);
        }
        lemma_norm_of_normal(s.drop_first());
        assert(!(s.len() >= 2 && s[0] == SLASH && s[1] == SLASH));
        assert(norm(s) =~= s);
    }
}

/// The normal form is separator-normal, so normalization is idempotent.
pub proof fn lemma_norm_is_normal(s: Seq<u8>)
    ensures
        is_separator_normal(norm(s)),
        norm(norm(s)) == norm(s),
    decreases s.len(),
{
    if s.len() == 0 {
    } else if s.len() >= 2 && s[0] == SLASH && s[1] == SLASH {
        lemma_norm_is_normal(s.drop_first());
    } else {
        lemma_norm_is_normal(s.drop_first());
        let n = norm(s);
        assert(n == seq![s[0]] + norm(s.drop_first()));
        assert forall|i: int| 0 <= i && i + 1 < n.len() implies !((#[trigger] n[i]) == SLASH && n[i
            + 1] == SLASH) by {
            if i == 0 {
                if s[0] == SLASH && n[1] == SLASH {
                    // the first byte of norm(drop_first) is the first byte of
                    // some suffix of drop_first, which cannot be a second slash
                    lemma_norm_first_byte(s.drop_first());
                }
            } else {
                assert(n[i] == norm(s.drop_first())[i - 1]);
                assert(n[i + 1] == norm(s.drop_first())[i]);
            }
        }
    }
    lemma_norm_of_normal(norm(s));
}

/// If `s` starts with two separators, its normal form starts where the run
/// ends: the first byte of `norm(s)` equals the first byte of `s` unless that
/// byte heads a separator run, in which case it is still a separator.
proof fn lemma_norm_first_byte(s: Seq<u8>)
    requires
        s.len() > 0,
    ensures
        norm(s).len() > 0,
        norm(s)[0] == s[0] || (s[0] == SLASH && norm(s)[0] == SLASH),
    decreases s.len(),
{
    if s.len() >= 2 && s[0] == SLASH && s[1] == SLASH {
        lemma_norm_first_byte(s.drop_first());
    } else {
        assert(norm(s) == seq![s[0]] + norm(s.drop_first()));
        assert(norm(s)[0] == s[0]);
    }
}

/// Every byte of the normal form is a byte of the original, so normalization
/// preserves freedom from NUL.
pub proof fn lemma_norm_nul_free(s: Seq<u8>)
    requires
        nul_free(s),
    ensures
        nul_free(norm(s)),
        norm(s).len() <= s.len(),
    decreases s.len(),
{
    if s.len() == 0 {
    } else if s.len() >= 2 && s[0] == SLASH && s[1] == SLASH {
        assert(nul_free(s.drop_first()));
        lemma_norm_nul_free(s.drop_first());
    } else {
        assert(nul_free(s.drop_first()));
        lemma_norm_nul_free(s.drop_first());
        let n = norm(s);
        assert(n == seq![s[0]] + norm(s.drop_first()));
        assert(forall|i: int| 0 <= i < n.len() ==> n[i] != 0) by {
            assert(forall|i: int|
                1 <= i < n.len() ==> n[i] == norm(s.drop_first())[i - 1]);
        }
    }
}

/// Collapse runs of repeated separators, keeping the last of each run.
pub fn normalize(p: &Vec<u8>) -> (r: Vec<u8>)
    ensures
        r@ == norm(p@),
{
    let mut out: Vec<u8> = Vec::new();
    let mut i: usize = 0;
    proof {
        assert(p@.skip(0) =~= p@);
        assert(out@ + norm(p@) =~= norm(p@));
    }
    while i < p.len()
        invariant
            i <= p@.len(),
            norm(p@) == out@ + norm(p@.skip(i as int)),
        decreases p@.len() - i,
    {
        let ghost rest = p@.skip(i as int);
        proof {
            assert(rest.len() == p@.len() - i);
            assert(rest[0] == p@[i as int]);
            assert(rest.drop_first() =~= p@.skip(i as int + 1));
            if i + 1 < p@.len() {
                assert(rest[1] == p@[i as int + 1]);
            }
        }
        if p[i] == SLASH && i + 1 < p.len() && p[i + 1] == SLASH {
            proof {
                assert(norm(rest) == norm(rest.drop_first()));
            }
        } else {
            let ghost old_out = out@;
            out.push(p[i]);
            proof {
                assert(norm(rest) == seq![rest[0]] + norm(rest.drop_first()));
                assert(old_out + norm(rest) =~= out@ + norm(p@.skip(i as int + 1)));
            }
        }
        i += 1;
    }
    proof {
        assert(p@.skip(p@.len() as int) =~= Seq::<u8>::empty());
        assert(norm(Seq::<u8>::empty()) == Seq::<u8>::empty());
        assert(out@ + Seq::<u8>::empty() =~= out@);
    }
    out
}

/// Whether `pre` is a path-prefix of `p`.
pub fn path_prefix_matches(pre: &Vec<u8>, p: &Vec<u8>) -> (r: bool)
    ensures
        r == is_path_prefix(pre@, p@),
{
    if pre.len() == 0 || pre.len() > p.len() {
        return false;
    }
    let mut i: usize = 0;
    while i < pre.len()
        invariant
            0 < pre@.len() <= p@.len(),
            i <= pre@.len(),
            forall|j: int| 0 <= j < i ==> p@[j] == pre@[j],
        decreases pre@.len() - i,
    {
        if p[i] != pre[i] {
            proof {
                assert(p@.take(pre@.len() as int)[i as int] == p@[i as int]);
            }
            return false;
        }
        i += 1;
    }
    proof {
        assert(p@.take(pre@.len() as int) =~= pre@);
    }
    if pre.len() == p.len() {
        return true;
    }
    if p[pre.len()] == SLASH {
        return true;
    }
    pre[pre.len() - 1] == SLASH
}

/// Whether `s` is separator-normal: no two adjacent separators.
pub fn check_separator_normal(s: &Vec<u8>) -> (r: bool)
    ensures
        r == is_separator_normal(s@),
{
    if s.len() == 0 {
        return true;
    }
    let mut i: usize = 1;
    while i < s.len()
        invariant
            1 <= i,
            forall|j: int|
                0 <= j && j + 1 < i ==> !((#[trigger] s@[j]) == SLASH && s@[j + 1] == SLASH),
        decreases s@.len() - i,
    {
        if s[i - 1] == SLASH && s[i] == SLASH {
            return false;
        }
        i += 1;
    }
    true
}

/// Whether every byte differs from NUL.
pub fn check_nul_free(s: &Vec<u8>) -> (r: bool)
    ensures
        r == nul_free(s@),
{
    let mut i: usize = 0;
    while i < s.len()
        invariant
            i <= s@.len(),
            forall|j: int| 0 <= j < i ==> s@[j] != 0,
        decreases s@.len() - i,
    {
        if s[i] == 0 {
            return false;
        }
        i += 1;
    }
    true
}

/// Whether two byte strings hold the same bytes.
pub fn bytes_equal(a: &Vec<u8>, b: &Vec<u8>) -> (r: bool)
    ensures
        r == (a@ == b@),
{
    if a.len() != b.len() {
        return false;
    }
    let mut i: usize = 0;
    while i < a.len()
        invariant
            a@.len() == b@.len(),
            i <= a@.len(),
            forall|j: int| 0 <= j < i ==> a@[j] == b@[j],
        decreases a@.len() - i,
    {
        if a[i] != b[i] {
            return false;
        }
        i += 1;
    }
    proof {
        assert(a@ =~= b@);
    }
    true
}

/// A fresh vector with the same bytes.
pub fn copy_bytes(v: &Vec<u8>) -> (r: Vec<u8>)
    ensures
        r@ == v@,
{
    let mut out: Vec<u8> = Vec::new();
    let mut i: usize = 0;
    while i < v.len()
        invariant
            i <= v@.len(),
            out@ == v@.take(i as int),
        decreases v@.len() - i,
    {
        out.push(v[i]);
        proof {
            assert(v@.take(i as int).push(v@[i as int]) =~= v@.take(i as int + 1));
        }
        i += 1;
    }
    proof {
        assert(v@.take(v@.len() as int) =~= v@);
    }
    out
}

/// The bytes of `v` from `a` up to `b`.
pub fn slice_range(v: &Vec<u8>, a: usize, b: usize) -> (r: Vec<u8>)
    requires
        a <= b <= v@.len(),
    ensures
        r@ == v@.subrange(a as int, b as int),
{
    let mut out: Vec<u8> = Vec::new();
    let mut i: usize = a;
    proof {
        assert(v@.subrange(a as int, a as int) =~= Seq::<u8>::empty());
    }
    while i < b
        invariant
            a <= i <= b <= v@.len(),
            out@ == v@.subrange(a as int, i as int),
        decreases b - i,
    {
        out.push(v[i]);
        proof {
            assert(v@.subrange(a as int, i as int).push(v@[i as int]) =~= v@.subrange(
                a as int,
                i as int + 1,
            ));
        }
        i += 1;
    }
    out
}

/// Append the bytes of `v` to `out`.
pub fn append_bytes(out: &mut Vec<u8>, v: &Vec<u8>)
    ensures
        final(out)@ == old(out)@ + v@,
{
    let mut i: usize = 0;
    proof {
        assert(old(out)@ + v@.subrange(0, 0) =~= old(out)@);
    }
    while i < v.len()
        invariant
            i <= v@.len(),
            out@ == old(out)@ + v@.subrange(0, i as int),
        decreases v@.len() - i,
    {
        out.push(v[i]);
        proof {
            assert((old(out)@ + v@.subrange(0, i as int)).push(v@[i as int]) =~= old(out)@
                + v@.subrange(0, i as int + 1));
        }
        i += 1;
    }
    proof {
        assert(v@.subrange(0, v@.len() as int) =~= v@);
    }
}

/// `root` followed by the bytes of `p` from `start` on.
pub fn join_from(root: &Vec<u8>, p: &Vec<u8>, start: usize) -> (r: Vec<u8>)
    requires
        start <= p@.len(),
    ensures
        r@ == root@ + p@.skip(start as int),
{
    let mut out = copy_bytes(root);
    let mut i: usize = start;
    proof {
        assert(p@.subrange(start as int, start as int) =~= Seq::<u8>::empty());
        assert(out@ + Seq::<u8>::empty() =~= out@);
    }
    while i < p.len()
        invariant
            start <= i <= p@.len(),
            out@ == root@ + p@.subrange(start as int, i as int),
        decreases p@.len() - i,
    {
        out.push(p[i]);
        proof {
            assert((root@ + p@.subrange(start as int, i as int)).push(p@[i as int]) =~= root@
                + p@.subrange(start as int, i as int + 1));
        }
        i += 1;
    }
    proof {
        assert(p@.subrange(start as int, p@.len() as int) =~= p@.skip(start as int));
    }
    out
}

} // verus!
