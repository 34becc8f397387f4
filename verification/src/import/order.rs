//! The order in which a directory's children are visited: by the bytes of
//! their paths, the way the platform orders paths that share a parent.

use super::scan::Pending;
use vstd::multiset::Multiset;
use vstd::prelude::*;
use vstd::utf8::encode_utf8;

verus! {

broadcast use {vstd::multiset::group_multiset_axioms, vstd::seq_lib::group_to_multiset_ensures};

/// `a` comes no later than `b` in byte order; a prefix comes first.
pub open spec fn bytes_le(a: Seq<u8>, b: Seq<u8>) -> bool
    decreases a.len(),
{
    if a.len() == 0 {
        true
    } else if b.len() == 0 {
        false
    } else if a[0] != b[0] {
        a[0] < b[0]
    } else {
        bytes_le(a.drop_first(), b.drop_first())
    }
}

/// Any two byte strings are ordered one way or the other.
pub proof fn lemma_bytes_total(a: Seq<u8>, b: Seq<u8>)
    ensures
        bytes_le(a, b) || bytes_le(b, a),
    decreases a.len(),
{
    if a.len() > 0 && b.len() > 0 && a[0] == b[0] {
        lemma_bytes_total(a.drop_first(), b.drop_first());
    }
}

/// The byte order is transitive.
pub proof fn lemma_bytes_transitive(a: Seq<u8>, b: Seq<u8>, c: Seq<u8>)
    requires
        bytes_le(a, b),
        bytes_le(b, c),
    ensures
        bytes_le(a, c),
    decreases a.len(),
{
    if a.len() > 0 && b.len() > 0 && c.len() > 0 && a[0] == b[0] && b[0] == c[0] {
        lemma_bytes_transitive(a.drop_first(), b.drop_first(), c.drop_first());
    }
}

/// The bytes of an entry's path.
pub open spec fn path_bytes(p: Pending) -> Seq<u8> {
    encode_utf8(p.path@)
}

/// Whether `a` comes no later than `b` in byte order.
pub fn bytes_not_after(a: &[u8], b: &[u8]) -> (r: bool)
    ensures
        r == bytes_le(a@, b@),
{
    let mut i: usize = 0;
    assert(a@.skip(0) =~= a@ && b@.skip(0) =~= b@);
    while i < a.len() && i < b.len() && a[i] == b[i]
        invariant
            0 <= i <= a@.len(),
            i <= b@.len(),
            bytes_le(a@, b@) == bytes_le(a@.skip(i as int), b@.skip(i as int)),
        decreases a@.len() - i,
    {
        assert(a@.skip(i as int).drop_first() =~= a@.skip(i + 1));
        assert(b@.skip(i as int).drop_first() =~= b@.skip(i + 1));
        i = i + 1;
    }
    if i == a.len() {
        return true;
    }
    if i == b.len() {
        return false;
    }
    a[i] < b[i]
}

/// Whether entry `a` comes no later than entry `b`.
fn entry_not_after(a: &Pending, b: &Pending) -> (r: bool)
    ensures
        r == bytes_le(path_bytes(*a), path_bytes(*b)),
{
    bytes_not_after(a.path.as_str().as_bytes(), b.path.as_str().as_bytes())
}

/// The entries are in byte order of their paths.
pub open spec fn in_path_order(s: Seq<Pending>) -> bool {
    forall|i: int, j: int| 0 <= i < j < s.len() ==> bytes_le(path_bytes(#[trigger] s[i]), path_bytes(#[trigger] s[j]))
}

/// Orders directory children by the bytes of their paths. The result holds
/// exactly the given children.
pub fn sort_children(children: Vec<Pending>) -> (r: Vec<Pending>)
    ensures
        r@.to_multiset() == children@.to_multiset(),
        in_path_order(r@),
{
    let ghost all = children@;
    let mut rest = children;
    let mut out: Vec<Pending> = Vec::new();
    proof {
        assert(out@.to_multiset() =~= Multiset::empty());
        assert(out@.to_multiset().add(rest@.to_multiset()) =~= all.to_multiset());
    }
    while rest.len() > 0
        invariant
            out@.to_multiset().add(rest@.to_multiset()) == all.to_multiset(),
            in_path_order(out@),
        decreases rest.len(),
    {
        let ghost before_rest = rest@;
        let ghost before_out = out@;
        let x = rest.remove(0);
        proof {
            assert(before_rest[0] == x && before_rest.contains(x));
            assert(before_rest.to_multiset().count(x) > 0);
        }
        let mut k: usize = 0;
        while k < out.len() && entry_not_after(&out[k], &x)
            invariant
                out@ == before_out,
                0 <= k <= out@.len(),
                forall|m: int| 0 <= m < k ==> bytes_le(path_bytes(#[trigger] out@[m]), path_bytes(x)),
            decreases out@.len() - k,
        {
            k = k + 1;
        }
        let ghost later = k < out@.len();
        proof {
            if later {
                lemma_bytes_total(path_bytes(out@[k as int]), path_bytes(x));
            }
        }
        out.insert(k, x);
        proof {
            assert(out@.to_multiset().add(rest@.to_multiset()) =~= all.to_multiset());
            assert forall|i: int, j: int| 0 <= i < j < out@.len() implies bytes_le(
                path_bytes(#[trigger] out@[i]),
                path_bytes(#[trigger] out@[j]),
            ) by {
                if i < k && j == k {
                    assert(out@[i] == before_out[i]);
                } else if i == k && j > k {
                    assert(out@[j] == before_out[j - 1]);
                    assert(bytes_le(path_bytes(x), path_bytes(before_out[k as int])));
                    if j - 1 > k {
                        assert(bytes_le(path_bytes(before_out[k as int]), path_bytes(before_out[j - 1])));
                        lemma_bytes_transitive(path_bytes(x), path_bytes(before_out[k as int]), path_bytes(before_out[j - 1]));
                    }
                } else if j < k {
                    assert(out@[i] == before_out[i] && out@[j] == before_out[j]);
                } else if i < k && j > k {
                    assert(out@[i] == before_out[i] && out@[j] == before_out[j - 1]);
                } else {
                    assert(out@[i] == before_out[i - 1] && out@[j] == before_out[j - 1]);
                }
            }
        }
    }
    proof {
        assert(rest@.to_multiset() =~= Multiset::empty());
        assert(out@.to_multiset() =~= out@.to_multiset().add(rest@.to_multiset()));
    }
    out
}

} // verus!
