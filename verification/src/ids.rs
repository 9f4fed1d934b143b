//! Identifier sets, kept as duplicate-free vectors of plain ids.

use vstd::prelude::*;

verus! {

/// `s` with `x` added at the end, unless already present.
pub open spec fn spec_insert(s: Seq<usize>, x: usize) -> Seq<usize> {
    if s.contains(x) {
        s
    } else {
        s.push(x)
    }
}

/// `s` with its (under uniqueness: only) occurrence of `x` removed, if any.
pub open spec fn spec_removed(s: Seq<usize>, x: usize) -> Seq<usize> {
    if s.contains(x) {
        s.remove(choose|i: int| 0 <= i < s.len() && s[i] == x)
    } else {
        s
    }
}

/// Whether `x` occurs in `v`.
pub fn has_id(v: &Vec<usize>, x: usize) -> (b: bool)
    ensures
        b == v@.contains(x),
{
    let n = v.len();
    let mut i: usize = 0;
    while i < n
        invariant
            n == v@.len(),
            i <= n,
            forall|k: int| 0 <= k < i ==> v@[k] != x,
        decreases n - i,
    {
        if v[i] == x {
            return true;
        }
        i += 1;
    }
    false
}

/// Adds `x` to the set: a no-op when it is already present, so no
/// duplicate ever enters.
pub fn insert_id(v: &mut Vec<usize>, x: usize)
    requires
        old(v)@.no_duplicates(),
    ensures
        final(v)@ == spec_insert(old(v)@, x),
        final(v)@.no_duplicates(),
        forall|u: usize| final(v)@.contains(u) <==> (old(v)@.contains(u) || u == x),
{
    let ghost pre = v@;
    if !has_id(v, x) {
        v.push(x);
        proof {
            assert(v@ == pre.push(x));
            assert(v@.no_duplicates()) by {
                assert(forall|k: int| 0 <= k < pre.len() ==> v@[k] == pre[k]);
                assert(v@[pre.len() as int] == x);
            }
            assert forall|u: usize| v@.contains(u) <==> (pre.contains(u) || u == x) by {
                if pre.contains(u) {
                    let k = choose|k: int| 0 <= k < pre.len() && pre[k] == u;
                    assert(v@[k] == u);
                }
                if u == x {
                    assert(v@[pre.len() as int] == u);
                }
                if v@.contains(u) {
                    let k = choose|k: int| 0 <= k < v@.len() && v@[k] == u;
                    if k < pre.len() {
                        assert(pre[k] == u);
                    }
                }
            }
        }
    }
}

/// Removes `x` from the set: a no-op when it is absent.
pub fn remove_id(v: &mut Vec<usize>, x: usize)
    requires
        old(v)@.no_duplicates(),
    ensures
        final(v)@ == spec_removed(old(v)@, x),
        final(v)@.no_duplicates(),
        forall|u: usize| final(v)@.contains(u) <==> (old(v)@.contains(u) && u != x),
{
    let ghost pre = v@;
    let n = v.len();
    let mut found: Option<usize> = None;
    let mut i: usize = 0;
    while i < n
        invariant
            n == v@.len(),
            i <= n,
            v@ == pre,
            match found {
                Some(j) => j < n && v@[j as int] == x,
                None => forall|k: int| 0 <= k < i ==> v@[k] != x,
            },
        decreases n - i,
    {
        if found.is_none() && v[i] == x {
            found = Some(i);
        }
        i += 1;
    }
    if let Some(at) = found {
        let ghost fi = at as int;
        v.remove(at);
        proof {
            assert(v@ == pre.remove(fi));
            assert(pre.contains(x)) by {
                assert(pre[fi] == x);
            }
            let c0 = choose|i: int| 0 <= i < pre.len() && pre[i] == x;
            assert(c0 == fi) by {
                if c0 != fi {
                    assert(pre[c0] != pre[fi]);
                }
            }
            assert(v@ == spec_removed(pre, x));
            assert(forall|k: int| 0 <= k < fi ==> v@[k] == pre[k]);
            assert(forall|k: int| fi <= k < v@.len() ==> v@[k] == pre[k + 1]);
            assert forall|p: int, q: int|
                0 <= p < v@.len() && 0 <= q < v@.len() && p != q implies v@[p] != v@[q] by {
                let p0: int = if p < fi { p } else { p + 1 };
                let q0: int = if q < fi { q } else { q + 1 };
                assert(v@[p] == pre[p0] && v@[q] == pre[q0] && p0 != q0);
            }
            assert(v@.no_duplicates());
            assert forall|u: usize| v@.contains(u) <==> (pre.contains(u) && u != x) by {
                if v@.contains(u) {
                    let k = choose|k: int| 0 <= k < v@.len() && v@[k] == u;
                    if k < fi {
                        assert(pre[k] == u);
                    } else {
                        assert(pre[k + 1] == u);
                    }
                    assert(pre.contains(u));
                    if u == x {
                        let j: int = if k < fi { k } else { k + 1 };
                        assert(pre[j] == x && pre[fi] == x && j != fi);
                        assert(pre[j] != pre[fi]);
                    }
                }
                if pre.contains(u) && u != x {
                    let k = choose|k: int| 0 <= k < pre.len() && pre[k] == u;
                    if k < fi {
                        assert(v@[k] == u);
                    } else {
                        assert(k != fi);
                        assert(v@[k - 1] == u);
                    }
                }
            }
        }
    } else {
        proof {
            assert(!pre.contains(x)) by {
                if pre.contains(x) {
                    let k = choose|k: int| 0 <= k < pre.len() && pre[k] == x;
                }
            }
            assert(v@ == spec_removed(pre, x));
            assert forall|u: usize| v@.contains(u) <==> (pre.contains(u) && u != x) by {
                if v@.contains(u) && u == x {
                    let k = choose|k: int| 0 <= k < v@.len() && v@[k] == u;
                }
            }
        }
    }
}

} // verus!
