//! Path-prefix rewriting on byte-string paths.
//!
//! A path lies *under* a root when it extends the root by a separator and a
//! non-empty suffix. Mapping a path from one root to another replaces the
//! root prefix and keeps the suffix, separator included.

use vstd::prelude::*;

verus! {

/// The path separator byte, `/`.
pub open spec fn sep() -> u8 {
    47u8
}

/// `p` extends `root` by a separator and a suffix.
pub open spec fn under_root(p: Seq<u8>, root: Seq<u8>) -> bool {
    &&& p.len() > root.len()
    &&& p.subrange(0, root.len() as int) == root
    &&& p[root.len() as int] == sep()
}

/// The path obtained from `p` by replacing the prefix `from` with `to`,
/// keeping the rest of `p` (separator included).
pub open spec fn mapped(p: Seq<u8>, from: Seq<u8>, to: Seq<u8>) -> Seq<u8> {
    to + p.subrange(from.len() as int, p.len() as int)
}

/// Decides whether `p` lies under `root`.
pub fn is_under_root(p: &Vec<u8>, root: &Vec<u8>) -> (b: bool)
    ensures
        b == under_root(p@, root@),
{
    if p.len() <= root.len() {
        return false;
    }
    let mut i: usize = 0;
    while i < root.len()
        invariant
            i <= root.len(),
            root.len() < p.len(),
            forall|j: int| 0 <= j < i ==> p@[j] == root@[j],
        decreases root.len() - i,
    {
        if p[i] != root[i] {
            proof {
                assert(p@.subrange(0, root@.len() as int)[i as int] != root@[i as int]);
            }
            return false;
        }
        i += 1;
    }
    if p[root.len()] != 47u8 {
        proof {
            if p@.subrange(0, root@.len() as int) == root@ {
                assert(!under_root(p@, root@));
            } else {
                assert(!under_root(p@, root@));
            }
        }
        return false;
    }
    proof {
        assert(p@.subrange(0, root@.len() as int) =~= root@);
    }
    true
}

/// Rewrites `p`, which must lie under `from_root`, onto `to_root`.
pub fn map_under(p: &Vec<u8>, from_root: &Vec<u8>, to_root: &Vec<u8>) -> (r: Vec<u8>)
    requires
        under_root(p@, from_root@),
    ensures
        r@ == mapped(p@, from_root@, to_root@),
{
    let mut r: Vec<u8> = Vec::new();
    let mut i: usize = 0;
    while i < to_root.len()
        invariant
            i <= to_root.len(),
            r@ == to_root@.subrange(0, i as int),
        decreases to_root.len() - i,
    {
        let b = to_root[i];
        r.push(b);
        proof {
            assert(to_root@.subrange(0, i + 1 as int) =~= to_root@.subrange(0, i as int).push(to_root@[i as int]));
        }
        i += 1;
    }
    proof {
        assert(to_root@.subrange(0, to_root@.len() as int) =~= to_root@);
    }
    let mut j: usize = from_root.len();
    while j < p.len()
        invariant
            from_root@.len() <= j <= p@.len(),
            r@ == to_root@ + p@.subrange(from_root@.len() as int, j as int),
        decreases p.len() - j,
    {
        let b = p[j];
        r.push(b);
        proof {
            assert(to_root@ + p@.subrange(from_root@.len() as int, j + 1 as int)
                =~= (to_root@ + p@.subrange(from_root@.len() as int, j as int)).push(p@[j as int]));
        }
        j += 1;
    }
    r
}

/// Rewrites `p` from `from_root` onto `to_root`, or reports that `p` does
/// not lie under `from_root`.
pub fn map_path(p: &Vec<u8>, from_root: &Vec<u8>, to_root: &Vec<u8>) -> (r: Option<Vec<u8>>)
    ensures
        under_root(p@, from_root@) ==> (r matches Some(q) && q@ == mapped(p@, from_root@, to_root@)),
        !under_root(p@, from_root@) ==> r is None,
{
    if is_under_root(p, from_root) {
        Some(map_under(p, from_root, to_root))
    } else {
        None
    }
}

/// Mapping a path under `r1` onto `r2` and back onto `r1` reproduces the
/// original path exactly, and the intermediate path lies under `r2`.
pub proof fn lemma_map_round_trip(p: Seq<u8>, r1: Seq<u8>, r2: Seq<u8>)
    requires
        under_root(p, r1),
    ensures
        under_root(mapped(p, r1, r2), r2),
        mapped(mapped(p, r1, r2), r2, r1) == p,
{
    let q = mapped(p, r1, r2);
    assert(q.subrange(0, r2.len() as int) =~= r2);
    assert(q[r2.len() as int] == p[r1.len() as int]);
    assert(q.subrange(r2.len() as int, q.len() as int) =~= p.subrange(r1.len() as int, p.len() as int));
    assert forall|i: int| 0 <= i < r1.len() implies p[i] == r1[i] by {
        assert(p.subrange(0, r1.len() as int)[i] == p[i]);
    }
    assert(mapped(q, r2, r1) =~= p);
}

} // verus!
