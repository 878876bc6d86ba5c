//! Single-pass uniform random sampling (reservoir sampling).
//!
//! A [`Reservoir`] holds, at any point of one pass over a stream, the
//! 0-based stream positions of the items currently retained. The first
//! `cap` positions fill the reservoir directly; every later position `s`
//! (the `s + 1`-th item) is drawn against a space of size `s + 1` and, when
//! the draw lands below `cap`, replaces the slot it names. The reservoir
//! never holds more than `cap` positions and never learns the stream length
//! ahead of time; each item of the stream is observed exactly once.

use vstd::prelude::*;

verus! {

/// Relies on `rand::random_range`: a uniformly distributed integer in
/// `[0, bound)`, drawn from the thread-local generator. The range is
/// non-empty, so the call does not panic.
#[verifier::external_body]
fn random_below(bound: usize) -> (r: usize)
    requires
        1 <= bound,
    ensures
        r < bound,
{
    rand::random_range(0..bound)
}

/// Copies a byte string.
pub fn copy_bytes(v: &Vec<u8>) -> (r: Vec<u8>)
    ensures
        r@ == v@,
{
    let mut r: Vec<u8> = Vec::new();
    let mut i: usize = 0;
    while i < v.len()
        invariant
            i <= v@.len(),
            r@ == v@.subrange(0, i as int),
        decreases v@.len() - i,
    {
        let b = v[i];
        r.push(b);
        proof {
            assert(v@.subrange(0, i + 1 as int) =~= v@.subrange(0, i as int).push(v@[i as int]));
        }
        i += 1;
    }
    proof {
        assert(v@.subrange(0, v@.len() as int) =~= v@);
    }
    r
}

/// The state of one stratum's sampling pass.
pub struct Reservoir {
    /// Target sample size: the reservoir's capacity.
    pub cap: usize,
    /// Number of stream items observed so far.
    pub seen: usize,
    /// 0-based stream positions of the currently retained items.
    pub slots: Vec<usize>,
}

impl Reservoir {
    /// The reservoir holds `min(cap, seen)` pairwise distinct positions,
    /// each one already observed.
    pub open spec fn wf(self) -> bool {
        &&& self.slots@.len() == vstd::math::min(self.cap as int, self.seen as int)
        &&& forall|i: int| 0 <= i < self.slots@.len() ==> (self.slots@[i] as int) < self.seen
        &&& forall|i: int, j: int|
                0 <= i < j < self.slots@.len() ==> self.slots@[i] != self.slots@[j]
    }

    /// An empty reservoir of capacity `cap`.
    pub fn new(cap: usize) -> (r: Reservoir)
        ensures
            r.wf(),
            r.cap == cap,
            r.seen == 0,
            r.slots@.len() == 0,
    {
        Reservoir { cap, seen: 0, slots: Vec::new() }
    }

    /// Observes the next stream item. While filling, the item's position is
    /// appended; afterwards it either replaces one retained position or is
    /// discarded, each slot keeping its old position or taking the new one.
    pub fn observe(&mut self)
        requires
            old(self).wf(),
            old(self).seen < usize::MAX,
        ensures
            final(self).wf(),
            final(self).cap == old(self).cap,
            final(self).seen == old(self).seen + 1,
            old(self).seen < old(self).cap
                ==> final(self).slots@ == old(self).slots@.push(old(self).seen),
            old(self).seen >= old(self).cap ==> {
                &&& final(self).slots@.len() == old(self).slots@.len()
                &&& forall|i: int|
                        0 <= i < final(self).slots@.len()
                            ==> final(self).slots@[i] == old(self).slots@[i]
                                || final(self).slots@[i] == old(self).seen
            },
    {
        if self.seen < self.cap {
            let pos = self.seen;
            self.slots.push(pos);
        } else {
            let j = random_below(self.seen + 1);
            if j < self.cap {
                let pos = self.seen;
                let slot = &mut self.slots[j];
                *slot = pos;
            }
        }
        self.seen = self.seen + 1;
    }
}

/// `picks` are pairwise distinct positions in `src`, and `out` holds
/// exactly the bytes of the picked entries, in pick order.
pub open spec fn valid_sample(picks: Seq<int>, src: Seq<Vec<u8>>, out: Seq<Vec<u8>>) -> bool {
    &&& picks.len() == out.len()
    &&& forall|i: int|
            0 <= i < picks.len() ==> 0 <= #[trigger] picks[i] < src.len() && out[i]@ == src[picks[i]]@
    &&& forall|i: int, j: int| 0 <= i < j < picks.len() ==> picks[i] != picks[j]
}

/// Draws a uniform random sample of `min(n, items.len())` of the given
/// byte strings in one pass, each source entry filling at most one slot.
pub fn sample_from(items: &Vec<Vec<u8>>, n: usize) -> (r: Vec<Vec<u8>>)
    ensures
        r@.len() == vstd::math::min(n as int, items@.len() as int),
        exists|picks: Seq<int>| valid_sample(picks, items@, r@),
{
    let mut res = Reservoir::new(n);
    let mut i: usize = 0;
    while i < items.len()
        invariant
            res.wf(),
            res.cap == n,
            res.seen == i,
            i <= items@.len(),
        decreases items@.len() - i,
    {
        res.observe();
        i += 1;
    }
    let idxs = res.slots;
    let ghost picked: Seq<usize> = idxs@;
    proof {
        assert(picked.len() == vstd::math::min(n as int, items@.len() as int));
        assert(forall|t: int| 0 <= t < picked.len() ==> (picked[t] as int) < items@.len());
    }
    let mut out: Vec<Vec<u8>> = Vec::new();
    let mut k: usize = 0;
    while k < idxs.len()
        invariant
            k <= idxs@.len(),
            idxs@ == picked,
            out@.len() == k,
            forall|t: int| 0 <= t < picked.len() ==> (picked[t] as int) < items@.len(),
            forall|t: int| 0 <= t < k ==> out@[t]@ == items@[picked[t] as int]@,
        decreases idxs@.len() - k,
    {
        let idx = idxs[k];
        proof {
            assert((picked[k as int] as int) < items@.len());
        }
        let entry = copy_bytes(&items[idx]);
        out.push(entry);
        k += 1;
    }
    proof {
        let picks = Seq::new(picked.len(), |t: int| picked[t] as int);
        assert(valid_sample(picks, items@, out@));
    }
    out
}

/// When the source entries are pairwise distinct, no two sample slots hold
/// the same entry.
pub proof fn lemma_sample_no_duplicates(picks: Seq<int>, src: Seq<Vec<u8>>, out: Seq<Vec<u8>>)
    requires
        valid_sample(picks, src, out),
        forall|i: int, j: int| 0 <= i < j < src.len() ==> src[i]@ != src[j]@,
    ensures
        forall|i: int, j: int| 0 <= i < j < out.len() ==> out[i]@ != out[j]@,
{
    assert forall|i: int, j: int| 0 <= i < j < out.len() implies out[i]@ != out[j]@ by {
        let a = picks[i];
        let b = picks[j];
        assert(a != b);
        if a < b {
            assert(src[a]@ != src[b]@);
        } else {
            assert(src[b]@ != src[a]@);
        }
    }
}

} // verus!
