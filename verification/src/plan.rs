//! Planning the mirrored output tree.
//!
//! Given the discovered strata (one immediate subdirectory of the input
//! root each, with its regular files), a target sample size and a
//! short-stratum policy, [`build_plan`] validates that every path lies
//! under the input root, samples each stratum independently, and returns
//! one output directory per stratum — short or empty strata included —
//! together with one copy operation per sampled file. Under the strict
//! policy a stratum with fewer files than requested fails the whole run;
//! under the lenient policy it simply yields all of its files.

use vstd::prelude::*;

use crate::paths::{is_under_root, map_under, mapped, under_root};
use crate::sampler::{copy_bytes, sample_from, valid_sample};

verus! {

/// What to do with a stratum that has fewer files than requested.
#[derive(Clone, Copy, PartialEq, Eq, Structural, Debug)]
pub enum Policy {
    /// Sample every file the stratum has.
    Lenient,
    /// Reject the whole run.
    Strict,
}

/// One discovered stratum: its directory and the files found in it, all as
/// absolute paths.
#[derive(Debug)]
pub struct StratumInput {
    /// The stratum's directory.
    pub dir: Vec<u8>,
    /// The regular files of that directory, in enumeration order.
    pub files: Vec<Vec<u8>>,
}

/// Why no plan could be built.
#[derive(Debug)]
pub enum PlanError {
    /// Under the strict policy, a stratum held fewer files than requested.
    InsufficientItems {
        /// The offending stratum's directory.
        stratum: Vec<u8>,
        /// How many files it holds.
        found: usize,
        /// How many were requested.
        required: usize,
    },
    /// A stratum directory or file does not lie under the input root.
    PathOutsideRoot {
        /// The offending path.
        path: Vec<u8>,
    },
}

/// One planned file copy.
#[derive(Debug)]
pub struct CopyOp {
    /// The sampled file, under the input root.
    pub src: Vec<u8>,
    /// Its mirrored destination, under the output root.
    pub dst: Vec<u8>,
}

/// The planned output tree: one directory and one batch of copies per
/// stratum, in stratum order.
#[derive(Debug)]
pub struct Plan {
    /// The output directory of each stratum.
    pub dirs: Vec<Vec<u8>>,
    /// The copies of each stratum, aligned with `dirs`.
    pub copies: Vec<Vec<CopyOp>>,
}

/// Every path of the stratum lies under `root`.
pub open spec fn stratum_under(s: StratumInput, root: Seq<u8>) -> bool {
    &&& under_root(s.dir@, root)
    &&& forall|k: int| 0 <= k < s.files@.len() ==> under_root(#[trigger] s.files@[k]@, root)
}

/// Every path of every stratum lies under `root`.
pub open spec fn all_under(strata: Seq<StratumInput>, root: Seq<u8>) -> bool {
    forall|i: int| 0 <= i < strata.len() ==> stratum_under(#[trigger] strata[i], root)
}

/// Every stratum holds at least `n` files.
pub open spec fn counts_ok(strata: Seq<StratumInput>, n: int) -> bool {
    forall|i: int| 0 <= i < strata.len() ==> #[trigger] strata[i].files@.len() >= n
}

/// `p` is the directory or one of the files of some stratum.
pub open spec fn occurs_in(strata: Seq<StratumInput>, p: Seq<u8>) -> bool {
    exists|i: int|
        0 <= i < strata.len() && (#[trigger] strata[i].dir@ == p
            || exists|k: int| 0 <= k < strata[i].files@.len() && #[trigger] strata[i].files@[k]@ == p)
}

/// The sources of a batch of copies, in order.
pub open spec fn srcs_of(ops: Seq<CopyOp>) -> Seq<Vec<u8>> {
    Seq::new(ops.len(), |t: int| ops[t].src)
}

/// The batch is a valid sample of the stratum's files — `min(n, found)`
/// of them, no file in two slots — and each destination is its source
/// mapped from `from` onto `to`.
pub open spec fn stratum_copies_ok(
    ops: Seq<CopyOp>,
    s: StratumInput,
    from: Seq<u8>,
    to: Seq<u8>,
    n: int,
) -> bool {
    &&& ops.len() == vstd::math::min(n, s.files@.len() as int)
    &&& exists|picks: Seq<int>| valid_sample(picks, s.files@, srcs_of(ops))
    &&& forall|t: int| 0 <= t < ops.len() ==> (#[trigger] ops[t].dst@) == mapped(ops[t].src@, from, to)
}

/// The plan mirrors every stratum: its directory mapped onto the output
/// root, and a valid batch of copies, in stratum order.
pub open spec fn plan_ok(
    plan: Plan,
    strata: Seq<StratumInput>,
    from: Seq<u8>,
    to: Seq<u8>,
    n: int,
) -> bool {
    &&& plan.dirs@.len() == strata.len()
    &&& forall|i: int|
            0 <= i < strata.len() ==> (#[trigger] plan.dirs@[i]@) == mapped(strata[i].dir@, from, to)
    &&& plan.copies@.len() == strata.len()
    &&& forall|i: int|
            0 <= i < strata.len()
                ==> stratum_copies_ok(#[trigger] plan.copies@[i]@, strata[i], from, to, n)
}

/// Plans the mirrored output tree for the given strata.
///
/// The plan is built exactly when every path lies under `in_root` and,
/// under the strict policy, no stratum is short of `n` files; otherwise
/// the first offence, in stratum order, is reported.
#[verifier::loop_isolation(false)]
pub fn build_plan(
    in_root: &Vec<u8>,
    out_root: &Vec<u8>,
    strata: &Vec<StratumInput>,
    n: usize,
    policy: Policy,
) -> (r: Result<Plan, PlanError>)
    ensures
        r is Ok <==> (all_under(strata@, in_root@)
            && (policy is Strict ==> counts_ok(strata@, n as int))),
        r matches Ok(plan) ==> plan_ok(plan, strata@, in_root@, out_root@, n as int),
        r matches Err(PlanError::PathOutsideRoot { path })
            ==> !under_root(path@, in_root@) && occurs_in(strata@, path@),
        r matches Err(PlanError::InsufficientItems { stratum, found, required }) ==> {
            &&& all_under(strata@, in_root@)
            &&& policy is Strict
            &&& required == n
            &&& found < n
            &&& exists|i: int|
                    0 <= i < strata@.len() && (#[trigger] strata@[i].dir@) == stratum@
                        && strata@[i].files@.len() == found
                        && (forall|j: int| 0 <= j < i ==> strata@[j].files@.len() >= n as int)
        },
{
    // Defensive check: every discovered path must lie under the input root,
    // else the plan would write outside the output tree.
    let mut i: usize = 0;
    while i < strata.len()
        invariant
            i <= strata@.len(),
            forall|t: int| 0 <= t < i ==> stratum_under(#[trigger] strata@[t], in_root@),
        decreases strata@.len() - i,
    {
        let s = &strata[i];
        if !is_under_root(&s.dir, in_root) {
            let path = copy_bytes(&s.dir);
            proof {
                assert(!stratum_under(strata@[i as int], in_root@));
                assert(occurs_in(strata@, path@));
            }
            return Err(PlanError::PathOutsideRoot { path });
        }
        let mut k: usize = 0;
        while k < s.files.len()
            invariant
                k <= s.files@.len(),
                forall|t: int| 0 <= t < k ==> under_root(#[trigger] s.files@[t]@, in_root@),
            decreases s.files@.len() - k,
        {
            if !is_under_root(&s.files[k], in_root) {
                let path = copy_bytes(&s.files[k]);
                proof {
                    assert(!stratum_under(strata@[i as int], in_root@));
                    assert(strata@[i as int].files@[k as int]@ == path@);
                    assert(occurs_in(strata@, path@));
                }
                return Err(PlanError::PathOutsideRoot { path });
            }
            k += 1;
        }
        proof {
            assert(stratum_under(strata@[i as int], in_root@));
        }
        i += 1;
    }
    assert(all_under(strata@, in_root@));

    let strict: bool = match policy {
        Policy::Strict => true,
        Policy::Lenient => false,
    };
    assert(strict == (policy is Strict));
    if strict {
        let mut i: usize = 0;
        while i < strata.len()
            invariant
                i <= strata@.len(),
                forall|j: int| 0 <= j < i ==> strata@[j].files@.len() >= n as int,
            decreases strata@.len() - i,
        {
            let s = &strata[i];
            if s.files.len() < n {
                let stratum = copy_bytes(&s.dir);
                let found = s.files.len();
                return Err(PlanError::InsufficientItems { stratum, found, required: n });
            }
            i += 1;
        }
        assert(counts_ok(strata@, n as int));
    }

    let mut dirs: Vec<Vec<u8>> = Vec::new();
    let mut copies: Vec<Vec<CopyOp>> = Vec::new();
    let mut i: usize = 0;
    while i < strata.len()
        invariant
            i <= strata@.len(),
            all_under(strata@, in_root@),
            dirs@.len() == i,
            copies@.len() == i,
            forall|t: int|
                0 <= t < i ==> (#[trigger] dirs@[t]@) == mapped(strata@[t].dir@, in_root@, out_root@),
            forall|t: int|
                0 <= t < i
                    ==> stratum_copies_ok(#[trigger] copies@[t]@, strata@[t], in_root@, out_root@, n as int),
        decreases strata@.len() - i,
    {
        let s = &strata[i];
        proof {
            assert(stratum_under(strata@[i as int], in_root@));
        }
        let d = map_under(&s.dir, in_root, out_root);
        let sampled = sample_from(&s.files, n);
        let ghost picks: Seq<int> = choose|picks: Seq<int>| valid_sample(picks, s.files@, sampled@);
        proof {
            assert forall|t: int| 0 <= t < sampled@.len() implies under_root(
                sampled@[t]@,
                in_root@,
            ) by {
                assert(0 <= picks[t] < s.files@.len());
                assert(sampled@[t]@ == s.files@[picks[t]]@);
                assert(under_root(s.files@[picks[t]]@, in_root@));
            }
        }
        let mut ops: Vec<CopyOp> = Vec::new();
        let mut t: usize = 0;
        while t < sampled.len()
            invariant
                t <= sampled@.len(),
                ops@.len() == t,
                forall|u: int| 0 <= u < sampled@.len() ==> under_root(#[trigger] sampled@[u]@, in_root@),
                forall|u: int| 0 <= u < t ==> (#[trigger] ops@[u].src@) == sampled@[u]@,
                forall|u: int|
                    0 <= u < t ==> (#[trigger] ops@[u].dst@) == mapped(ops@[u].src@, in_root@, out_root@),
            decreases sampled@.len() - t,
        {
            let src = copy_bytes(&sampled[t]);
            let dst = map_under(&src, in_root, out_root);
            let op = CopyOp { src, dst };
            let ghost opg: CopyOp = op;
            proof {
                assert(opg.src@ == sampled@[t as int]@);
                assert(opg.dst@ == mapped(opg.src@, in_root@, out_root@));
            }
            let ghost ops_before: Seq<CopyOp> = ops@;
            ops.push(op);
            proof {
                assert(ops@ == ops_before.push(opg));
                assert forall|u: int| 0 <= u < t + 1 implies (#[trigger] ops@[u].dst@)
                    == mapped(ops@[u].src@, in_root@, out_root@) by {
                    if u < t {
                        assert(ops@[u] == ops_before[u]);
                        assert(ops_before[u].dst@ == mapped(ops_before[u].src@, in_root@, out_root@));
                    } else {
                        assert(ops@[u] == opg);
                        assert(opg.dst@ == mapped(opg.src@, in_root@, out_root@));
                    }
                }
            }
            t += 1;
        }
        proof {
            assert(srcs_of(ops@).len() == sampled@.len());
            assert forall|u: int| 0 <= u < sampled@.len() implies srcs_of(ops@)[u]@ == sampled@[u]@ by {
                assert(ops@[u].src@ == sampled@[u]@);
            }
            assert(valid_sample(picks, s.files@, srcs_of(ops@)));
            assert(stratum_copies_ok(ops@, strata@[i as int], in_root@, out_root@, n as int));
        }
        dirs.push(d);
        copies.push(ops);
        i += 1;
    }
    Ok(Plan { dirs, copies })
}

} // verus!
