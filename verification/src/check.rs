//! The check flow's decision: which branches need building because their
//! PDF is missing, and which because their PDF is older than the source.
//! The caller supplies, for each branch, the PDF's modification time where
//! one exists at the canonical path.

use vstd::prelude::*;

use crate::branch::Branch;

verus! {

/// The positions of the branches whose PDF is absent, in order.
pub open spec fn missing_idxs(times: Seq<Option<u64>>) -> Seq<int>
    decreases times.len(),
{
    if times.len() == 0 {
        seq![]
    } else if times.last() is None {
        missing_idxs(times.drop_last()).push(times.len() - 1)
    } else {
        missing_idxs(times.drop_last())
    }
}

/// The positions of the branches whose PDF is older than the source, in
/// order.
pub open spec fn outdated_idxs(times: Seq<Option<u64>>, mods: Seq<u64>) -> Seq<int>
    decreases times.len(),
{
    if times.len() == 0 {
        seq![]
    } else if (times.last() matches Some(t) && t < mods[times.len() - 1]) {
        outdated_idxs(times.drop_last(), mods).push(times.len() - 1)
    } else {
        outdated_idxs(times.drop_last(), mods)
    }
}

/// The modification times of the branches, in order.
pub open spec fn mod_times(branches: Seq<Branch>) -> Seq<u64> {
    branches.map_values(|b: Branch| b.mod_time)
}

/// The positions as mathematical integers.
pub open spec fn idxs_view(v: Seq<usize>) -> Seq<int> {
    v.map_values(|x: usize| x as int)
}

/// Splits the branches into those missing a PDF and those whose PDF is
/// older than the source.  `pdf_times` holds, for each branch, the
/// modification time of the file at its canonical PDF path, or `None` when
/// no PDF exists there.
pub fn needs_building(branches: &Vec<Branch>, pdf_times: &Vec<Option<u64>>) -> (r: (
    Vec<usize>,
    Vec<usize>,
))
    requires
        branches@.len() == pdf_times@.len(),
    ensures
        idxs_view(r.0@) == missing_idxs(pdf_times@),
        idxs_view(r.1@) == outdated_idxs(pdf_times@, mod_times(branches@)),
{
    let n = branches.len();
    let mut missing: Vec<usize> = Vec::new();
    let mut outdated: Vec<usize> = Vec::new();
    let mut i: usize = 0;
    proof {
        assert(pdf_times@.take(0) =~= Seq::<Option<u64>>::empty());
        assert(idxs_view(missing@) =~= missing_idxs(pdf_times@.take(0)));
        assert(idxs_view(outdated@) =~= outdated_idxs(pdf_times@.take(0), mod_times(branches@)));
    }
    while i < n
        invariant
            0 <= i <= n,
            n == branches@.len(),
            n == pdf_times@.len(),
            idxs_view(missing@) == missing_idxs(pdf_times@.take(i as int)),
            idxs_view(outdated@) == outdated_idxs(pdf_times@.take(i as int), mod_times(branches@)),
        decreases n - i,
    {
        proof {
            assert(pdf_times@.take(i + 1).drop_last() =~= pdf_times@.take(i as int));
            assert(pdf_times@.take(i + 1).last() == pdf_times@[i as int]);
            assert(mod_times(branches@)[i as int] == branches@[i as int].mod_time);
        }
        let ghost old_missing = missing@;
        let ghost old_outdated = outdated@;
        match pdf_times[i] {
            None => {
                missing.push(i);
                proof {
                    assert(idxs_view(missing@) =~= idxs_view(old_missing).push(i as int));
                }
            },
            Some(t) => {
                if t < branches[i].mod_time {
                    outdated.push(i);
                    proof {
                        assert(idxs_view(outdated@) =~= idxs_view(old_outdated).push(i as int));
                    }
                }
            },
        }
        i = i + 1;
    }
    proof {
        assert(pdf_times@.take(n as int) =~= pdf_times@);
    }
    (missing, outdated)
}

} // verus!
