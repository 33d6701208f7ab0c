//! The number of logical CPUs the process may run on.
use vstd::prelude::*;

verus! {

/// The number of `true` entries of a CPU mask.
pub open spec fn count_set(mask: Seq<bool>) -> nat
    decreases mask.len(),
{
    if mask.len() == 0 {
        0
    } else {
        count_set(mask.drop_last()) + if mask.last() {
            1nat
        } else {
            0nat
        }
    }
}

/// The CPU count: the CPUs set in the affinity mask when the mask could be
/// read, else the count of online processors, at least one.
pub open spec fn logical_cpu_count(affinity: Option<Seq<bool>>, online: int) -> int {
    match affinity {
        Some(mask) => count_set(mask) as int,
        None => if online < 1 {
            1
        } else {
            online
        },
    }
}

proof fn lemma_count_set_bound(mask: Seq<bool>)
    ensures
        count_set(mask) <= mask.len(),
    decreases mask.len(),
{
    if mask.len() > 0 {
        lemma_count_set_bound(mask.drop_last());
    }
}

/// The logical CPU count from the process's affinity mask (one entry per
/// CPU, `None` when the query failed) and the system's count of online
/// processors, which may be an error value below one.
pub fn logical_cpus_from(affinity: Option<&Vec<bool>>, online: i64) -> (r: u64)
    ensures
        r as int == logical_cpu_count(
            match affinity {
                Some(m) => Some(m@),
                None => None,
            },
            online as int,
        ),
{
    match affinity {
        Some(mask) => {
            let mut count: u64 = 0;
            let mut i: usize = 0;
            while i < mask.len()
                invariant
                    i <= mask@.len(),
                    count as nat == count_set(mask@.subrange(0, i as int)),
                decreases mask@.len() - i,
            {
                proof {
                    assert(mask@.subrange(0, i + 1).drop_last() =~= mask@.subrange(0, i as int));
                    lemma_count_set_bound(mask@.subrange(0, i as int));
                }
                if mask[i] {
                    count = count + 1;
                }
                i = i + 1;
            }
            assert(mask@.subrange(0, i as int) =~= mask@);
            count
        },
        None => {
            if online < 1 {
                1
            } else {
                online as u64
            }
        },
    }
}

} // verus!
