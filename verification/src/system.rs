//! Memory and disk totals of the machine, from per-disk readings.
//! CPU usage, a floating-point average, is computed outside this crate.

use vstd::prelude::*;

verus! {

/// The space of one disk, in bytes.
#[derive(Clone, Copy, Debug, PartialEq, Eq, Structural)]
pub struct DiskReading {
    pub total_space: u64,
    pub available_space: u64,
}

/// The sum of the total space of `disks`.
pub open spec fn total_space_sum(disks: Seq<DiskReading>) -> int
    decreases disks.len(),
{
    if disks.len() == 0 {
        0
    } else {
        total_space_sum(disks.drop_last()) + disks.last().total_space
    }
}

/// The sum, over `disks`, of the space that is not available.
pub open spec fn used_space_sum(disks: Seq<DiskReading>) -> int
    decreases disks.len(),
{
    if disks.len() == 0 {
        0
    } else {
        used_space_sum(disks.drop_last()) + (disks.last().total_space
            - disks.last().available_space)
    }
}

/// Every disk reports no more available space than it has.
pub open spec fn readings_consistent(disks: Seq<DiskReading>) -> bool {
    forall|i: int| 0 <= i < disks.len() ==> #[trigger] disks[i].available_space <= disks[i].total_space
}

/// Used space never exceeds total space, and neither goes below zero,
/// when every disk reports consistently.
pub proof fn lemma_used_within_total(disks: Seq<DiskReading>)
    requires
        readings_consistent(disks),
    ensures
        0 <= used_space_sum(disks) <= total_space_sum(disks),
    decreases disks.len(),
{
    if disks.len() > 0 {
        assert(readings_consistent(disks.drop_last())) by {
            assert forall|i: int| 0 <= i < disks.drop_last().len() implies #[trigger] disks.drop_last()[i].available_space
                <= disks.drop_last()[i].total_space by {
                assert(disks.drop_last()[i] == disks[i]);
            }
        }
        assert(disks.last() == disks[disks.len() - 1]);
        lemma_used_within_total(disks.drop_last());
    }
}

/// The sums over a prefix never exceed the sums over the whole list.
proof fn lemma_prefix_sums(disks: Seq<DiskReading>, k: int)
    requires
        0 <= k <= disks.len(),
        readings_consistent(disks),
    ensures
        total_space_sum(disks.take(k)) <= total_space_sum(disks),
        used_space_sum(disks.take(k)) <= used_space_sum(disks),
    decreases disks.len() - k,
{
    if k < disks.len() {
        assert(disks.take(k + 1).drop_last() =~= disks.take(k));
        assert(disks.take(k + 1).last() == disks[k]);
        assert(disks[k].available_space <= disks[k].total_space);
        lemma_prefix_sums(disks, k + 1);
    } else {
        assert(disks.take(k) =~= disks);
    }
}

/// Memory and disk totals, in bytes.
#[derive(Clone, Copy, Debug, PartialEq, Eq, Structural)]
pub struct ResourceTotals {
    pub memory_total: u64,
    pub memory_used: u64,
    pub disk_total: u64,
    pub disk_used: u64,
}

impl ResourceTotals {
    /// The totals from the memory figures and the readings of every
    /// disk: the sum of the disks' total space, and the sum of the space
    /// each has that is not available.
    pub fn from_readings(memory_total: u64, memory_used: u64, disks: &Vec<DiskReading>) -> (r: Self)
        requires
            readings_consistent(disks@),
            total_space_sum(disks@) <= u64::MAX,
        ensures
            r.memory_total == memory_total,
            r.memory_used == memory_used,
            r.disk_total == total_space_sum(disks@),
            r.disk_used == used_space_sum(disks@),
            r.disk_used <= r.disk_total,
    {
        let mut total: u64 = 0;
        let mut used: u64 = 0;
        let mut i: usize = 0;
        proof {
            lemma_used_within_total(disks@);
        }
        while i < disks.len()
            invariant
                i <= disks.len(),
                readings_consistent(disks@),
                total_space_sum(disks@) <= u64::MAX,
                total == total_space_sum(disks@.take(i as int)),
                used == used_space_sum(disks@.take(i as int)),
            decreases disks.len() - i,
        {
            let d = disks[i];
            proof {
                assert(disks@.take(i + 1).drop_last() =~= disks@.take(i as int));
                assert(disks@.take(i + 1).last() == d);
                assert(d.available_space <= d.total_space);
                lemma_prefix_sums(disks@, i + 1);
                lemma_used_within_total(disks@.take(i + 1));
                assert(readings_consistent(disks@.take(i + 1))) by {
                    assert forall|j: int| 0 <= j < disks@.take(i + 1).len() implies #[trigger] disks@.take(i + 1)[j].available_space
                        <= disks@.take(i + 1)[j].total_space by {
                        assert(disks@.take(i + 1)[j] == disks@[j]);
                    }
                }
            }
            total = total + d.total_space;
            used = used + (d.total_space - d.available_space);
            i = i + 1;
        }
        assert(disks@.take(disks.len() as int) =~= disks@);
        ResourceTotals { memory_total, memory_used, disk_total: total, disk_used: used }
    }
}


/// Each disk adds its own figures to the sums, whatever the disks before
/// it are; no disks sum to zero.
pub proof fn lemma_each_disk_counts(disks: Seq<DiskReading>, d: DiskReading)
    ensures
        total_space_sum(Seq::<DiskReading>::empty()) == 0,
        used_space_sum(Seq::<DiskReading>::empty()) == 0,
        total_space_sum(disks.push(d)) == total_space_sum(disks) + d.total_space,
        used_space_sum(disks.push(d)) == used_space_sum(disks) + (d.total_space
            - d.available_space),
{
    assert(disks.push(d).drop_last() =~= disks);
}

/// The sums over two lists of disks, one after the other, are the sums
/// of each: the order and grouping of the disks does not matter.
pub proof fn lemma_sums_split(a: Seq<DiskReading>, b: Seq<DiskReading>)
    ensures
        total_space_sum(a + b) == total_space_sum(a) + total_space_sum(b),
        used_space_sum(a + b) == used_space_sum(a) + used_space_sum(b),
    decreases b.len(),
{
    if b.len() == 0 {
        assert(a + b =~= a);
    } else {
        lemma_sums_split(a, b.drop_last());
        assert((a + b).drop_last() =~= a + b.drop_last());
        assert((a + b).last() == b.last());
    }
}

} // verus!
