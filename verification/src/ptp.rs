//! PTP (IEEE 1588): data types and the best master clock algorithm.
//!
//! Two clock datasets decide which of two clocks is the better master. Where the
//! timestamps come from does not touch that decision.

pub mod laws;
pub mod servo;
pub mod slave;
pub mod wire;

use crate::bytes;
use vstd::prelude::*;

verus! {

/// An EUI-64 clock identity.
pub type ClockIdentity = [u8; 8];

/// The announced dataset of a clock, as the best master clock algorithm reads it.
#[derive(Debug, Clone, Copy, PartialEq, Eq)]
pub struct ClockDataset {
    pub priority1: u8,
    pub clock_class: u8,
    pub clock_accuracy: u8,
    /// `offsetScaledLogVariance`, a measure of stability.
    pub offset_scaled_log_variance: u16,
    pub priority2: u8,
    pub clock_identity: ClockIdentity,
    /// Number of boundary clocks on the way to this clock.
    pub steps_removed: u16,
}

/// Outcome of a comparison, seen from `a`.
#[derive(Debug, Clone, Copy, PartialEq, Eq, Structural)]
pub enum BmcaOrder {
    /// `a` is the better master clock.
    ABetter,
    /// `b` is the better master clock.
    BBetter,
    /// The same clock (the identities are equal).
    Same,
}

impl ClockDataset {
    /// The compared fields as one number, the field that counts most in the
    /// highest digits: priority1, class, accuracy, variance, priority2.
    pub open spec fn quality(self) -> int {
        self.priority1 * 0x100_0000_0000 + self.clock_class * 0x1_0000_0000 + self.clock_accuracy
            * 0x100_0000 + self.offset_scaled_log_variance * 0x100 + self.priority2
    }

    /// The identity as a number, which orders identities byte by byte.
    pub open spec fn identity_number(self) -> u64 {
        bytes::u64_at(self.clock_identity@, 0)
    }

    /// Whether this clock comes before `other`: the smaller quality is the
    /// better, and between equals the smaller identity.
    pub open spec fn before(self, other: ClockDataset) -> bool {
        ||| self.quality() < other.quality()
        ||| self.quality() == other.quality() && self.identity_number() < other.identity_number()
    }

    /// Whether both datasets are announced by the same clock.
    pub open spec fn same_clock(self, other: ClockDataset) -> bool {
        self.clock_identity@ == other.clock_identity@
    }

    /// What comparing `a` with `b` gives.
    pub open spec fn ordered(a: ClockDataset, b: ClockDataset) -> BmcaOrder {
        if a.same_clock(b) {
            BmcaOrder::Same
        } else if a.before(b) {
            BmcaOrder::ABetter
        } else {
            BmcaOrder::BBetter
        }
    }

    /// The compared fields as one number.
    fn quality_number(&self) -> (q: u64)
        ensures
            q == self.quality(),
    {
        self.priority1 as u64 * 0x100_0000_0000 + self.clock_class as u64 * 0x1_0000_0000
            + self.clock_accuracy as u64 * 0x100_0000 + self.offset_scaled_log_variance as u64
            * 0x100 + self.priority2 as u64
    }

    /// Compares two clocks: lexicographically by priority1, clockClass,
    /// clockAccuracy, offsetScaledLogVariance, priority2 and clockIdentity,
    /// where **smaller is better**. Datasets of one clock compare as `Same`.
    pub fn compare(a: &ClockDataset, b: &ClockDataset) -> (r: BmcaOrder)
        ensures
            r == Self::ordered(*a, *b),
    {
        if bytes::same_bytes(&a.clock_identity, &b.clock_identity) {
            return BmcaOrder::Same;
        }
        let qa: u64 = a.quality_number();
        let qb: u64 = b.quality_number();
        if qa < qb {
            BmcaOrder::ABetter
        } else if qa > qb {
            BmcaOrder::BBetter
        } else if bytes::get_u64(&a.clock_identity, 0) < bytes::get_u64(&b.clock_identity, 0) {
            BmcaOrder::ABetter
        } else {
            BmcaOrder::BBetter
        }
    }

    /// The position of the clock that wins when each of the clocks in turn is
    /// held against the best one before it.
    pub open spec fn best_index(datasets: Seq<ClockDataset>) -> int
        recommends
            datasets.len() > 0,
        decreases datasets.len(),
    {
        if datasets.len() <= 1 {
            0
        } else {
            let prev = Self::best_index(datasets.drop_last());
            if Self::ordered(datasets[prev], datasets.last()) == BmcaOrder::BBetter {
                datasets.len() - 1
            } else {
                prev
            }
        }
    }

    /// The best of a set of clocks; `None` where it is empty.
    pub fn best<'a>(datasets: &'a [ClockDataset]) -> (r: Option<&'a ClockDataset>)
        ensures
            datasets@.len() == 0 ==> r is None,
            datasets@.len() > 0 ==> r == Some(&datasets@[Self::best_index(datasets@)]),
    {
        if datasets.len() == 0 {
            return None;
        }
        let mut best: usize = 0;
        let mut i: usize = 1;
        while i < datasets.len()
            invariant
                1 <= i <= datasets@.len(),
                best < i,
                best == Self::best_index(datasets@.take(i as int)),
            decreases datasets@.len() - i,
        {
            assert(datasets@.take(i + 1).drop_last() =~= datasets@.take(i as int));
            assert(datasets@.take(i + 1)[best as int] == datasets@[best as int]);
            match ClockDataset::compare(&datasets[best], &datasets[i]) {
                BmcaOrder::BBetter => {
                    best = i;
                },
                _ => {},
            }
            i = i + 1;
        }
        assert(datasets@.take(datasets@.len() as int) =~= datasets@);
        Some(&datasets[best])
    }
}

/// Two identities with the same number are the same eight bytes.
proof fn lemma_identity_number_injective(a: ClockDataset, b: ClockDataset)
    requires
        a.identity_number() == b.identity_number(),
    ensures
        a.clock_identity@ == b.clock_identity@,
{
    let x = a.clock_identity@;
    let y = b.clock_identity@;
    lemma_u32_injective(x, y, 0);
    lemma_u32_injective(x, y, 4);
    assert(x =~= y);
}

/// Equal 32-bit numbers have equal bytes.
proof fn lemma_u32_injective(x: Seq<u8>, y: Seq<u8>, i: int)
    requires
        bytes::u32_at(x, i) == bytes::u32_at(y, i),
    ensures
        x[i] == y[i],
        x[i + 1] == y[i + 1],
        x[i + 2] == y[i + 2],
        x[i + 3] == y[i + 3],
{
}

/// Swapping the two clocks swaps the outcome.
pub proof fn compare_is_antisymmetric(a: ClockDataset, b: ClockDataset)
    ensures
        ClockDataset::ordered(a, b) == BmcaOrder::ABetter <==> ClockDataset::ordered(b, a)
            == BmcaOrder::BBetter,
        ClockDataset::ordered(a, b) == BmcaOrder::Same <==> ClockDataset::ordered(b, a)
            == BmcaOrder::Same,
{
    if a.identity_number() == b.identity_number() {
        lemma_identity_number_injective(a, b);
    }
}

/// Between three different clocks the order is transitive.
pub proof fn compare_is_transitive(a: ClockDataset, b: ClockDataset, c: ClockDataset)
    requires
        ClockDataset::ordered(a, b) == BmcaOrder::ABetter,
        ClockDataset::ordered(b, c) == BmcaOrder::ABetter,
        !a.same_clock(c),
    ensures
        ClockDataset::ordered(a, c) == BmcaOrder::ABetter,
{
}

/// The fields count in the order priority1, class, accuracy, variance,
/// priority2: the first of them that differs decides, and the smaller value wins.
pub proof fn first_difference_decides(a: ClockDataset, b: ClockDataset)
    requires
        !a.same_clock(b),
    ensures
        a.priority1 < b.priority1 ==> ClockDataset::ordered(a, b) == BmcaOrder::ABetter,
        a.priority1 == b.priority1 && a.clock_class < b.clock_class ==> ClockDataset::ordered(a, b)
            == BmcaOrder::ABetter,
        a.priority1 == b.priority1 && a.clock_class == b.clock_class && a.clock_accuracy
            < b.clock_accuracy ==> ClockDataset::ordered(a, b) == BmcaOrder::ABetter,
        a.priority1 == b.priority1 && a.clock_class == b.clock_class && a.clock_accuracy
            == b.clock_accuracy && a.offset_scaled_log_variance < b.offset_scaled_log_variance
            ==> ClockDataset::ordered(a, b) == BmcaOrder::ABetter,
        a.priority1 == b.priority1 && a.clock_class == b.clock_class && a.clock_accuracy
            == b.clock_accuracy && a.offset_scaled_log_variance == b.offset_scaled_log_variance
            && a.priority2 < b.priority2 ==> ClockDataset::ordered(a, b) == BmcaOrder::ABetter,
        a.quality() == b.quality() ==> (ClockDataset::ordered(a, b) == BmcaOrder::ABetter <==>
            a.identity_number() < b.identity_number()),
{
}

/// Where no two clocks of the set share an identity, none of them is better
/// than the one that is picked.
pub proof fn best_is_never_beaten(datasets: Seq<ClockDataset>)
    requires
        datasets.len() > 0,
        forall|i: int, j: int|
            0 <= i < j < datasets.len() ==> !(#[trigger] datasets[i]).same_clock(
                #[trigger] datasets[j],
            ),
    ensures
        0 <= ClockDataset::best_index(datasets) < datasets.len(),
        forall|i: int|
            0 <= i < datasets.len() ==> ClockDataset::ordered(
                #[trigger] datasets[i],
                datasets[ClockDataset::best_index(datasets)],
            ) != BmcaOrder::ABetter,
    decreases datasets.len(),
{
    if datasets.len() > 1 {
        let init = datasets.drop_last();
        best_is_never_beaten(init);
        let prev = ClockDataset::best_index(init);
        let best = ClockDataset::best_index(datasets);
        let last = datasets.last();
        compare_is_antisymmetric(datasets[prev], last);
        assert forall|i: int| 0 <= i < datasets.len() implies ClockDataset::ordered(
            #[trigger] datasets[i],
            datasets[best],
        ) != BmcaOrder::ABetter by {
            if i < init.len() {
                assert(datasets[i] == init[i]);
                compare_is_antisymmetric(datasets[i], datasets[prev]);
            }
        }
    }
}

} // verus!
