use vstd::prelude::*;

use crate::arith::{add_bits, add_of, div_bits, div_of, from_count_bits, from_count_of};
use crate::bits::{
    is_finite_bits, is_finite_exec, is_nan_bits, lemma_finite_above_neg_inf,
    lemma_finite_below_pos_inf, max_bits, max_bits_exec, min_bits, min_bits_exec, total_le,
    total_le_exec, NEG_INF_BITS, NEG_ZERO_BITS, POS_INF_BITS, POS_ZERO_BITS,
};

verus! {

/// The running summary: how many observations arrived, and the bit
/// patterns of their minimum, their maximum and their rounded sum. While
/// no observation has arrived, `min` holds positive infinity, `max`
/// negative infinity and `sum` positive zero.
#[derive(Clone, Copy, Debug, PartialEq, Eq)]
pub struct SummaryStatistics {
    pub count: i64,
    pub min: u64,
    pub max: u64,
    pub sum: u64,
}

/// The read-only view of a summary handed out by `info`: the internal
/// infinity sentinels are never exposed; with no observation, minimum and
/// maximum are reported as absent.
#[derive(Clone, Copy, Debug, PartialEq, Eq)]
pub struct InfoSnapshot {
    pub count: i64,
    pub min: Option<u64>,
    pub max: Option<u64>,
    pub sum: u64,
}

/// The empty summary: the neutral element of `merge`.
pub open spec fn identity_spec() -> SummaryStatistics {
    SummaryStatistics { count: 0, min: POS_INF_BITS, max: NEG_INF_BITS, sum: POS_ZERO_BITS }
}

impl SummaryStatistics {
    /// A summary is well formed when the count is non-negative, an empty
    /// summary is exactly the identity, and a non-empty one holds finite
    /// minimum and maximum in order.
    pub open spec fn wf(self) -> bool {
        &&& self.count >= 0
        &&& (self.count == 0 ==> self == identity_spec())
        &&& (self.count > 0 ==> is_finite_bits(self.min) && is_finite_bits(self.max) && total_le(
            self.min,
            self.max,
        ))
    }

    /// What accepting one observation does to the summary.
    pub open spec fn accept_spec(self, value: u64) -> SummaryStatistics {
        SummaryStatistics {
            count: (self.count + 1) as i64,
            min: min_bits(self.min, value),
            max: max_bits(self.max, value),
            sum: add_of(self.sum, value),
        }
    }

    /// What absorbing another summary does to this one.
    pub open spec fn merge_spec(self, other: SummaryStatistics) -> SummaryStatistics {
        SummaryStatistics {
            count: (self.count + other.count) as i64,
            min: min_bits(self.min, other.min),
            max: max_bits(self.max, other.max),
            sum: add_of(self.sum, other.sum),
        }
    }

    /// The reported average: the rounded quotient of sum and count, or
    /// positive zero while no observation has arrived.
    pub open spec fn average_spec(self) -> u64 {
        if self.count > 0 {
            div_of(self.sum, from_count_of(self.count as u64))
        } else {
            POS_ZERO_BITS
        }
    }

    /// The reported view of the four fields.
    pub open spec fn snapshot_spec(self) -> InfoSnapshot {
        InfoSnapshot {
            count: self.count,
            min: if self.count == 0 {
                None
            } else {
                Some(self.min)
            },
            max: if self.count == 0 {
                None
            } else {
                Some(self.max)
            },
            sum: self.sum,
        }
    }

    /// A fresh, empty summary.
    pub fn identity() -> (r: SummaryStatistics)
        ensures
            r == identity_spec(),
            r.wf(),
    {
        SummaryStatistics { count: 0, min: POS_INF_BITS, max: NEG_INF_BITS, sum: POS_ZERO_BITS }
    }

    /// Record one finite observation: the count rises by one, minimum and
    /// maximum take the observation in, and it is added to the sum.
    pub fn accept(&mut self, value: u64) -> (r: i64)
        requires
            old(self).wf(),
            is_finite_bits(value),
            old(self).count < i64::MAX,
        ensures
            *final(self) == old(self).accept_spec(value),
            final(self).wf(),
            r == final(self).count,
    {
        proof {
            lemma_finite_below_pos_inf(value);
            lemma_finite_above_neg_inf(value);
        }
        self.count = self.count + 1;
        self.min = min_bits_exec(self.min, value);
        self.max = max_bits_exec(self.max, value);
        self.sum = add_bits(self.sum, value);
        self.count
    }

    /// Absorb another summary, which is read only: counts and sums add,
    /// minimum and maximum take the other side's in. Absorbing the
    /// identity leaves the summary unchanged, as long as its sum is
    /// neither a NaN nor negative zero.
    pub fn merge(&mut self, other: &SummaryStatistics) -> (r: i64)
        requires
            old(self).wf(),
            other.wf(),
            old(self).count + other.count <= i64::MAX,
        ensures
            *final(self) == old(self).merge_spec(*other),
            final(self).wf(),
            r == final(self).count,
            *other == identity_spec() && !is_nan_bits(old(self).sum) && old(self).sum
                != NEG_ZERO_BITS ==> *final(self) == *old(self),
    {
        proof {
            if other.count > 0 {
                lemma_finite_below_pos_inf(other.min);
                lemma_finite_above_neg_inf(other.max);
            }
            if old(self).count > 0 {
                lemma_finite_below_pos_inf(self.min);
                lemma_finite_above_neg_inf(self.max);
            }
        }
        self.count = self.count + other.count;
        self.min = min_bits_exec(self.min, other.min);
        self.max = max_bits_exec(self.max, other.max);
        self.sum = add_bits(self.sum, other.sum);
        self.count
    }

    /// The reported average.
    pub fn average(&self) -> (r: u64)
        ensures
            r == self.average_spec(),
    {
        if self.count > 0 {
            div_bits(self.sum, from_count_bits(self.count as u64))
        } else {
            POS_ZERO_BITS
        }
    }

    /// Executable well-formedness test, used when decoding a blob.
    pub fn is_wf(&self) -> (r: bool)
        ensures
            r == self.wf(),
    {
        if self.count < 0 {
            false
        } else if self.count == 0 {
            self.min == POS_INF_BITS && self.max == NEG_INF_BITS && self.sum == POS_ZERO_BITS
        } else {
            is_finite_exec(self.min) && is_finite_exec(self.max) && total_le_exec(
                self.min,
                self.max,
            )
        }
    }

    /// The reported view of the four fields.
    pub fn snapshot(&self) -> (r: InfoSnapshot)
        ensures
            r == self.snapshot_spec(),
    {
        InfoSnapshot {
            count: self.count,
            min: if self.count == 0 {
                None
            } else {
                Some(self.min)
            },
            max: if self.count == 0 {
                None
            } else {
                Some(self.max)
            },
            sum: self.sum,
        }
    }
}

impl Default for SummaryStatistics {
    /// The default summary is the identity.
    fn default() -> (r: SummaryStatistics)
        ensures
            r == identity_spec(),
            r.wf(),
    {
        SummaryStatistics::identity()
    }
}

/// The summary reached by starting from the identity and accepting, in
/// order, every value of a sequence.
pub open spec fn accumulated(vs: Seq<u64>) -> SummaryStatistics
    decreases vs.len(),
{
    if vs.len() == 0 {
        identity_spec()
    } else {
        accumulated(vs.drop_last()).accept_spec(vs.last())
    }
}

/// The least bit pattern of a sequence in the total order, starting from
/// the positive-infinity sentinel.
pub open spec fn seq_min_bits(vs: Seq<u64>) -> u64
    decreases vs.len(),
{
    if vs.len() == 0 {
        POS_INF_BITS
    } else {
        min_bits(seq_min_bits(vs.drop_last()), vs.last())
    }
}

/// The greatest bit pattern of a sequence in the total order, starting
/// from the negative-infinity sentinel.
pub open spec fn seq_max_bits(vs: Seq<u64>) -> u64
    decreases vs.len(),
{
    if vs.len() == 0 {
        NEG_INF_BITS
    } else {
        max_bits(seq_max_bits(vs.drop_last()), vs.last())
    }
}

/// The rounded running sum of a sequence, added up left to right from
/// positive zero.
pub open spec fn seq_sum_bits(vs: Seq<u64>) -> u64
    decreases vs.len(),
{
    if vs.len() == 0 {
        POS_ZERO_BITS
    } else {
        add_of(seq_sum_bits(vs.drop_last()), vs.last())
    }
}

/// Every pattern of the sequence encodes a finite value.
pub open spec fn all_finite(vs: Seq<u64>) -> bool {
    forall|i: int| 0 <= i < vs.len() ==> is_finite_bits(#[trigger] vs[i])
}

/// Accumulation law: after any finite observations are accepted in order,
/// the count is their number, the minimum and maximum are the least and
/// greatest of them in the total order, and the sum is their rounded
/// running sum; the result is well formed.
pub proof fn lemma_accumulate(vs: Seq<u64>)
    requires
        all_finite(vs),
        vs.len() <= i64::MAX,
    ensures
        accumulated(vs).count == vs.len(),
        accumulated(vs).min == seq_min_bits(vs),
        accumulated(vs).max == seq_max_bits(vs),
        accumulated(vs).sum == seq_sum_bits(vs),
        accumulated(vs).wf(),
    decreases vs.len(),
{
    if vs.len() > 0 {
        assert(all_finite(vs.drop_last())) by {
            assert(forall|i: int|
                0 <= i < vs.drop_last().len() ==> vs.drop_last()[i] == vs[i] && is_finite_bits(
                    #[trigger] vs[i],
                ));
        }
        lemma_accumulate(vs.drop_last());
        lemma_finite_below_pos_inf(vs.last());
        lemma_finite_above_neg_inf(vs.last());
    }
}

} // verus!
