//! The in-process append-only log of checkpoint summaries, with O(1)
//! latest-sequence lookup and a running transaction total.

use vstd::prelude::*;

use crate::messages::{CheckpointSummary, CheckpointSummaryView};

verus! {

/// The sum of the transaction counts of `s`.
pub open spec fn total_count(s: Seq<CheckpointSummaryView>) -> int
    decreases s.len(),
{
    if s.len() == 0 {
        0
    } else {
        total_count(s.drop_last()) + s.last().transaction_count
    }
}

/// A prefix never sums to more than the whole.
proof fn lemma_total_prefix(s: Seq<CheckpointSummaryView>, i: int)
    requires
        0 <= i <= s.len(),
    ensures
        total_count(s.subrange(0, i)) <= total_count(s),
    decreases s.len() - i,
{
    if i == s.len() {
        assert(s.subrange(0, i) =~= s);
    } else {
        lemma_total_prefix(s, i + 1);
        let sub = s.subrange(0, i + 1);
        assert(sub.drop_last() =~= s.subrange(0, i));
        assert(total_count(sub) == total_count(s.subrange(0, i)) + s[i].transaction_count);
    }
}

/// Append-only log of checkpoint summaries.
pub struct CheckpointAggregator {
    summaries: Vec<CheckpointSummary>,
}

impl CheckpointAggregator {
    /// The recorded summaries in order.
    pub closed spec fn summaries(&self) -> Seq<CheckpointSummaryView> {
        self.summaries@.map_values(|s: CheckpointSummary| s@)
    }

    pub fn new() -> (r: Self)
        ensures
            r.summaries() == Seq::<CheckpointSummaryView>::empty(),
    {
        let r = CheckpointAggregator { summaries: Vec::new() };
        proof {
            assert(r.summaries() =~= Seq::<CheckpointSummaryView>::empty());
        }
        r
    }

    /// Appends one summary to the log.
    pub fn record(&mut self, summary: CheckpointSummary)
        ensures
            final(self).summaries() == old(self).summaries().push(summary@),
    {
        let ghost before = self.summaries();
        let ghost v = summary@;
        self.summaries.push(summary);
        proof {
            assert(self.summaries() =~= before.push(v));
        }
    }

    /// The most recently recorded summary, if any.
    pub fn latest(&self) -> (r: Option<&CheckpointSummary>)
        ensures
            match r {
                Some(s) => self.summaries().len() > 0 && s@ == self.summaries().last(),
                None => self.summaries().len() == 0,
            },
    {
        let n = self.summaries.len();
        if n == 0 {
            None
        } else {
            Some(&self.summaries[n - 1])
        }
    }

    /// The total number of transactions the recorded summaries cover.
    pub fn total_transactions(&self) -> (r: usize)
        requires
            total_count(self.summaries()) <= usize::MAX,
        ensures
            r == total_count(self.summaries()),
    {
        let mut acc: usize = 0;
        let mut i: usize = 0;
        let n = self.summaries.len();
        while i < n
            invariant
                0 <= i <= n,
                n == self.summaries@.len(),
                total_count(self.summaries()) <= usize::MAX,
                acc == total_count(self.summaries().subrange(0, i as int)),
            decreases n - i,
        {
            proof {
                let sub = self.summaries().subrange(0, i as int + 1);
                assert(sub.drop_last() =~= self.summaries().subrange(0, i as int));
                assert(sub.last() == self.summaries()[i as int]);
                lemma_total_prefix(self.summaries(), i as int + 1);
            }
            acc = acc + self.summaries[i].transaction_count;
            i = i + 1;
        }
        proof {
            assert(self.summaries().subrange(0, n as int) =~= self.summaries());
        }
        acc
    }
}

} // verus!
