use vstd::prelude::*;
use crate::execution_result::VmExecutionResultAndLogs;
use crate::statistic::VmExecutionStatistics;

verus! {

/// A block: its number, its timestamp, and its transactions' results in order.
#[derive(Clone, Debug, PartialEq, Eq)]
pub struct L2Block {
    pub number: u64,
    pub timestamp: u64,
    pub tx_results: Vec<VmExecutionResultAndLogs>,
    /// The sum of the transactions' statistics.
    pub statistics: VmExecutionStatistics,
}

/// `b` may follow `a`: a greater number, a timestamp no smaller.
pub open spec fn may_follow(a: L2Block, b: L2Block) -> bool {
    a.number < b.number && a.timestamp <= b.timestamp
}

/// Block numbers strictly increase and timestamps never decrease.
pub open spec fn blocks_ordered(s: Seq<L2Block>) -> bool {
    forall|i: int, j: int|
        0 <= i < j < s.len() ==> s[i].number < s[j].number && s[i].timestamp <= s[j].timestamp
}

/// Appending a block that may follow the last keeps the order.
pub proof fn lemma_ordered_push(s: Seq<L2Block>, b: L2Block)
    requires
        blocks_ordered(s),
        s.len() > 0 ==> may_follow(s.last(), b),
    ensures
        blocks_ordered(s.push(b)),
{
    assert forall|i: int, j: int| 0 <= i < j < s.push(b).len() implies s.push(b)[i].number
        < s.push(b)[j].number && s.push(b)[i].timestamp <= s.push(b)[j].timestamp by {
        if j == s.len() && i < s.len() - 1 {
            assert(s[i].number < s[s.len() - 1].number);
        }
    }
}

/// The sum of the statistics of a sequence of blocks.
pub open spec fn blocks_statistics(s: Seq<L2Block>) -> VmExecutionStatistics
    decreases s.len(),
{
    if s.len() == 0 {
        VmExecutionStatistics::spec_zero()
    } else {
        blocks_statistics(s.drop_last()).spec_sum(s.last().statistics)
    }
}

impl L2Block {
    /// An empty block.
    pub fn new(number: u64, timestamp: u64) -> (r: Self)
        ensures
            r.number == number,
            r.timestamp == timestamp,
            r.tx_results@.len() == 0,
            r.statistics == VmExecutionStatistics::spec_zero(),
    {
        L2Block { number, timestamp, tx_results: Vec::new(), statistics: VmExecutionStatistics::zero() }
    }
}

} // verus!
