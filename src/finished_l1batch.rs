use vstd::prelude::*;
use crate::execution_result::{L2ToL1Message, VmExecutionResultAndLogs};
use crate::execution_state::{
    bytecodes_after, diffs_after, messages_after, BootloaderMemory, CurrentExecutionState,
    StateDiff,
};
use crate::l2_block::{blocks_ordered, blocks_statistics, lemma_ordered_push, L2Block};
use crate::execution_state::{bytes_view, diff_map, lemma_diff_map_index};
use crate::pubdata::{changed, lemma_pubdata_deterministic, lemma_sorted_distinct, PubdataInput};
use crate::statistic::VmExecutionStatistics;

verus! {

/// The diffs after a sequence of transactions, from an empty state.
pub open spec fn fold_diffs(txs: Seq<VmExecutionResultAndLogs>) -> Map<u64, StateDiff>
    decreases txs.len(),
{
    if txs.len() == 0 {
        Map::empty()
    } else {
        diffs_after(fold_diffs(txs.drop_last()), txs.last())
    }
}

/// The messages after a sequence of transactions, from an empty state.
pub open spec fn fold_messages(txs: Seq<VmExecutionResultAndLogs>) -> Seq<L2ToL1Message>
    decreases txs.len(),
{
    if txs.len() == 0 {
        Seq::empty()
    } else {
        messages_after(fold_messages(txs.drop_last()), txs.last())
    }
}

/// The bytecodes after a sequence of transactions, from an empty state.
pub open spec fn fold_bytecodes(txs: Seq<VmExecutionResultAndLogs>) -> Seq<Seq<u8>>
    decreases txs.len(),
{
    if txs.len() == 0 {
        Seq::empty()
    } else {
        bytecodes_after(fold_bytecodes(txs.drop_last()), txs.last())
    }
}

/// The statistics after a sequence of transactions, from zero.
pub open spec fn fold_statistics(txs: Seq<VmExecutionResultAndLogs>) -> VmExecutionStatistics
    decreases txs.len(),
{
    if txs.len() == 0 {
        VmExecutionStatistics::spec_zero()
    } else {
        fold_statistics(txs.drop_last()).spec_sum(txs.last().statistics)
    }
}

/// Two batches fed the same transactions in the same order publish the same
/// bytes and reach the same statistics.
pub proof fn lemma_batch_deterministic(
    a: L1BatchBuilder,
    b: L1BatchBuilder,
    p: PubdataInput,
    q: PubdataInput,
)
    requires
        a.wf(),
        b.wf(),
        a.history@ == b.history@,
        p.canonical_for(a.state),
        q.canonical_for(b.state),
    ensures
        p.spec_bytes() == q.spec_bytes(),
        a.state.statistics == b.state.statistics,
{
    lemma_pubdata_deterministic(p, q, a.state, b.state);
}

/// A batch without transactions publishes nothing and has zero statistics.
pub proof fn lemma_empty_batch(b: L1BatchBuilder, p: PubdataInput)
    requires
        b.wf(),
        b.history@.len() == 0,
        p.canonical_for(b.state),
    ensures
        p.state_diffs@.len() == 0,
        p.l2_to_l1_messages@.len() == 0,
        p.bytecodes@.len() == 0,
        b.state.statistics == VmExecutionStatistics::spec_zero(),
{
    if p.state_diffs@.len() > 0 {
        lemma_sorted_distinct(p.state_diffs@);
        lemma_diff_map_index(p.state_diffs@);
        assert(diff_map(p.state_diffs@).contains_key(p.state_diffs@[0].key));
        assert(!changed(b.state.diffs()).contains_key(p.state_diffs@[0].key));
    }
    assert(bytes_view(p.bytecodes@).len() == 0);
}

/// The statistics of two transactions appended in turn are their field-wise sum.
pub proof fn lemma_statistics_additive(t1: VmExecutionResultAndLogs, t2: VmExecutionResultAndLogs)
    requires
        t1.statistics.sum_fits(t2.statistics),
    ensures
        fold_statistics(seq![t1, t2]) == t1.statistics.spec_sum(t2.statistics),
{
    let s = seq![t1, t2];
    assert(s.drop_last() =~= seq![t1]);
    let s1 = seq![t1];
    assert(s1.drop_last() =~= Seq::<VmExecutionResultAndLogs>::empty());
    assert(s1.last() == t1);
    assert(fold_statistics(s1.drop_last()) == VmExecutionStatistics::spec_zero());
    assert(fold_statistics(s1) == VmExecutionStatistics::spec_zero().spec_sum(t1.statistics));
    assert(s.last() == t2);
}

/// A batch construction error: the caller broke the batch's protocol.
#[derive(Clone, Copy, Debug, PartialEq, Eq, Structural)]
pub enum BatchError {
    /// A block or transaction came after the batch was sealed.
    AppendAfterSeal,
    /// The batch was sealed before.
    DoubleSeal,
    /// A transaction came before any block was started.
    NoOpenBlock,
    /// A block's number is not above the previous one, or its timestamp below.
    BlockOrder,
    /// A statistics counter would overflow.
    StatisticsOverflow,
}

/// A sealed batch: its blocks, the memory snapshot, the pubdata and the
/// total statistics.
#[derive(Clone, Debug, PartialEq, Eq)]
pub struct FinishedL1Batch {
    pub l2_blocks: Vec<L2Block>,
    pub bootloader_memory: BootloaderMemory,
    pub pubdata: PubdataInput,
    pub pubdata_bytes: Vec<u8>,
    pub statistics: VmExecutionStatistics,
}

/// Builds a batch: blocks are started in order, transactions are appended
/// to the open block, and the batch is sealed once.
pub struct L1BatchBuilder {
    pub state: CurrentExecutionState,
    /// Blocks closed so far.
    pub l2_blocks: Vec<L2Block>,
    /// The block that takes transactions, if one was started.
    pub current: Option<L2Block>,
    pub sealed: bool,
    /// The transactions appended so far, in order.
    pub history: Ghost<Seq<VmExecutionResultAndLogs>>,
}

impl L1BatchBuilder {
    /// The blocks of the batch, the open one last.
    pub open spec fn blocks(self) -> Seq<L2Block> {
        match self.current {
            Some(b) => self.l2_blocks@.push(b),
            None => self.l2_blocks@,
        }
    }

    pub open spec fn wf(self) -> bool {
        &&& self.state.wf()
        &&& self.state.diffs() == fold_diffs(self.history@)
        &&& self.state.l2_to_l1_messages@ == fold_messages(self.history@)
        &&& self.state.bytecodes() == fold_bytecodes(self.history@)
        &&& self.state.statistics == fold_statistics(self.history@)
        &&& !self.sealed ==> blocks_ordered(self.blocks()) && blocks_statistics(self.blocks())
            == self.state.statistics
        &&& !self.sealed ==> (self.current matches Some(b) ==> blocks_statistics(
            self.l2_blocks@,
        ).sum_fits(b.statistics))
    }

    /// An open batch with no block.
    pub fn new() -> (r: Self)
        ensures
            r.wf(),
            !r.sealed,
            r.blocks().len() == 0,
            r.history@.len() == 0,
    {
        let r = L1BatchBuilder {
            state: CurrentExecutionState::new(),
            l2_blocks: Vec::new(),
            current: None,
            sealed: false,
            history: Ghost(Seq::empty()),
        };
        assert(r.state.l2_to_l1_messages@ =~= fold_messages(r.history@));
        assert(r.state.bytecodes() =~= fold_bytecodes(r.history@));
        r
    }

    /// Closes the open block, if any, and opens a new one. Fails on a sealed
    /// batch, and where the number is not above the last block's or the
    /// timestamp below it.
    pub fn start_l2_block(&mut self, number: u64, timestamp: u64) -> (r: Result<(), BatchError>)
        requires
            old(self).wf(),
        ensures
            final(self).wf(),
            old(self).sealed ==> r == Err::<(), BatchError>(BatchError::AppendAfterSeal),
            !old(self).sealed && old(self).blocks().len() > 0 && !(old(self).blocks().last().number
                < number && old(self).blocks().last().timestamp <= timestamp) ==> r == Err::<
                (),
                BatchError,
            >(BatchError::BlockOrder),
            r is Ok <==> !old(self).sealed && (old(self).blocks().len() == 0 || (
            old(self).blocks().last().number < number && old(self).blocks().last().timestamp
                <= timestamp)),
            r is Err ==> *final(self) == *old(self),
            r is Ok ==> {
                &&& final(self).blocks().len() == old(self).blocks().len() + 1
                &&& final(self).blocks().drop_last() == old(self).blocks()
                &&& final(self).blocks().last().number == number
                &&& final(self).blocks().last().timestamp == timestamp
                &&& final(self).blocks().last().tx_results@.len() == 0
                &&& final(self).state == old(self).state
                &&& final(self).history == old(self).history
                &&& !final(self).sealed
            },
    {
        if self.sealed {
            return Err(BatchError::AppendAfterSeal);
        }
        let ghost before = self.blocks();
        match &self.current {
            Some(b) => {
                if !(b.number < number && b.timestamp <= timestamp) {
                    return Err(BatchError::BlockOrder);
                }
            },
            None => {
                if self.l2_blocks.len() > 0 {
                    let last = &self.l2_blocks[self.l2_blocks.len() - 1];
                    if !(last.number < number && last.timestamp <= timestamp) {
                        return Err(BatchError::BlockOrder);
                    }
                }
            },
        }
        let prev = self.current.take();
        match prev {
            Some(b) => {
                self.l2_blocks.push(b);
            },
            None => {},
        }
        assert(self.l2_blocks@ == before);
        let fresh = L2Block::new(number, timestamp);
        proof {
            lemma_ordered_push(before, fresh);
            assert(before.push(fresh).drop_last() =~= before);
            assert(blocks_statistics(before.push(fresh)) == blocks_statistics(before).spec_sum(
                fresh.statistics,
            ));
            assert(blocks_statistics(before).spec_sum(fresh.statistics) == blocks_statistics(
                before,
            ));
        }
        self.current = Some(fresh);
        Ok(())
    }

    /// Appends a transaction's result to the open block and folds it into
    /// the batch state. Fails on a sealed batch, when no block is open, and
    /// when a statistics counter would overflow.
    pub fn append_transaction(&mut self, tx: VmExecutionResultAndLogs) -> (r: Result<
        (),
        BatchError,
    >)
        requires
            old(self).wf(),
        ensures
            final(self).wf(),
            old(self).sealed ==> r == Err::<(), BatchError>(BatchError::AppendAfterSeal),
            !old(self).sealed && old(self).current is None ==> r == Err::<(), BatchError>(
                BatchError::NoOpenBlock,
            ),
            !old(self).sealed && old(self).current is Some && !old(
                self,
            ).state.statistics.sum_fits(tx.statistics) ==> r == Err::<(), BatchError>(
                BatchError::StatisticsOverflow,
            ),
            r is Ok <==> !old(self).sealed && old(self).current is Some && old(
                self,
            ).state.statistics.sum_fits(tx.statistics),
            r is Err ==> *final(self) == *old(self),
            r is Ok ==> {
                &&& final(self).history@ == old(self).history@.push(tx)
                &&& final(self).state.diffs() == diffs_after(old(self).state.diffs(), tx)
                &&& final(self).state.l2_to_l1_messages@ == messages_after(
                    old(self).state.l2_to_l1_messages@,
                    tx,
                )
                &&& final(self).state.bytecodes() == bytecodes_after(old(self).state.bytecodes(), tx)
                &&& final(self).state.statistics == old(self).state.statistics.spec_sum(
                    tx.statistics,
                )
                &&& final(self).blocks().len() == old(self).blocks().len()
                &&& final(self).blocks().drop_last() == old(self).blocks().drop_last()
                &&& final(self).current->0.number == old(self).current->0.number
                &&& final(self).current->0.timestamp == old(self).current->0.timestamp
                &&& final(self).current->0.tx_results@ == old(self).current->0.tx_results@.push(tx)
                &&& !final(self).sealed
            },
    {
        if self.sealed {
            return Err(BatchError::AppendAfterSeal);
        }
        if self.current.is_none() {
            return Err(BatchError::NoOpenBlock);
        }
        if !self.state.statistics.can_combine(&tx.statistics) {
            return Err(BatchError::StatisticsOverflow);
        }
        let ghost old_blocks = self.blocks();
        let ghost closed = self.l2_blocks@;
        let mut b = self.current.take().unwrap();
        proof {
            assert(old_blocks == closed.push(b));
            assert(old_blocks.drop_last() =~= closed);
            VmExecutionStatistics::lemma_sum_assoc(
                blocks_statistics(closed),
                b.statistics,
                tx.statistics,
            );
        }
        self.state.append(&tx);
        b.statistics = b.statistics.combine(&tx.statistics);
        b.tx_results.push(tx);
        self.current = Some(b);
        proof {
            self.history@ = self.history@.push(tx);
            assert(self.history@.drop_last() =~= old(self).history@);
            assert(self.blocks().drop_last() =~= closed);
        }
        Ok(())
    }

    /// Seals the batch: closes the open block, builds the pubdata once, and
    /// hands out the finished batch. Sealing twice fails.
    pub fn seal(&mut self, memory: BootloaderMemory) -> (r: Result<FinishedL1Batch, BatchError>)
        requires
            old(self).wf(),
        ensures
            final(self).wf(),
            final(self).sealed,
            final(self).state == old(self).state,
            final(self).history == old(self).history,
            old(self).sealed ==> r == Err::<FinishedL1Batch, BatchError>(BatchError::DoubleSeal)
                && *final(self) == *old(self),
            !old(self).sealed ==> r is Ok,
            r matches Ok(f) ==> {
                &&& f.l2_blocks@ == old(self).blocks()
                &&& blocks_ordered(f.l2_blocks@)
                &&& f.pubdata.canonical_for(old(self).state)
                &&& f.pubdata_bytes@ == f.pubdata.spec_bytes()
                &&& f.statistics == old(self).state.statistics
                &&& f.statistics == blocks_statistics(f.l2_blocks@)
                &&& f.bootloader_memory == memory
            },
    {
        if self.sealed {
            return Err(BatchError::DoubleSeal);
        }
        self.sealed = true;
        let prev = self.current.take();
        match prev {
            Some(b) => {
                self.l2_blocks.push(b);
            },
            None => {},
        }
        let mut l2_blocks: Vec<L2Block> = Vec::new();
        std::mem::swap(&mut l2_blocks, &mut self.l2_blocks);
        let pubdata = PubdataInput::build(&self.state);
        let pubdata_bytes = pubdata.to_bytes();
        Ok(FinishedL1Batch {
            l2_blocks,
            bootloader_memory: memory,
            pubdata,
            pubdata_bytes,
            statistics: self.state.statistics,
        })
    }
}

} // verus!
