use vstd::prelude::*;
use crate::bytes::{bytes_eq, copy_bytes};
use crate::execution_result::{L2ToL1Message, StorageLogEntry, VmExecutionResultAndLogs};
use crate::statistic::VmExecutionStatistics;

verus! {

/// The net effect of a batch on one storage key: the value before the first
/// write, the value after the last, and the first write's flag.
#[derive(Clone, Copy, Debug, PartialEq, Eq, Structural)]
pub struct StateDiff {
    pub key: u64,
    pub initial_value: u64,
    pub final_value: u64,
    pub is_first_write: bool,
}

/// No key occurs twice.
pub open spec fn keys_distinct(s: Seq<StateDiff>) -> bool {
    forall|i: int, j: int| 0 <= i < j < s.len() ==> s[i].key != s[j].key
}

/// The diffs of a sequence, by key.
pub open spec fn diff_map(s: Seq<StateDiff>) -> Map<u64, StateDiff>
    decreases s.len(),
{
    if s.len() == 0 {
        Map::empty()
    } else {
        diff_map(s.drop_last()).insert(s.last().key, s.last())
    }
}

/// The diffs after one more write: a new key takes the write's previous value
/// and flag; a known key keeps them and takes the new value.
pub open spec fn apply_log(m: Map<u64, StateDiff>, e: StorageLogEntry) -> Map<u64, StateDiff> {
    if m.contains_key(e.key) {
        m.insert(e.key, StateDiff { final_value: e.value, ..m[e.key] })
    } else {
        m.insert(
            e.key,
            StateDiff {
                key: e.key,
                initial_value: e.previous_value,
                final_value: e.value,
                is_first_write: e.is_first_write,
            },
        )
    }
}

/// The diffs after a sequence of writes, applied in order.
pub open spec fn apply_logs(m: Map<u64, StateDiff>, logs: Seq<StorageLogEntry>) -> Map<
    u64,
    StateDiff,
>
    decreases logs.len(),
{
    if logs.len() == 0 {
        m
    } else {
        apply_log(apply_logs(m, logs.drop_last()), logs.last())
    }
}

/// The contents of a list of byte strings.
pub open spec fn bytes_view(s: Seq<Vec<u8>>) -> Seq<Seq<u8>> {
    s.map_values(|b: Vec<u8>| b@)
}

/// No byte string occurs twice.
pub open spec fn bytes_distinct(s: Seq<Seq<u8>>) -> bool {
    forall|i: int, j: int| 0 <= i < j < s.len() ==> s[i] != s[j]
}

pub proof fn lemma_diff_map_index(s: Seq<StateDiff>)
    requires
        keys_distinct(s),
    ensures
        forall|i: int|
            0 <= i < s.len() ==> #[trigger] diff_map(s).contains_key(s[i].key) && diff_map(s)[s[i].key]
                == s[i],
        forall|k: u64|
            #[trigger] diff_map(s).contains_key(k) ==> exists|i: int| 0 <= i < s.len() && s[i].key == k,
        forall|k: u64| #[trigger] diff_map(s).contains_key(k) ==> diff_map(s)[k].key == k,
    decreases s.len(),
{
    if s.len() > 0 {
        let t = s.drop_last();
        lemma_diff_map_index(t);
        assert(diff_map(s) == diff_map(t).insert(s.last().key, s.last()));
        assert forall|i: int| 0 <= i < s.len() implies #[trigger] diff_map(s).contains_key(s[i].key)
            && diff_map(s)[s[i].key] == s[i] by {
            if i < s.len() - 1 {
                assert(t[i] == s[i]);
                assert(s[i].key != s[s.len() - 1].key);
            }
        }
        assert forall|k: u64| #[trigger] diff_map(s).contains_key(k) implies exists|i: int|
            0 <= i < s.len() && s[i].key == k by {
            if k != s.last().key {
                let i = choose|i: int| 0 <= i < t.len() && t[i].key == k;
                assert(s[i].key == k);
            } else {
                assert(s[s.len() - 1].key == k);
            }
        }
    }
}

/// The diffs after one transaction: a halted transaction adds none.
pub open spec fn diffs_after(m: Map<u64, StateDiff>, tx: VmExecutionResultAndLogs) -> Map<
    u64,
    StateDiff,
> {
    if tx.result is Halt {
        m
    } else {
        apply_logs(m, tx.logs.storage_logs@)
    }
}

/// The messages after one transaction: a halted transaction adds none.
pub open spec fn messages_after(ms: Seq<L2ToL1Message>, tx: VmExecutionResultAndLogs) -> Seq<
    L2ToL1Message,
> {
    if tx.result is Halt {
        ms
    } else {
        ms + tx.logs.l2_to_l1_messages@
    }
}

/// A list of bytecodes with `b` added unless it is there.
pub open spec fn add_code(codes: Seq<Seq<u8>>, b: Seq<u8>) -> Seq<Seq<u8>> {
    if codes.contains(b) {
        codes
    } else {
        codes.push(b)
    }
}

/// A list of bytecodes with each of `new_codes` added in turn.
pub open spec fn add_codes(codes: Seq<Seq<u8>>, new_codes: Seq<Seq<u8>>) -> Seq<Seq<u8>>
    decreases new_codes.len(),
{
    if new_codes.len() == 0 {
        codes
    } else {
        add_code(add_codes(codes, new_codes.drop_last()), new_codes.last())
    }
}

/// The bytecodes after one transaction: a halted transaction adds none.
pub open spec fn bytecodes_after(codes: Seq<Seq<u8>>, tx: VmExecutionResultAndLogs) -> Seq<
    Seq<u8>,
> {
    if tx.result is Halt {
        codes
    } else {
        add_codes(codes, bytes_view(tx.logs.published_bytecodes@))
    }
}

/// Once a key has a diff, later writes keep its previous value and its
/// first-write flag.
pub proof fn lemma_apply_logs_keeps(
    m: Map<u64, StateDiff>,
    s: Seq<StorageLogEntry>,
    t: Seq<StorageLogEntry>,
    k: u64,
)
    requires
        apply_logs(m, s).contains_key(k),
    ensures
        apply_logs(m, s + t).contains_key(k),
        apply_logs(m, s + t)[k].key == apply_logs(m, s)[k].key,
        apply_logs(m, s + t)[k].initial_value == apply_logs(m, s)[k].initial_value,
        apply_logs(m, s + t)[k].is_first_write == apply_logs(m, s)[k].is_first_write,
    decreases t.len(),
{
    if t.len() == 0 {
        assert(s + t =~= s);
    } else {
        lemma_apply_logs_keeps(m, s, t.drop_last(), k);
        assert((s + t).drop_last() =~= s + t.drop_last());
    }
}

/// Last writer wins: after a write of `k`, other writes, and a last write of
/// `k`, the diff of a key new to the batch has the last write's value and
/// the first write's previous value and first-write flag.
pub proof fn lemma_last_writer_wins(
    m: Map<u64, StateDiff>,
    first: StorageLogEntry,
    between: Seq<StorageLogEntry>,
    last: StorageLogEntry,
)
    requires
        !m.contains_key(first.key),
        last.key == first.key,
    ensures
        apply_logs(m, seq![first] + between + seq![last]).contains_key(first.key),
        apply_logs(m, seq![first] + between + seq![last])[first.key] == (StateDiff {
            key: first.key,
            initial_value: first.previous_value,
            final_value: last.value,
            is_first_write: first.is_first_write,
        }),
{
    let s = seq![first];
    let all = s + between + seq![last];
    assert(s.drop_last() =~= Seq::<StorageLogEntry>::empty());
    assert(s.last() == first);
    assert(apply_logs(m, s.drop_last()) == m);
    assert(apply_logs(m, s) == apply_log(m, first));
    lemma_apply_logs_keeps(m, s, between, first.key);
    assert(all.drop_last() =~= s + between);
    assert(apply_logs(m, all) == apply_log(apply_logs(m, s + between), last));
}

/// A halted transaction adds no diff, message or bytecode, whatever it logged.
pub proof fn lemma_halt_excluded(
    m: Map<u64, StateDiff>,
    ms: Seq<L2ToL1Message>,
    codes: Seq<Seq<u8>>,
    tx: VmExecutionResultAndLogs,
)
    requires
        tx.result is Halt,
    ensures
        diffs_after(m, tx) == m,
        messages_after(ms, tx) == ms,
        bytecodes_after(codes, tx) == codes,
{
}

/// The working memory of the execution environment when the batch closes:
/// (word index, value) pairs.
#[derive(Clone, Debug, PartialEq, Eq)]
pub struct BootloaderMemory {
    pub words: Vec<(u64, u64)>,
}

/// Running aggregate of the transactions of a block or batch so far.
#[derive(Clone, Debug, PartialEq, Eq)]
pub struct CurrentExecutionState {
    /// One entry per key touched, in the order keys were first touched.
    pub storage_diffs: Vec<StateDiff>,
    /// Messages in emission order.
    pub l2_to_l1_messages: Vec<L2ToL1Message>,
    /// Deployed bytecodes, each once, in order of first deployment.
    pub deployed_bytecodes: Vec<Vec<u8>>,
    pub statistics: VmExecutionStatistics,
}

impl CurrentExecutionState {
    pub open spec fn wf(self) -> bool {
        &&& keys_distinct(self.storage_diffs@)
        &&& bytes_distinct(bytes_view(self.deployed_bytecodes@))
    }

    /// The state's diffs by key.
    pub open spec fn diffs(self) -> Map<u64, StateDiff> {
        diff_map(self.storage_diffs@)
    }

    pub open spec fn bytecodes(self) -> Seq<Seq<u8>> {
        bytes_view(self.deployed_bytecodes@)
    }

    /// Folds one transaction's result into the state. Storage writes update
    /// the diffs (the last write of a key wins; its first write's flag and
    /// previous value are kept), messages are appended in emission order,
    /// new bytecodes are added once each, and statistics are added. A halted
    /// transaction adds its statistics only.
    pub fn append(&mut self, tx: &VmExecutionResultAndLogs)
        requires
            old(self).wf(),
            old(self).statistics.sum_fits(tx.statistics),
        ensures
            final(self).wf(),
            final(self).diffs() == diffs_after(old(self).diffs(), *tx),
            final(self).l2_to_l1_messages@ == messages_after(old(self).l2_to_l1_messages@, *tx),
            final(self).bytecodes() == bytecodes_after(old(self).bytecodes(), *tx),
            final(self).statistics == old(self).statistics.spec_sum(tx.statistics),
    {
        self.statistics = self.statistics.combine(&tx.statistics);
        if tx.result.is_halt() {
            return ;
        }
        let logs = &tx.logs;
        let mut i: usize = 0;
        while i < logs.storage_logs.len()
            invariant
                keys_distinct(self.storage_diffs@),
                i <= logs.storage_logs@.len(),
                self.diffs() == apply_logs(old(self).diffs(), logs.storage_logs@.subrange(0, i as int)),
                self.l2_to_l1_messages == old(self).l2_to_l1_messages,
                self.deployed_bytecodes == old(self).deployed_bytecodes,
                self.statistics == old(self).statistics.spec_sum(tx.statistics),
            decreases logs.storage_logs@.len() - i,
        {
            apply_storage_log(&mut self.storage_diffs, logs.storage_logs[i]);
            proof {
                let p = logs.storage_logs@.subrange(0, i + 1);
                assert(p.drop_last() =~= logs.storage_logs@.subrange(0, i as int));
            }
            i = i + 1;
        }
        assert(logs.storage_logs@.subrange(0, i as int) =~= logs.storage_logs@);
        let mut j: usize = 0;
        while j < logs.l2_to_l1_messages.len()
            invariant
                keys_distinct(self.storage_diffs@),
                self.diffs() == apply_logs(old(self).diffs(), logs.storage_logs@),
                j <= logs.l2_to_l1_messages@.len(),
                self.l2_to_l1_messages@ == old(self).l2_to_l1_messages@ + logs.l2_to_l1_messages@.subrange(0, j as int),
                self.deployed_bytecodes == old(self).deployed_bytecodes,
                self.statistics == old(self).statistics.spec_sum(tx.statistics),
            decreases logs.l2_to_l1_messages@.len() - j,
        {
            self.l2_to_l1_messages.push(logs.l2_to_l1_messages[j]);
            assert(self.l2_to_l1_messages@ =~= old(self).l2_to_l1_messages@ + logs.l2_to_l1_messages@.subrange(0, j + 1));
            j = j + 1;
        }
        assert(logs.l2_to_l1_messages@.subrange(0, j as int) =~= logs.l2_to_l1_messages@);
        let ghost old_codes = old(self).bytecodes();
        let ghost new_codes = bytes_view(logs.published_bytecodes@);
        let mut k: usize = 0;
        while k < logs.published_bytecodes.len()
            invariant
                keys_distinct(self.storage_diffs@),
                self.diffs() == apply_logs(old(self).diffs(), logs.storage_logs@),
                self.l2_to_l1_messages@ == old(self).l2_to_l1_messages@ + logs.l2_to_l1_messages@,
                self.statistics == old(self).statistics.spec_sum(tx.statistics),
                k <= logs.published_bytecodes@.len(),
                old_codes == old(self).bytecodes(),
                new_codes == bytes_view(logs.published_bytecodes@),
                bytes_distinct(self.bytecodes()),
                self.bytecodes() == add_codes(old_codes, new_codes.subrange(0, k as int)),
            decreases logs.published_bytecodes@.len() - k,
        {
            insert_bytecode(&mut self.deployed_bytecodes, &logs.published_bytecodes[k as usize]);
            proof {
                let q = new_codes.subrange(0, k + 1);
                assert(q.drop_last() =~= new_codes.subrange(0, k as int));
                assert(q.last() == logs.published_bytecodes@[k as int]@);
            }
            k = k + 1;
        }
        assert(new_codes.subrange(0, k as int) =~= new_codes);
    }

    /// The state before any transaction.
    pub fn new() -> (r: Self)
        ensures
            r.wf(),
            r.storage_diffs@.len() == 0,
            r.diffs() == Map::<u64, StateDiff>::empty(),
            r.l2_to_l1_messages@.len() == 0,
            r.deployed_bytecodes@.len() == 0,
            r.statistics == VmExecutionStatistics::spec_zero(),
    {
        let r = CurrentExecutionState {
            storage_diffs: Vec::new(),
            l2_to_l1_messages: Vec::new(),
            deployed_bytecodes: Vec::new(),
            statistics: VmExecutionStatistics::zero(),
        };
        assert(bytes_view(r.deployed_bytecodes@) =~= Seq::<Seq<u8>>::empty());
        r
    }
}

/// Adds a bytecode to a list of distinct bytecodes unless it is there.
fn insert_bytecode(codes: &mut Vec<Vec<u8>>, b: &Vec<u8>)
    requires
        bytes_distinct(bytes_view(old(codes)@)),
    ensures
        bytes_distinct(bytes_view(final(codes)@)),
        bytes_view(final(codes)@) == add_code(bytes_view(old(codes)@), b@),
{
    let ghost s = bytes_view(codes@);
    let mut i: usize = 0;
    while i < codes.len()
        invariant
            s == bytes_view(codes@),
            bytes_distinct(s),
            codes@ == old(codes)@,
            i <= codes@.len(),
            forall|j: int| 0 <= j < i ==> s[j] != b@,
        decreases codes@.len() - i,
    {
        if bytes_eq(&codes[i], b) {
            assert(s[i as int] == b@);
            return ;
        }
        i = i + 1;
    }
    codes.push(copy_bytes(b.as_slice()));
    proof {
        let t = bytes_view(codes@);
        assert(t =~= s.push(b@));
        assert(!s.contains(b@));
        assert forall|x: int, y: int| 0 <= x < y < t.len() implies t[x] != t[y] by {
            if y == s.len() {
                assert(s[x] == t[x]);
            }
        }
    }
}

/// Folds one storage write into the diffs.
fn apply_storage_log(diffs: &mut Vec<StateDiff>, e: StorageLogEntry)
    requires
        keys_distinct(old(diffs)@),
    ensures
        keys_distinct(final(diffs)@),
        diff_map(final(diffs)@) == apply_log(diff_map(old(diffs)@), e),
{
    let ghost s = diffs@;
    proof {
        lemma_diff_map_index(s);
    }
    let mut i: usize = 0;
    while i < diffs.len()
        invariant
            diffs@ == s,
            s == old(diffs)@,
            keys_distinct(s),
            i <= s.len(),
            forall|j: int| 0 <= j < i ==> s[j].key != e.key,
        decreases s.len() - i,
    {
        if diffs[i].key == e.key {
            let old_diff = diffs[i];
            let d = StateDiff { final_value: e.value, ..old_diff };
            diffs.set(i, d);
            proof {
                lemma_diff_map_index(s);
                assert(s[i as int] == old_diff);
                assert(diff_map(s).contains_key(s[i as int].key));
                assert(diff_map(s).contains_key(e.key) && diff_map(s)[e.key] == old_diff);
                let t = s.update(i as int, d);
                assert(t =~= diffs@);
                assert forall|j: int| 0 <= j < t.len() implies #[trigger] t[j].key == s[j].key by {}
                assert(keys_distinct(t));
                // the diffs of `t` are those of `s` with entry `i` replaced
                assert(diff_map(t) =~= diff_map(s).insert(e.key, d)) by {
                    lemma_diff_map_index(t);
                    assert forall|k: u64| #[trigger] diff_map(t).contains_key(k) implies
                        diff_map(s).insert(e.key, d).contains_key(k) && diff_map(t)[k]
                        == diff_map(s).insert(e.key, d)[k] by {
                        let j = choose|j: int| 0 <= j < t.len() && t[j].key == k;
                        if j != i {
                            assert(t[j] == s[j]);
                            assert(diff_map(s).contains_key(s[j].key));
                            assert(diff_map(t)[k] == t[j]);
                        }
                    }
                    assert forall|k: u64| #[trigger] diff_map(s).insert(e.key, d).contains_key(k)
                        implies diff_map(t).contains_key(k) by {
                        if k != e.key {
                            assert(diff_map(s).contains_key(k));
                            let j = choose|j: int| 0 <= j < s.len() && s[j].key == k;
                            assert(t[j] == s[j]);
                        } else {
                            assert(t[i as int] == d);
                        }
                    }
                }
            }
            return ;
        }
        i = i + 1;
    }
    let d = StateDiff {
        key: e.key,
        initial_value: e.previous_value,
        final_value: e.value,
        is_first_write: e.is_first_write,
    };
    diffs.push(d);
    proof {
        lemma_diff_map_index(s);
        assert(diffs@.drop_last() =~= s);
        assert(!diff_map(s).contains_key(e.key));
    }
}

} // verus!
