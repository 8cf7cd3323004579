use vstd::prelude::*;
use crate::bytes::copy_bytes;
use crate::execution_result::L2ToL1Message;
use crate::execution_state::{
    bytes_view, diff_map, keys_distinct, lemma_diff_map_index, CurrentExecutionState, StateDiff,
};

verus! {

/// A diff that changes its key's value.
pub open spec fn is_change(d: StateDiff) -> bool {
    d.initial_value != d.final_value
}

/// The diffs of a map that change their key's value.
pub open spec fn changed(m: Map<u64, StateDiff>) -> Map<u64, StateDiff> {
    Map::new(|k: u64| m.contains_key(k) && is_change(m[k]), |k: u64| m[k])
}

/// Keys strictly increase along the sequence.
pub open spec fn sorted_by_key(s: Seq<StateDiff>) -> bool {
    forall|i: int, j: int| 0 <= i < j < s.len() ==> s[i].key < s[j].key
}

/// Big-endian bytes of a `u64`.
pub open spec fn u64_be(x: u64) -> Seq<u8> {
    seq![
        (x >> 56u64) as u8,
        (x >> 48u64) as u8,
        (x >> 40u64) as u8,
        (x >> 32u64) as u8,
        (x >> 24u64) as u8,
        (x >> 16u64) as u8,
        (x >> 8u64) as u8,
        x as u8,
    ]
}

/// Wire form of a diff: key, final value, and a first-write byte.
pub open spec fn diff_bytes(d: StateDiff) -> Seq<u8> {
    u64_be(d.key) + u64_be(d.final_value) + seq![if d.is_first_write { 1u8 } else { 0u8 }]
}

/// Wire form of a message: sender, key, value.
pub open spec fn message_bytes(m: L2ToL1Message) -> Seq<u8> {
    u64_be(m.sender) + u64_be(m.key) + u64_be(m.value)
}

/// Wire form of a bytecode: its length, then its bytes.
pub open spec fn code_bytes(c: Seq<u8>) -> Seq<u8> {
    u64_be(c.len() as u64) + c
}

/// The wire forms of a sequence of diffs, one after another.
pub open spec fn diffs_bytes(s: Seq<StateDiff>) -> Seq<u8>
    decreases s.len(),
{
    if s.len() == 0 {
        Seq::empty()
    } else {
        diffs_bytes(s.drop_last()) + diff_bytes(s.last())
    }
}

/// The wire forms of a sequence of messages, one after another.
pub open spec fn messages_bytes(s: Seq<L2ToL1Message>) -> Seq<u8>
    decreases s.len(),
{
    if s.len() == 0 {
        Seq::empty()
    } else {
        messages_bytes(s.drop_last()) + message_bytes(s.last())
    }
}

/// The wire forms of a sequence of bytecodes, one after another.
pub open spec fn codes_bytes(s: Seq<Seq<u8>>) -> Seq<u8>
    decreases s.len(),
{
    if s.len() == 0 {
        Seq::empty()
    } else {
        codes_bytes(s.drop_last()) + code_bytes(s.last())
    }
}

/// The published bytes: the count and wire forms of the diffs, then of the
/// messages, then of the bytecodes.
pub open spec fn pubdata_bytes(
    diffs: Seq<StateDiff>,
    messages: Seq<L2ToL1Message>,
    codes: Seq<Seq<u8>>,
) -> Seq<u8> {
    u64_be(diffs.len() as u64) + diffs_bytes(diffs) + u64_be(messages.len() as u64)
        + messages_bytes(messages) + u64_be(codes.len() as u64) + codes_bytes(codes)
}

pub proof fn lemma_sorted_distinct(s: Seq<StateDiff>)
    requires
        sorted_by_key(s),
    ensures
        keys_distinct(s),
{
}

/// The diffs of the changed entries of `s` are the changed diffs of `s`.
proof fn lemma_changes_map(s: Seq<StateDiff>, r: Seq<StateDiff>)
    requires
        keys_distinct(s),
        sorted_by_key(r),
        forall|x: StateDiff| #[trigger] r.contains(x) <==> s.contains(x) && is_change(x),
    ensures
        diff_map(r) == changed(diff_map(s)),
{
    lemma_sorted_distinct(r);
    lemma_diff_map_index(s);
    lemma_diff_map_index(r);
    let m = changed(diff_map(s));
    assert forall|k: u64| #[trigger] diff_map(r).contains_key(k) implies m.contains_key(k)
        && diff_map(r)[k] == m[k] by {
        let i = choose|i: int| 0 <= i < r.len() && r[i].key == k;
        assert(r.contains(r[i]));
        let j = choose|j: int| 0 <= j < s.len() && s[j] == r[i];
        assert(diff_map(s).contains_key(s[j].key));
        assert(diff_map(s)[s[j].key] == s[j]);
        assert(diff_map(r).contains_key(r[i].key));
    }
    assert forall|k: u64| #[trigger] m.contains_key(k) implies diff_map(r).contains_key(k) by {
        assert(diff_map(s).contains_key(k));
        let j = choose|j: int| 0 <= j < s.len() && s[j].key == k;
        assert(diff_map(s).contains_key(s[j].key));
        assert(diff_map(s)[s[j].key] == s[j]);
        assert(is_change(s[j]));
        assert(s.contains(s[j]));
        assert(r.contains(s[j]));
        let i = choose|i: int| 0 <= i < r.len() && r[i] == s[j];
        assert(diff_map(r).contains_key(r[i].key));
    }
    assert(diff_map(r) =~= m);
}

/// Only one sequence sorted by key has given diffs: the order of the
/// published diffs does not depend on the order in which keys were written.
pub proof fn lemma_sorted_unique(a: Seq<StateDiff>, b: Seq<StateDiff>)
    requires
        sorted_by_key(a),
        sorted_by_key(b),
        diff_map(a) == diff_map(b),
    ensures
        a == b,
    decreases a.len(),
{
    lemma_sorted_distinct(a);
    lemma_sorted_distinct(b);
    lemma_diff_map_index(a);
    lemma_diff_map_index(b);
    if a.len() == 0 {
        if b.len() > 0 {
            assert(diff_map(b).contains_key(b[0].key));
        }
        assert(a =~= b);
    } else {
        if b.len() == 0 {
            assert(diff_map(a).contains_key(a[0].key));
        }
        let k = a.last().key;
        assert(diff_map(a).contains_key(a[a.len() - 1].key));
        assert(diff_map(b).contains_key(b[b.len() - 1].key));
        let j = choose|j: int| 0 <= j < b.len() && b[j].key == k;
        let i = choose|i: int| 0 <= i < a.len() && a[i].key == b.last().key;
        assert(b.last().key == k);
        assert(diff_map(a)[a[a.len() - 1].key] == a.last());
        assert(diff_map(b)[b[b.len() - 1].key] == b.last());
        let a1 = a.drop_last();
        let b1 = b.drop_last();
        lemma_diff_map_index(a1);
        lemma_diff_map_index(b1);
        assert(!diff_map(a1).contains_key(k)) by {
            if diff_map(a1).contains_key(k) {
                let x = choose|x: int| 0 <= x < a1.len() && a1[x].key == k;
                assert(a[x].key == k);
            }
        }
        assert(!diff_map(b1).contains_key(k)) by {
            if diff_map(b1).contains_key(k) {
                let x = choose|x: int| 0 <= x < b1.len() && b1[x].key == k;
                assert(b[x].key == k);
            }
        }
        assert(diff_map(a) == diff_map(a1).insert(k, a.last()));
        assert(diff_map(b) == diff_map(b1).insert(k, b.last()));
        assert(diff_map(a1) =~= diff_map(a).remove(k));
        assert(diff_map(b1) =~= diff_map(b).remove(k));
        lemma_sorted_unique(a1, b1);
        assert(a =~= a1.push(a.last()));
        assert(b =~= b1.push(b.last()));
    }
}

/// The data a sealed batch publishes for data availability.
#[derive(Clone, Debug, PartialEq, Eq)]
pub struct PubdataInput {
    /// The changed diffs, by increasing key.
    pub state_diffs: Vec<StateDiff>,
    /// The messages in emission order.
    pub l2_to_l1_messages: Vec<L2ToL1Message>,
    /// The deployed bytecodes, each once.
    pub bytecodes: Vec<Vec<u8>>,
}

impl PubdataInput {
    /// This is the pubdata of `st`: its changed diffs sorted by key, its
    /// messages in emission order, and its bytecodes.
    pub open spec fn canonical_for(self, st: CurrentExecutionState) -> bool {
        &&& sorted_by_key(self.state_diffs@)
        &&& diff_map(self.state_diffs@) == changed(st.diffs())
        &&& self.l2_to_l1_messages@ == st.l2_to_l1_messages@
        &&& bytes_view(self.bytecodes@) == st.bytecodes()
    }

    /// The published bytes.
    pub open spec fn spec_bytes(self) -> Seq<u8> {
        pubdata_bytes(self.state_diffs@, self.l2_to_l1_messages@, bytes_view(self.bytecodes@))
    }

    /// Builds the pubdata of a state. Keys whose value did not change are
    /// left out; the others come by increasing key, whatever the order in
    /// which they were written.
    pub fn build(st: &CurrentExecutionState) -> (r: PubdataInput)
        requires
            st.wf(),
        ensures
            r.canonical_for(*st),
    {
        let state_diffs = sorted_changes(&st.storage_diffs);
        proof {
            lemma_changes_map(st.storage_diffs@, state_diffs@);
        }
        let mut l2_to_l1_messages: Vec<L2ToL1Message> = Vec::new();
        let mut i: usize = 0;
        while i < st.l2_to_l1_messages.len()
            invariant
                i <= st.l2_to_l1_messages@.len(),
                l2_to_l1_messages@ == st.l2_to_l1_messages@.subrange(0, i as int),
            decreases st.l2_to_l1_messages@.len() - i,
        {
            l2_to_l1_messages.push(st.l2_to_l1_messages[i]);
            i = i + 1;
            assert(l2_to_l1_messages@ =~= st.l2_to_l1_messages@.subrange(0, i as int));
        }
        assert(l2_to_l1_messages@ =~= st.l2_to_l1_messages@);
        let mut bytecodes: Vec<Vec<u8>> = Vec::new();
        let mut j: usize = 0;
        while j < st.deployed_bytecodes.len()
            invariant
                j <= st.deployed_bytecodes@.len(),
                bytecodes@.len() == j,
                bytes_view(bytecodes@) == bytes_view(st.deployed_bytecodes@).subrange(0, j as int),
            decreases st.deployed_bytecodes@.len() - j,
        {
            let c = copy_bytes(st.deployed_bytecodes[j].as_slice());
            bytecodes.push(c);
            assert(bytecodes@[j as int]@ == st.deployed_bytecodes@[j as int]@);
            j = j + 1;
            assert(bytes_view(bytecodes@) =~= bytes_view(st.deployed_bytecodes@).subrange(0, j as int));
        }
        assert(bytes_view(st.deployed_bytecodes@).subrange(0, j as int) =~= bytes_view(st.deployed_bytecodes@));
        PubdataInput { state_diffs, l2_to_l1_messages, bytecodes }
    }

    /// No diff, message or bytecode is published.
    pub fn is_empty(&self) -> (r: bool)
        ensures
            r == (self.state_diffs@.len() == 0 && self.l2_to_l1_messages@.len() == 0
                && self.bytecodes@.len() == 0),
    {
        self.state_diffs.len() == 0 && self.l2_to_l1_messages.len() == 0 && self.bytecodes.len() == 0
    }

    /// The published bytes.
    pub fn to_bytes(&self) -> (r: Vec<u8>)
        ensures
            r@ == self.spec_bytes(),
    {
        let mut out: Vec<u8> = Vec::new();
        push_u64(&mut out, self.state_diffs.len() as u64);
        let ghost h0 = out@;
        let mut i: usize = 0;
        while i < self.state_diffs.len()
            invariant
                i <= self.state_diffs@.len(),
                out@ == h0 + diffs_bytes(self.state_diffs@.subrange(0, i as int)),
            decreases self.state_diffs@.len() - i,
        {
            let d = self.state_diffs[i];
            push_u64(&mut out, d.key);
            push_u64(&mut out, d.final_value);
            out.push(if d.is_first_write { 1u8 } else { 0u8 });
            proof {
                let q = self.state_diffs@.subrange(0, i + 1);
                assert(q.drop_last() =~= self.state_diffs@.subrange(0, i as int));
                assert(out@ =~= h0 + diffs_bytes(q));
            }
            i = i + 1;
        }
        assert(self.state_diffs@.subrange(0, i as int) =~= self.state_diffs@);
        push_u64(&mut out, self.l2_to_l1_messages.len() as u64);
        let ghost h1 = out@;
        let mut j: usize = 0;
        while j < self.l2_to_l1_messages.len()
            invariant
                j <= self.l2_to_l1_messages@.len(),
                out@ == h1 + messages_bytes(self.l2_to_l1_messages@.subrange(0, j as int)),
            decreases self.l2_to_l1_messages@.len() - j,
        {
            let m = self.l2_to_l1_messages[j];
            push_u64(&mut out, m.sender);
            push_u64(&mut out, m.key);
            push_u64(&mut out, m.value);
            proof {
                let q = self.l2_to_l1_messages@.subrange(0, j + 1);
                assert(q.drop_last() =~= self.l2_to_l1_messages@.subrange(0, j as int));
                assert(out@ =~= h1 + messages_bytes(q));
            }
            j = j + 1;
        }
        assert(self.l2_to_l1_messages@.subrange(0, j as int) =~= self.l2_to_l1_messages@);
        push_u64(&mut out, self.bytecodes.len() as u64);
        let ghost h2 = out@;
        let ghost codes = bytes_view(self.bytecodes@);
        let mut k: usize = 0;
        while k < self.bytecodes.len()
            invariant
                k <= self.bytecodes@.len(),
                codes == bytes_view(self.bytecodes@),
                out@ == h2 + codes_bytes(codes.subrange(0, k as int)),
            decreases self.bytecodes@.len() - k,
        {
            let c = &self.bytecodes[k];
            push_u64(&mut out, c.len() as u64);
            let ghost h3 = out@;
            let mut x: usize = 0;
            while x < c.len()
                invariant
                    x <= c@.len(),
                    out@ == h3 + c@.subrange(0, x as int),
                decreases c@.len() - x,
            {
                out.push(c[x]);
                x = x + 1;
                assert(out@ =~= h3 + c@.subrange(0, x as int));
            }
            proof {
                let q = codes.subrange(0, k + 1);
                assert(q.drop_last() =~= codes.subrange(0, k as int));
                assert(q.last() == c@);
                assert(c@.subrange(0, x as int) =~= c@);
                assert(out@ =~= h2 + codes_bytes(q));
            }
            k = k + 1;
        }
        assert(codes.subrange(0, k as int) =~= codes);
        assert(out@ =~= self.spec_bytes());
        out
    }
}

/// Pubdata is a function of the state it is built from: built twice from
/// one state, or from two states with the same diffs, messages and
/// bytecodes, it holds the same entries and the same bytes.
pub proof fn lemma_pubdata_deterministic(
    p: PubdataInput,
    q: PubdataInput,
    s: CurrentExecutionState,
    t: CurrentExecutionState,
)
    requires
        p.canonical_for(s),
        q.canonical_for(t),
        s.diffs() == t.diffs(),
        s.l2_to_l1_messages@ == t.l2_to_l1_messages@,
        s.bytecodes() == t.bytecodes(),
    ensures
        p.state_diffs@ == q.state_diffs@,
        p.l2_to_l1_messages@ == q.l2_to_l1_messages@,
        bytes_view(p.bytecodes@) == bytes_view(q.bytecodes@),
        p.spec_bytes() == q.spec_bytes(),
{
    lemma_sorted_unique(p.state_diffs@, q.state_diffs@);
}

fn push_u64(out: &mut Vec<u8>, x: u64)
    ensures
        final(out)@ == old(out)@ + u64_be(x),
{
    out.push((x >> 56u64) as u8);
    out.push((x >> 48u64) as u8);
    out.push((x >> 40u64) as u8);
    out.push((x >> 32u64) as u8);
    out.push((x >> 24u64) as u8);
    out.push((x >> 16u64) as u8);
    out.push((x >> 8u64) as u8);
    out.push(x as u8);
    assert(final(out)@ =~= old(out)@ + u64_be(x));
}

/// The changed diffs of `s`, sorted by key.
fn sorted_changes(s: &Vec<StateDiff>) -> (r: Vec<StateDiff>)
    requires
        keys_distinct(s@),
    ensures
        sorted_by_key(r@),
        forall|x: StateDiff| #[trigger] r@.contains(x) <==> s@.contains(x) && is_change(x),
{
    let mut r: Vec<StateDiff> = Vec::new();
    let mut i: usize = 0;
    while i < s.len()
        invariant
            keys_distinct(s@),
            i <= s@.len(),
            sorted_by_key(r@),
            forall|x: StateDiff| #[trigger] r@.contains(x) <==> s@.subrange(0, i as int).contains(x) && is_change(x),
        decreases s@.len() - i,
    {
        let d = s[i];
        let ghost p = s@.subrange(0, i as int);
        let ghost q = s@.subrange(0, i + 1);
        assert forall|x: StateDiff| #[trigger] q.contains(x) <==> p.contains(x) || x == d by {
            if q.contains(x) {
                let j = choose|j: int| 0 <= j < q.len() && q[j] == x;
                if j < i {
                    assert(p[j] == x);
                }
            }
            if p.contains(x) {
                let j = choose|j: int| 0 <= j < p.len() && p[j] == x;
                assert(q[j] == x);
            }
            if x == d {
                assert(q[i as int] == x);
            }
        }
        if d.initial_value != d.final_value {
            let ghost old_r = r@;
            // no diff in `r` has the key of `d`: keys are distinct in `s`
            assert forall|j: int| 0 <= j < old_r.len() implies old_r[j].key != d.key by {
                assert(old_r.contains(old_r[j]));
                let m = choose|m: int| 0 <= m < p.len() && p[m] == old_r[j];
                assert(s@[m] == old_r[j]);
            }
            let mut pos: usize = 0;
            while pos < r.len() && r[pos].key < d.key
                invariant
                    r@ == old_r,
                    pos <= r@.len(),
                    sorted_by_key(r@),
                    forall|j: int| 0 <= j < pos ==> r@[j].key < d.key,
                decreases r@.len() - pos,
            {
                pos = pos + 1;
            }
            r.insert(pos, d);
            proof {
                old_r.insert_ensures(pos as int, d);
                let t = r@;
                assert forall|a: int, b: int| 0 <= a < b < t.len() implies t[a].key < t[b].key by {
                    if b < pos {
                    } else if b == pos {
                    } else if a < pos {
                        assert(t[b] == old_r[b - 1]);
                        assert(old_r[b - 1].key != d.key);
                        assert(old_r[b - 1].key > d.key || b - 1 < pos);
                        if (pos as int) < old_r.len() {
                            assert(old_r[pos as int].key >= d.key);
                            assert(old_r[pos as int].key <= old_r[b - 1].key);
                        }
                    } else if a == pos {
                        assert(t[b] == old_r[b - 1]);
                        assert(old_r[b - 1].key != d.key);
                        assert(old_r[pos as int].key >= d.key);
                        assert(old_r[pos as int].key <= old_r[b - 1].key);
                    } else {
                        assert(t[a] == old_r[a - 1]);
                        assert(t[b] == old_r[b - 1]);
                    }
                }
                assert forall|x: StateDiff| #[trigger] t.contains(x) <==> old_r.contains(x) || x == d by {
                    if t.contains(x) {
                        let j = choose|j: int| 0 <= j < t.len() && t[j] == x;
                        if j < pos {
                            assert(old_r[j] == x);
                        } else if j > pos {
                            assert(old_r[j - 1] == x);
                        }
                    }
                    if old_r.contains(x) {
                        let j = choose|j: int| 0 <= j < old_r.len() && old_r[j] == x;
                        if j < pos {
                            assert(t[j] == x);
                        } else {
                            assert(t[j + 1] == x);
                        }
                    }
                    if x == d {
                        assert(t[pos as int] == x);
                    }
                }
            }
        }
        i = i + 1;
    }
    assert(s@.subrange(0, i as int) =~= s@);
    r
}

} // verus!
