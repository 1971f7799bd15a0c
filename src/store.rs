use vstd::prelude::*;

use crate::sync::EventKind;

verus! {

/// A decoded event.
pub struct EventRecord {
    pub chain_id: u32,
    pub block_number: u64,
    pub tx_index: u32,
    pub log_index: u64,
    pub kind: EventKind,
    pub payload: Vec<u8>,
}

pub struct RecordModel {
    pub chain_id: u32,
    pub block_number: u64,
    pub tx_index: u32,
    pub log_index: u64,
    pub kind: EventKind,
    pub payload: Seq<u8>,
}

impl View for EventRecord {
    type V = RecordModel;

    open spec fn view(&self) -> RecordModel {
        RecordModel {
            chain_id: self.chain_id,
            block_number: self.block_number,
            tx_index: self.tx_index,
            log_index: self.log_index,
            kind: self.kind,
            payload: self.payload@,
        }
    }
}

impl Clone for EventRecord {
    fn clone(&self) -> (r: Self)
        ensures
            r@ == self@,
    {
        EventRecord {
            chain_id: self.chain_id,
            block_number: self.block_number,
            tx_index: self.tx_index,
            log_index: self.log_index,
            kind: self.kind,
            payload: self.payload.clone(),
        }
    }
}

/// The unique key of a stored event.
pub open spec fn record_key(r: RecordModel) -> (u32, EventKind, u64, u64) {
    (r.chain_id, r.kind, r.block_number, r.log_index)
}

pub open spec fn has_key(s: Seq<RecordModel>, k: (u32, EventKind, u64, u64)) -> bool {
    exists|i: int| 0 <= i < s.len() && record_key(#[trigger] s[i]) == k
}

pub open spec fn records_view(s: Seq<EventRecord>) -> Seq<RecordModel> {
    s.map_values(|r: EventRecord| r@)
}

/// The contents after writing `batch` in order: a record whose key is already
/// present is left as it was.
pub open spec fn spec_upsert(s: Seq<RecordModel>, batch: Seq<RecordModel>) -> Seq<RecordModel>
    decreases batch.len(),
{
    if batch.len() == 0 {
        s
    } else {
        let t = spec_upsert(s, batch.drop_last());
        if has_key(t, record_key(batch.last())) {
            t
        } else {
            t.push(batch.last())
        }
    }
}

pub open spec fn keys_unique(s: Seq<RecordModel>) -> bool {
    forall|i: int, j: int|
        0 <= i < s.len() && 0 <= j < s.len() && i != j ==> record_key(#[trigger] s[i])
            != record_key(#[trigger] s[j])
}

/// Stored events, at most one per key.
pub struct EventTable {
    records: Vec<EventRecord>,
}

impl View for EventTable {
    type V = Seq<RecordModel>;

    closed spec fn view(&self) -> Seq<RecordModel> {
        records_view(self.records@)
    }
}

impl EventTable {
    pub open spec fn wf(&self) -> bool {
        keys_unique(self@)
    }

    pub fn new() -> (r: EventTable)
        ensures
            r.wf(),
            r@ == Seq::<RecordModel>::empty(),
    {
        let r = EventTable { records: Vec::new() };
        proof {
            assert(r@ =~= Seq::<RecordModel>::empty());
        }
        r
    }

    pub fn len(&self) -> (r: usize)
        ensures
            r == self@.len(),
    {
        self.records.len()
    }

    /// Whether an event with the given key is stored.
    pub fn contains_key(&self, chain_id: u32, kind: EventKind, block_number: u64, log_index: u64) -> (r: bool)
        ensures
            r == has_key(self@, (chain_id, kind, block_number, log_index)),
    {
        let mut i: usize = 0;
        while i < self.records.len()
            invariant
                i <= self.records@.len(),
                self@ == records_view(self.records@),
                forall|j: int| 0 <= j < i ==> record_key(#[trigger] self@[j]) != (chain_id, kind, block_number, log_index),
            decreases self.records@.len() - i,
        {
            let r = &self.records[i];
            assert(self@[i as int] == r@);
            if r.chain_id == chain_id && r.kind == kind && r.block_number == block_number
                && r.log_index == log_index {
                assert(record_key(self@[i as int]) == (chain_id, kind, block_number, log_index));
                return true;
            }
            i = i + 1;
        }
        false
    }

    /// Writes a batch; events whose key is already stored are skipped, so a batch
    /// may be replayed after a retry.
    pub fn upsert_events(&mut self, batch: &Vec<EventRecord>)
        requires
            old(self).wf(),
        ensures
            final(self).wf(),
            final(self)@ == spec_upsert(old(self)@, records_view(batch@)),
    {
        let ghost b = records_view(batch@);
        let mut i: usize = 0;
        proof {
            assert(b.take(0) =~= Seq::<RecordModel>::empty());
        }
        while i < batch.len()
            invariant
                i <= batch@.len(),
                b == records_view(batch@),
                self.wf(),
                self@ == spec_upsert(old(self)@, b.take(i as int)),
            decreases batch@.len() - i,
        {
            let ghost t = b.take(i as int + 1);
            proof {
                assert(t.drop_last() == b.take(i as int));
                assert(t.last() == batch@[i as int]@);
            }
            let e = &batch[i];
            if !self.contains_key(e.chain_id, e.kind, e.block_number, e.log_index) {
                let ghost before = self@;
                self.records.push(e.clone());
                proof {
                    assert(self@ =~= before.push(e@));
                }
            }
            i = i + 1;
        }
        proof {
            assert(b.take(batch@.len() as int) == b);
        }
    }
}

proof fn lemma_upsert_covers_batch(s: Seq<RecordModel>, batch: Seq<RecordModel>)
    ensures
        forall|j: int| 0 <= j < batch.len() ==> has_key(spec_upsert(s, batch), record_key(#[trigger] batch[j])),
    decreases batch.len(),
{
    if batch.len() > 0 {
        let init = batch.drop_last();
        let t = spec_upsert(s, init);
        lemma_upsert_covers_batch(s, init);
        let u = spec_upsert(s, batch);
        assert forall|j: int| 0 <= j < batch.len() implies has_key(u, record_key(#[trigger] batch[j])) by {
            if j < batch.len() - 1 {
                assert(batch[j] == init[j]);
                if !has_key(t, record_key(batch.last())) {
                    let i = choose|i: int| 0 <= i < t.len() && record_key(#[trigger] t[i]) == record_key(batch[j]);
                    assert(u[i] == t[i]);
                }
            } else {
                if !has_key(t, record_key(batch.last())) {
                    assert(u[t.len() as int] == batch.last());
                }
            }
        }
    }
}

proof fn lemma_upsert_present_is_noop(s: Seq<RecordModel>, batch: Seq<RecordModel>)
    requires
        forall|j: int| 0 <= j < batch.len() ==> has_key(s, record_key(#[trigger] batch[j])),
    ensures
        spec_upsert(s, batch) == s,
    decreases batch.len(),
{
    if batch.len() > 0 {
        let init = batch.drop_last();
        assert forall|j: int| 0 <= j < init.len() implies has_key(s, record_key(#[trigger] init[j])) by {
            assert(init[j] == batch[j]);
        }
        lemma_upsert_present_is_noop(s, init);
        assert(has_key(s, record_key(batch[batch.len() - 1])));
    }
}

/// Writing the same batch twice leaves the table as writing it once.
pub proof fn lemma_upsert_idempotent(s: Seq<RecordModel>, batch: Seq<RecordModel>)
    ensures
        spec_upsert(spec_upsert(s, batch), batch) == spec_upsert(s, batch),
{
    lemma_upsert_covers_batch(s, batch);
    lemma_upsert_present_is_noop(spec_upsert(s, batch), batch);
}

} // verus!
