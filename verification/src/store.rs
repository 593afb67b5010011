//! The record store and its semantics.
//!
//! A telemetry record is a UUID-identified entity with a color, a timestamp,
//! an energy cost, an energy consumption, and a temperature/humidity pair.
//! The store keeps records in insertion order with unique UUIDs: bulk
//! creation skips every record whose UUID is already present and reports
//! success exactly when at least one new record was stored.  Reads never
//! modify the store; an explicit reset deletes everything.
//!
//! This store is the reference semantics for the gateway's data operations:
//! the graph-database backend is expected to behave like it, and the
//! dispatcher's contracts are stated against it.

use vstd::prelude::*;

use crate::num::Num;
use crate::text::bytes_eq;

verus! {

/// One persisted telemetry record.
pub struct TelemetryRecord {
    pub uuid: Vec<u8>,
    pub color: Vec<u8>,
    pub timestamp: Vec<u8>,
    pub energy_cost: Num,
    pub energy_consume: Num,
    pub temperature: Num,
    pub humidity: Num,
}

/// The mathematical content of a record.
pub struct RecordModel {
    pub uuid: Seq<u8>,
    pub color: Seq<u8>,
    pub timestamp: Seq<u8>,
    pub energy_cost: (bool, nat, Seq<u8>),
    pub energy_consume: (bool, nat, Seq<u8>),
    pub temperature: (bool, nat, Seq<u8>),
    pub humidity: (bool, nat, Seq<u8>),
}

impl TelemetryRecord {
    /// The record's mathematical content.
    pub open spec fn model(self) -> RecordModel {
        RecordModel {
            uuid: self.uuid@,
            color: self.color@,
            timestamp: self.timestamp@,
            energy_cost: self.energy_cost.model(),
            energy_consume: self.energy_consume.model(),
            temperature: self.temperature.model(),
            humidity: self.humidity.model(),
        }
    }

    /// All numeric attributes are in normal form.
    pub open spec fn wf(self) -> bool {
        &&& self.energy_cost.wf()
        &&& self.energy_consume.wf()
        &&& self.temperature.wf()
        &&& self.humidity.wf()
    }

    /// An independent copy.
    pub fn duplicate(&self) -> (r: TelemetryRecord)
        ensures
            r.model() == self.model(),
            r.wf() == self.wf(),
    {
        let r = TelemetryRecord {
            uuid: copy_bytes(&self.uuid),
            color: copy_bytes(&self.color),
            timestamp: copy_bytes(&self.timestamp),
            energy_cost: self.energy_cost.duplicate(),
            energy_consume: self.energy_consume.duplicate(),
            temperature: self.temperature.duplicate(),
            humidity: self.humidity.duplicate(),
        };
        assert(r.model() =~= self.model());
        r
    }
}

/// A fresh copy of a byte string.
pub fn copy_bytes(b: &Vec<u8>) -> (r: Vec<u8>)
    ensures
        r@ == b@,
{
    let mut out: Vec<u8> = Vec::new();
    crate::text::push_bytes(&mut out, b);
    assert(out@ =~= b@);
    out
}

/// The record store: records in insertion order, UUIDs unique.
pub struct RecordStore {
    pub records: Vec<TelemetryRecord>,
}

/// The models of a record sequence.
pub open spec fn models_of(rs: Seq<TelemetryRecord>) -> Seq<RecordModel> {
    rs.map_values(|r: TelemetryRecord| r.model())
}

/// Some record in `s` bears the UUID `u`.
pub open spec fn contains_uuid(s: Seq<RecordModel>, u: Seq<u8>) -> bool {
    exists|i: int| 0 <= i < s.len() && (#[trigger] s[i]).uuid == u
}

/// `s` extended by `r` unless its UUID is already present.
pub open spec fn insert_one(s: Seq<RecordModel>, r: RecordModel) -> Seq<RecordModel> {
    if contains_uuid(s, r.uuid) {
        s
    } else {
        s.push(r)
    }
}

/// `s` after inserting each record of `b` in order, skipping UUIDs already
/// present.
pub open spec fn insert_batch(s: Seq<RecordModel>, b: Seq<RecordModel>) -> Seq<RecordModel>
    decreases b.len(),
{
    if b.len() == 0 {
        s
    } else {
        insert_batch(insert_one(s, b[0]), b.skip(1))
    }
}

/// The first record of `s` satisfying `p`, if any.
pub open spec fn first_match(s: Seq<RecordModel>, p: spec_fn(RecordModel) -> bool) -> Option<
    RecordModel,
>
    decreases s.len(),
{
    if s.len() == 0 {
        None
    } else if p(s[0]) {
        Some(s[0])
    } else {
        first_match(s.skip(1), p)
    }
}

/// The subsequence of `s` satisfying `p`, in order.
pub open spec fn matching(s: Seq<RecordModel>, p: spec_fn(RecordModel) -> bool) -> Seq<
    RecordModel,
>
    decreases s.len(),
{
    if s.len() == 0 {
        Seq::empty()
    } else {
        matching(s.drop_last(), p) + (if p(s.last()) {
            seq![s.last()]
        } else {
            Seq::empty()
        })
    }
}

impl RecordStore {
    /// The store's mathematical content: the record models in order.
    pub open spec fn model(self) -> Seq<RecordModel> {
        models_of(self.records@)
    }

    /// Records are well formed and UUIDs are unique.
    pub open spec fn wf(self) -> bool {
        &&& forall|i: int|
            0 <= i < self.records@.len() ==> (#[trigger] self.records@[i]).wf()
        &&& forall|i: int, j: int|
            0 <= i < j < self.model().len() ==> (#[trigger] self.model()[i]).uuid != (
            #[trigger] self.model()[j]).uuid
    }

    /// An empty store.
    pub fn new() -> (r: RecordStore)
        ensures
            r.model() == Seq::<RecordModel>::empty(),
            r.wf(),
    {
        let r = RecordStore { records: Vec::new() };
        assert(r.model() =~= Seq::<RecordModel>::empty());
        r
    }

    /// Deletes every record.
    pub fn reset(&mut self)
        ensures
            final(self).model() == Seq::<RecordModel>::empty(),
            final(self).wf(),
    {
        self.records.clear();
        assert(self.model() =~= Seq::<RecordModel>::empty());
    }

    /// The index of the first record bearing `uuid`, if any.
    fn find_uuid(&self, uuid: &Vec<u8>) -> (r: Option<usize>)
        ensures
            match r {
                Some(i) => i < self.records@.len() && self.model()[i as int].uuid
                    == uuid@,
                None => !contains_uuid(self.model(), uuid@),
            },
    {
        let mut i: usize = 0;
        while i < self.records.len()
            invariant
                i <= self.records@.len(),
                forall|j: int| 0 <= j < i ==> (#[trigger] self.model()[j]).uuid != uuid@,
            decreases self.records@.len() - i,
        {
            if bytes_eq(&self.records[i].uuid, uuid) {
                assert(self.model()[i as int].uuid == uuid@);
                return Some(i);
            }
            i += 1;
        }
        None
    }

    /// Bulk creation: stores each record of `batch` whose UUID is not yet
    /// present, in order, and reports whether anything new was stored.
    /// Records with already-present UUIDs are left untouched — creation is
    /// idempotent per UUID.
    pub fn create_new_relation(&mut self, batch: &Vec<TelemetryRecord>) -> (created: bool)
        requires
            old(self).wf(),
            forall|i: int| 0 <= i < batch@.len() ==> (#[trigger] batch@[i]).wf(),
        ensures
            final(self).wf(),
            final(self).model() == insert_batch(
                old(self).model(),
                models_of(batch@),
            ),
            created == (final(self).model().len() > old(self).model().len()),
    {
        let ghost b = models_of(batch@);
        let old_len = self.records.len();
        let mut i: usize = 0;
        while i < batch.len()
            invariant
                i <= batch@.len(),
                b == models_of(batch@),
                forall|k: int| 0 <= k < batch@.len() ==> (#[trigger] batch@[k]).wf(),
                self.wf(),
                self.model() == insert_batch(old(self).model(), b.take(i as int)),
                self.records@.len() >= old(self).records@.len(),
                old_len == old(self).records@.len(),
            decreases batch@.len() - i,
        {
            let ghost pre = self.model();
            proof {
                lemma_insert_batch_snoc(old(self).model(), b.take(i as int), b[i as int]);
                assert(b.take(i as int).push(b[i as int]) =~= b.take(i as int + 1));
                assert(b[i as int] == batch@[i as int].model());
            }
            match self.find_uuid(&batch[i].uuid) {
                Some(_) => {
                    proof {
                        assert(insert_one(pre, b[i as int]) == pre);
                    }
                },
                None => {
                    let fresh = batch[i].duplicate();
                    self.records.push(fresh);
                    proof {
                        assert(self.model() =~= pre.push(b[i as int]));
                        assert(insert_one(pre, b[i as int]) == pre.push(b[i as int]));
                        lemma_wf_after_push(pre, b[i as int]);
                        assert forall|k: int|
                            0 <= k < self.records@.len() implies (
                        #[trigger] self.records@[k]).wf() by {
                            if k < pre.len() {
                            } else {
                                assert(self.records@[k] == fresh);
                            }
                        }
                    }
                },
            }
            i += 1;
        }
        proof {
            assert(b.take(i as int) =~= b);
        }
        self.records.len() > old_len
    }

    /// Point lookup: the first record bearing `uuid`, as a copy.
    pub fn get_specific_uuid_node(&self, uuid: &Vec<u8>) -> (r: Option<TelemetryRecord>)
        requires
            self.wf(),
        ensures
            match r {
                Some(rec) => rec.wf() && first_match(
                    self.model(),
                    (|m: RecordModel| m.uuid == uuid@),
                ) == Some(rec.model()),
                None => first_match(self.model(), (|m: RecordModel| m.uuid == uuid@))
                    is None,
            },
    {
        let ghost p = (|m: RecordModel| m.uuid == uuid@);
        proof {
            assert(self.model().skip(0) =~= self.model());
        }
        let mut i: usize = 0;
        while i < self.records.len()
            invariant
                self.wf(),
                i <= self.records@.len(),
                p == (|m: RecordModel| m.uuid == uuid@),
                first_match(self.model(), p) == first_match(
                    self.model().skip(i as int),
                    p,
                ),
            decreases self.records@.len() - i,
        {
            proof {
                assert(self.model().skip(i as int)[0] == self.model()[i as int]);
                assert(self.model().skip(i as int).skip(1) =~= self.model().skip(
                    i as int + 1,
                ));
            }
            if bytes_eq(&self.records[i].uuid, uuid) {
                let rec = self.records[i].duplicate();
                assert(p(self.model()[i as int]));
                return Some(rec);
            }
            assert(!p(self.model()[i as int]));
            i += 1;
        }
        assert(self.model().skip(i as int).len() == 0);
        None
    }

    /// The temperature and humidity of the first record at `timestamp`.
    pub fn get_temperature_humidity_at_time(&self, timestamp: &Vec<u8>) -> (r: Option<
        (Num, Num),
    >)
        requires
            self.wf(),
        ensures
            match r {
                Some(pair) => pair.0.wf() && pair.1.wf() && (first_match(
                    self.model(),
                    (|m: RecordModel| m.timestamp == timestamp@),
                ) matches Some(m) && m.temperature == pair.0.model() && m.humidity
                    == pair.1.model()),
                None => first_match(
                    self.model(),
                    (|m: RecordModel| m.timestamp == timestamp@),
                ) is None,
            },
    {
        let ghost p = (|m: RecordModel| m.timestamp == timestamp@);
        proof {
            assert(self.model().skip(0) =~= self.model());
        }
        let mut i: usize = 0;
        while i < self.records.len()
            invariant
                self.wf(),
                i <= self.records@.len(),
                p == (|m: RecordModel| m.timestamp == timestamp@),
                first_match(self.model(), p) == first_match(
                    self.model().skip(i as int),
                    p,
                ),
            decreases self.records@.len() - i,
        {
            proof {
                assert(self.model().skip(i as int)[0] == self.model()[i as int]);
                assert(self.model().skip(i as int).skip(1) =~= self.model().skip(
                    i as int + 1,
                ));
            }
            if bytes_eq(&self.records[i].timestamp, timestamp) {
                assert(p(self.model()[i as int]));
                return Some(
                    (self.records[i].temperature.duplicate(), self.records[i].humidity.duplicate()),
                );
            }
            assert(!p(self.model()[i as int]));
            i += 1;
        }
        assert(self.model().skip(i as int).len() == 0);
        None
    }

    /// Full scan: a copy of every record, in order.
    pub fn get_all_uuid_nodes(&self) -> (r: Vec<TelemetryRecord>)
        requires
            self.wf(),
        ensures
            models_of(r@) == self.model(),
            forall|i: int| 0 <= i < r@.len() ==> (#[trigger] r@[i]).wf(),
    {
        let mut out: Vec<TelemetryRecord> = Vec::new();
        let mut i: usize = 0;
        while i < self.records.len()
            invariant
                self.wf(),
                i <= self.records@.len(),
                models_of(out@) == self.model().take(i as int),
                forall|k: int| 0 <= k < out@.len() ==> (#[trigger] out@[k]).wf(),
            decreases self.records@.len() - i,
        {
            let ghost pre = models_of(out@);
            out.push(self.records[i].duplicate());
            proof {
                assert(models_of(out@) =~= pre.push(self.model()[i as int]));
                assert(models_of(out@) =~= self.model().take(i as int + 1));
            }
            i += 1;
        }
        proof {
            assert(self.model().take(i as int) =~= self.model());
        }
        out
    }

    /// Filter by exact color.
    pub fn get_nodes_with_color(&self, color: &Vec<u8>) -> (r: Vec<TelemetryRecord>)
        requires
            self.wf(),
        ensures
            models_of(r@) == matching(self.model(), (|m: RecordModel| m.color == color@)),
            forall|i: int| 0 <= i < r@.len() ==> (#[trigger] r@[i]).wf(),
    {
        let ghost p = (|m: RecordModel| m.color == color@);
        let mut out: Vec<TelemetryRecord> = Vec::new();
        let mut i: usize = 0;
        while i < self.records.len()
            invariant
                self.wf(),
                i <= self.records@.len(),
                p == (|m: RecordModel| m.color == color@),
                models_of(out@) == matching(self.model().take(i as int), p),
                forall|k: int| 0 <= k < out@.len() ==> (#[trigger] out@[k]).wf(),
            decreases self.records@.len() - i,
        {
            let ghost pre = models_of(out@);
            proof {
                lemma_matching_step(self.model(), p, i as int);
            }
            if bytes_eq(&self.records[i].color, color) {
                assert(p(self.model()[i as int]));
                out.push(self.records[i].duplicate());
                proof {
                    assert(models_of(out@) =~= pre.push(self.model()[i as int]));
                    assert(models_of(out@) =~= matching(self.model().take(i as int + 1), p));
                }
            } else {
                assert(!p(self.model()[i as int]));
            }
            i += 1;
        }
        proof {
            assert(self.model().take(i as int) =~= self.model());
        }
        out
    }

    /// Filter by timestamp range, both bounds inclusive, in lexicographic
    /// byte order.
    pub fn get_nodes_in_time_range(&self, start: &Vec<u8>, end: &Vec<u8>) -> (r: Vec<
        TelemetryRecord,
    >)
        requires
            self.wf(),
        ensures
            models_of(r@) == matching(
                self.model(),
                (|m: RecordModel| crate::text::lex_le(start@, m.timestamp)
                    && crate::text::lex_le(m.timestamp, end@)),
            ),
            forall|i: int| 0 <= i < r@.len() ==> (#[trigger] r@[i]).wf(),
    {
        let ghost p = (|m: RecordModel| crate::text::lex_le(start@, m.timestamp)
            && crate::text::lex_le(m.timestamp, end@));
        let mut out: Vec<TelemetryRecord> = Vec::new();
        let mut i: usize = 0;
        while i < self.records.len()
            invariant
                self.wf(),
                i <= self.records@.len(),
                p == (|m: RecordModel| crate::text::lex_le(start@, m.timestamp)
                    && crate::text::lex_le(m.timestamp, end@)),
                models_of(out@) == matching(self.model().take(i as int), p),
                forall|k: int| 0 <= k < out@.len() ==> (#[trigger] out@[k]).wf(),
            decreases self.records@.len() - i,
        {
            let ghost pre = models_of(out@);
            proof {
                lemma_matching_step(self.model(), p, i as int);
            }
            let lo = crate::text::bytes_le(start, &self.records[i].timestamp);
            let hi = crate::text::bytes_le(&self.records[i].timestamp, end);
            if lo && hi {
                assert(p(self.model()[i as int]));
                out.push(self.records[i].duplicate());
                proof {
                    assert(models_of(out@) =~= pre.push(self.model()[i as int]));
                    assert(models_of(out@) =~= matching(self.model().take(i as int + 1), p));
                }
            } else {
                assert(!p(self.model()[i as int]));
            }
            i += 1;
        }
        proof {
            assert(self.model().take(i as int) =~= self.model());
        }
        out
    }

    /// Filter by exact match on the temperature or the humidity.
    pub fn get_nodes_with_temperature_or_humidity(&self, temp: &Num, humidity: &Num) -> (r:
        Vec<TelemetryRecord>)
        requires
            self.wf(),
        ensures
            models_of(r@) == matching(
                self.model(),
                (|m: RecordModel| m.temperature == temp.model() || m.humidity
                    == humidity.model()),
            ),
            forall|i: int| 0 <= i < r@.len() ==> (#[trigger] r@[i]).wf(),
    {
        let ghost p = (|m: RecordModel| m.temperature == temp.model() || m.humidity
            == humidity.model());
        let mut out: Vec<TelemetryRecord> = Vec::new();
        let mut i: usize = 0;
        while i < self.records.len()
            invariant
                self.wf(),
                i <= self.records@.len(),
                p == (|m: RecordModel| m.temperature == temp.model() || m.humidity
                    == humidity.model()),
                models_of(out@) == matching(self.model().take(i as int), p),
                forall|k: int| 0 <= k < out@.len() ==> (#[trigger] out@[k]).wf(),
            decreases self.records@.len() - i,
        {
            let ghost pre = models_of(out@);
            proof {
                lemma_matching_step(self.model(), p, i as int);
            }
            let t = self.records[i].temperature.eq_num(temp);
            let h = self.records[i].humidity.eq_num(humidity);
            if t || h {
                assert(p(self.model()[i as int]));
                out.push(self.records[i].duplicate());
                proof {
                    assert(models_of(out@) =~= pre.push(self.model()[i as int]));
                    assert(models_of(out@) =~= matching(self.model().take(i as int + 1), p));
                }
            } else {
                assert(!p(self.model()[i as int]));
            }
            i += 1;
        }
        proof {
            assert(self.model().take(i as int) =~= self.model());
        }
        out
    }

    /// Filter by exact energy cost.
    pub fn get_nodes_with_energy_cost(&self, cost: &Num) -> (r: Vec<TelemetryRecord>)
        requires
            self.wf(),
        ensures
            models_of(r@) == matching(
                self.model(),
                (|m: RecordModel| m.energy_cost == cost.model()),
            ),
            forall|i: int| 0 <= i < r@.len() ==> (#[trigger] r@[i]).wf(),
    {
        let ghost p = (|m: RecordModel| m.energy_cost == cost.model());
        let mut out: Vec<TelemetryRecord> = Vec::new();
        let mut i: usize = 0;
        while i < self.records.len()
            invariant
                self.wf(),
                i <= self.records@.len(),
                p == (|m: RecordModel| m.energy_cost == cost.model()),
                models_of(out@) == matching(self.model().take(i as int), p),
                forall|k: int| 0 <= k < out@.len() ==> (#[trigger] out@[k]).wf(),
            decreases self.records@.len() - i,
        {
            let ghost pre = models_of(out@);
            proof {
                lemma_matching_step(self.model(), p, i as int);
            }
            if self.records[i].energy_cost.eq_num(cost) {
                assert(p(self.model()[i as int]));
                out.push(self.records[i].duplicate());
                proof {
                    assert(models_of(out@) =~= pre.push(self.model()[i as int]));
                    assert(models_of(out@) =~= matching(self.model().take(i as int + 1), p));
                }
            } else {
                assert(!p(self.model()[i as int]));
            }
            i += 1;
        }
        proof {
            assert(self.model().take(i as int) =~= self.model());
        }
        out
    }

    /// Filter by exact energy consumption.
    pub fn get_nodes_with_energy_consume(&self, consume: &Num) -> (r: Vec<TelemetryRecord>)
        requires
            self.wf(),
        ensures
            models_of(r@) == matching(
                self.model(),
                (|m: RecordModel| m.energy_consume == consume.model()),
            ),
            forall|i: int| 0 <= i < r@.len() ==> (#[trigger] r@[i]).wf(),
    {
        let ghost p = (|m: RecordModel| m.energy_consume == consume.model());
        let mut out: Vec<TelemetryRecord> = Vec::new();
        let mut i: usize = 0;
        while i < self.records.len()
            invariant
                self.wf(),
                i <= self.records@.len(),
                p == (|m: RecordModel| m.energy_consume == consume.model()),
                models_of(out@) == matching(self.model().take(i as int), p),
                forall|k: int| 0 <= k < out@.len() ==> (#[trigger] out@[k]).wf(),
            decreases self.records@.len() - i,
        {
            let ghost pre = models_of(out@);
            proof {
                lemma_matching_step(self.model(), p, i as int);
            }
            if self.records[i].energy_consume.eq_num(consume) {
                assert(p(self.model()[i as int]));
                out.push(self.records[i].duplicate());
                proof {
                    assert(models_of(out@) =~= pre.push(self.model()[i as int]));
                    assert(models_of(out@) =~= matching(self.model().take(i as int + 1), p));
                }
            } else {
                assert(!p(self.model()[i as int]));
            }
            i += 1;
        }
        proof {
            assert(self.model().take(i as int) =~= self.model());
        }
        out
    }
}

/// One step of the filter: extending the scanned prefix by one record
/// appends that record exactly when it satisfies the predicate.
proof fn lemma_matching_step(s: Seq<RecordModel>, p: spec_fn(RecordModel) -> bool, i: int)
    requires
        0 <= i < s.len(),
    ensures
        p(s[i]) ==> matching(s.take(i + 1), p) == matching(s.take(i), p) + seq![s[i]],
        !p(s[i]) ==> matching(s.take(i + 1), p) == matching(s.take(i), p),
{
    assert(s.take(i + 1).drop_last() =~= s.take(i));
    assert(s.take(i + 1).last() == s[i]);
    if !p(s[i]) {
        assert(matching(s.take(i + 1), p) =~= matching(s.take(i), p));
    }
}

/// Inserting a batch and then one more record is inserting the extended
/// batch.
proof fn lemma_insert_batch_snoc(s: Seq<RecordModel>, b: Seq<RecordModel>, r: RecordModel)
    ensures
        insert_batch(s, b.push(r)) == insert_one(insert_batch(s, b), r),
    decreases b.len(),
{
    if b.len() == 0 {
        assert(b.push(r)[0] == r);
        assert(b.push(r).skip(1) =~= Seq::<RecordModel>::empty());
        assert(insert_batch(insert_one(s, r), Seq::empty()) == insert_one(s, r));
    } else {
        assert(b.push(r)[0] == b[0]);
        assert(b.push(r).skip(1) =~= b.skip(1).push(r));
        lemma_insert_batch_snoc(insert_one(s, b[0]), b.skip(1), r);
    }
}

/// A UUID present in `s` stays present after inserting one record.
proof fn lemma_contains_after_insert_one(s: Seq<RecordModel>, r: RecordModel, u: Seq<u8>)
    requires
        contains_uuid(s, u),
    ensures
        contains_uuid(insert_one(s, r), u),
{
    let i = choose|i: int| 0 <= i < s.len() && (#[trigger] s[i]).uuid == u;
    if !contains_uuid(s, r.uuid) {
        assert(s.push(r)[i] == s[i]);
    }
}

/// A UUID present in `s` stays present after inserting a batch.
proof fn lemma_contains_after_insert_batch(s: Seq<RecordModel>, b: Seq<RecordModel>, u: Seq<u8>)
    requires
        contains_uuid(s, u),
    ensures
        contains_uuid(insert_batch(s, b), u),
    decreases b.len(),
{
    if b.len() > 0 {
        lemma_contains_after_insert_one(s, b[0], u);
        lemma_contains_after_insert_batch(insert_one(s, b[0]), b.skip(1), u);
    }
}

/// After inserting a batch, every UUID of the batch is present.
proof fn lemma_batch_uuids_present(s: Seq<RecordModel>, b: Seq<RecordModel>)
    ensures
        forall|k: int|
            0 <= k < b.len() ==> contains_uuid(insert_batch(s, b), (#[trigger] b[k]).uuid),
    decreases b.len(),
{
    if b.len() > 0 {
        let s1 = insert_one(s, b[0]);
        assert(contains_uuid(s1, b[0].uuid)) by {
            if !contains_uuid(s, b[0].uuid) {
                assert(s.push(b[0])[s.len() as int] == b[0]);
            } else {
                let i = choose|i: int|
                    0 <= i < s.len() && (#[trigger] s[i]).uuid == b[0].uuid;
                assert((s1[i]).uuid == b[0].uuid);
            }
        }
        lemma_contains_after_insert_batch(s1, b.skip(1), b[0].uuid);
        lemma_batch_uuids_present(s1, b.skip(1));
        assert forall|k: int|
            0 <= k < b.len() implies contains_uuid(
            insert_batch(s, b),
            (#[trigger] b[k]).uuid,
        ) by {
            if k > 0 {
                assert(b.skip(1)[k - 1] == b[k]);
            }
        }
    }
}

/// Inserting a batch whose UUIDs are all present changes nothing.
proof fn lemma_all_present_noop(s: Seq<RecordModel>, b: Seq<RecordModel>)
    requires
        forall|k: int|
            0 <= k < b.len() ==> contains_uuid(s, (#[trigger] b[k]).uuid),
    ensures
        insert_batch(s, b) == s,
    decreases b.len(),
{
    if b.len() > 0 {
        assert(contains_uuid(s, b[0].uuid));
        assert(insert_one(s, b[0]) == s);
        assert forall|k: int|
            0 <= k < b.skip(1).len() implies contains_uuid(
            s,
            (#[trigger] b.skip(1)[k]).uuid,
        ) by {
            assert(b.skip(1)[k] == b[k + 1]);
        }
        lemma_all_present_noop(s, b.skip(1));
    }
}

/// Bulk creation is idempotent: repeating the same batch stores nothing
/// new, so the repeated call leaves the store unchanged and reports no
/// creation.
pub proof fn lemma_create_idempotent(s: Seq<RecordModel>, b: Seq<RecordModel>)
    ensures
        insert_batch(insert_batch(s, b), b) == insert_batch(s, b),
{
    lemma_batch_uuids_present(s, b);
    lemma_all_present_noop(insert_batch(s, b), b);
}

/// A record created into an empty store is retrievable by UUID lookup, by
/// its color, by its timestamp, by exact temperature or humidity match, by
/// exact energy cost, and by exact energy consumption, each time equal on
/// all fields.
pub proof fn lemma_round_trip(r: RecordModel)
    ensures
        insert_batch(Seq::empty(), seq![r]) == seq![r],
        first_match(seq![r], (|m: RecordModel| m.uuid == r.uuid)) == Some(r),
        matching(seq![r], (|m: RecordModel| m.color == r.color)) == seq![r],
        (first_match(seq![r], (|m: RecordModel| m.timestamp == r.timestamp)) matches Some(
            m,
        ) && m.temperature == r.temperature && m.humidity == r.humidity),
        matching(
            seq![r],
            (|m: RecordModel| m.temperature == r.temperature || m.humidity == r.humidity),
        ) == seq![r],
        matching(seq![r], (|m: RecordModel| m.energy_cost == r.energy_cost)) == seq![r],
        matching(seq![r], (|m: RecordModel| m.energy_consume == r.energy_consume))
            == seq![r],
{
    let one = seq![r];
    let empty = Seq::<RecordModel>::empty();
    assert(!contains_uuid(empty, r.uuid));
    let s1 = insert_one(empty, r);
    assert(s1 =~= one);
    assert(one[0] == r);
    assert(one.skip(1).len() == 0);
    assert(insert_batch(s1, one.skip(1)) == s1);
    assert(insert_batch(empty, one) == insert_batch(s1, one.skip(1)));
    assert(insert_batch(Seq::empty(), one) == one);
    assert(one.drop_last() =~= empty);
    assert(one.last() == r);
    assert(matching(one.drop_last(), (|m: RecordModel| m.color == r.color)) =~= empty);
    assert(matching(one, (|m: RecordModel| m.color == r.color)) =~= one);
    assert(matching(
        one.drop_last(),
        (|m: RecordModel| m.temperature == r.temperature || m.humidity == r.humidity),
    ) =~= empty);
    assert(matching(
        one,
        (|m: RecordModel| m.temperature == r.temperature || m.humidity == r.humidity),
    ) =~= one);
    assert(matching(one.drop_last(), (|m: RecordModel| m.energy_cost == r.energy_cost))
        =~= empty);
    assert(matching(one, (|m: RecordModel| m.energy_cost == r.energy_cost)) =~= one);
    assert(matching(
        one.drop_last(),
        (|m: RecordModel| m.energy_consume == r.energy_consume),
    ) =~= empty);
    assert(matching(one, (|m: RecordModel| m.energy_consume == r.energy_consume)) =~= one);
}

/// Pushing a record with a fresh UUID keeps UUIDs unique.
proof fn lemma_wf_after_push(s: Seq<RecordModel>, r: RecordModel)
    requires
        !contains_uuid(s, r.uuid),
        forall|i: int, j: int|
            0 <= i < j < s.len() ==> (#[trigger] s[i]).uuid != (#[trigger] s[j]).uuid,
    ensures
        forall|i: int, j: int|
            0 <= i < j < s.push(r).len() ==> (#[trigger] s.push(r)[i]).uuid != (
            #[trigger] s.push(r)[j]).uuid,
{
    assert forall|i: int, j: int|
        0 <= i < j < s.push(r).len() implies (#[trigger] s.push(r)[i]).uuid != (
    #[trigger] s.push(r)[j]).uuid by {
        if j < s.len() {
            assert(s.push(r)[i] == s[i]);
            assert(s.push(r)[j] == s[j]);
        } else {
            assert(s.push(r)[j] == r);
            assert(s.push(r)[i] == s[i]);
            assert(!(s[i].uuid == r.uuid));
        }
    }
}

} // verus!
