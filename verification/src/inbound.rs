//! Inbound message extraction.
//!
//! Both transports deliver raw JSON bytes.  Parsing is done by serde_json
//! behind the trusted items below.  What the dispatcher reads — the type
//! discriminant, the optional target, and the type-specific fields, with
//! numbers as their decimal text — is a function of the bytes alone, named
//! `raw_message_of`; the one trusted wrapper `parse_raw` applies it.  The
//! verified `parse_message` then normalizes the raw fields into the
//! dispatcher's `InboundMessage`: number texts go through `parse_decimal`,
//! so a number outside the accepted decimal grammar counts as absent.
//! `parse_message` returns a message exactly when the bytes parse as JSON.

use vstd::prelude::*;

use crate::num::Num;

verus! {

/// serde_json's parsed document, carried opaquely.
#[verifier::external_type_specification]
#[verifier::external_body]
pub struct ExValue(serde_json::Value);

/// The raw fields of one record of a bulk-create array, as the document
/// carries them: strings as bytes, numbers as decimal text.
pub struct RawRecord {
    pub uuid: Option<Vec<u8>>,
    pub color: Option<Vec<u8>>,
    pub timestamp: Option<Vec<u8>>,
    pub energy_cost: Option<Vec<u8>>,
    pub energy_consume: Option<Vec<u8>>,
    pub temperature: Option<Vec<u8>>,
    pub humidity: Option<Vec<u8>>,
}

/// The raw fields of one inbound document, as it carries them.
pub struct RawMessage {
    pub msg_type: Option<Vec<u8>>,
    pub client_id: Option<Vec<u8>>,
    pub data_string: Option<Vec<u8>>,
    pub data_number: Option<Vec<u8>>,
    pub data_records: Option<Vec<RawRecord>>,
    pub start: Option<Vec<u8>>,
    pub end: Option<Vec<u8>>,
    pub temperature: Option<Vec<u8>>,
    pub humidity: Option<Vec<u8>>,
    pub command: Option<Vec<u8>>,
}

/// The mathematical content of a raw record: each field's bytes.
pub struct RawRecordModel {
    pub uuid: Option<Seq<u8>>,
    pub color: Option<Seq<u8>>,
    pub timestamp: Option<Seq<u8>>,
    pub energy_cost: Option<Seq<u8>>,
    pub energy_consume: Option<Seq<u8>>,
    pub temperature: Option<Seq<u8>>,
    pub humidity: Option<Seq<u8>>,
}

/// The mathematical content of a raw message.
pub struct RawMessageModel {
    pub msg_type: Option<Seq<u8>>,
    pub client_id: Option<Seq<u8>>,
    pub data_string: Option<Seq<u8>>,
    pub data_number: Option<Seq<u8>>,
    pub data_records: Option<Seq<RawRecordModel>>,
    pub start: Option<Seq<u8>>,
    pub end: Option<Seq<u8>>,
    pub temperature: Option<Seq<u8>>,
    pub humidity: Option<Seq<u8>>,
    pub command: Option<Seq<u8>>,
}

/// The bytes of a present field.
pub open spec fn opt_view(o: Option<Vec<u8>>) -> Option<Seq<u8>> {
    match o {
        Some(b) => Some(b@),
        None => None,
    }
}

impl RawRecord {
    /// The record's mathematical content.
    pub open spec fn model(self) -> RawRecordModel {
        RawRecordModel {
            uuid: opt_view(self.uuid),
            color: opt_view(self.color),
            timestamp: opt_view(self.timestamp),
            energy_cost: opt_view(self.energy_cost),
            energy_consume: opt_view(self.energy_consume),
            temperature: opt_view(self.temperature),
            humidity: opt_view(self.humidity),
        }
    }
}

impl RawMessage {
    /// The message's mathematical content.
    pub open spec fn model(self) -> RawMessageModel {
        RawMessageModel {
            msg_type: opt_view(self.msg_type),
            client_id: opt_view(self.client_id),
            data_string: opt_view(self.data_string),
            data_number: opt_view(self.data_number),
            data_records: match self.data_records {
                Some(rs) => Some(rs@.map_values(|r: RawRecord| r.model())),
                None => None,
            },
            start: opt_view(self.start),
            end: opt_view(self.end),
            temperature: opt_view(self.temperature),
            humidity: opt_view(self.humidity),
            command: opt_view(self.command),
        }
    }
}

/// What parsing yields on given bytes: nothing when they are not one
/// valid JSON document, else the document's raw dispatcher fields.  A
/// function of the bytes alone.
pub uninterp spec fn raw_message_of(bytes: Seq<u8>) -> Option<RawMessageModel>;

/// Relies on serde_json::Value::get and Value::as_str: the UTF-8 bytes of
/// the string under `key`, or nothing when absent or another kind.
#[verifier::external_body]
fn field_string(v: &serde_json::Value, key: &str) -> Option<Vec<u8>> {
    v.get(key).and_then(|x| x.as_str()).map(|s| s.as_bytes().to_vec())
}

/// Relies on serde_json::Value::get, Value::as_number and Number's
/// Display: the decimal text of the number under `key`, or nothing when
/// absent or another kind.
#[verifier::external_body]
fn field_number(v: &serde_json::Value, key: &str) -> Option<Vec<u8>> {
    v.get(key).and_then(|x| x.as_number()).map(|n| n.to_string().into_bytes())
}

/// Relies on serde_json::Value::get for the nested `sensor_data` object,
/// and on the field helpers above: the raw fields of one array element.
#[verifier::external_body]
fn record_fields(item: &serde_json::Value) -> RawRecord {
    let sensor = item.get("sensor_data");
    RawRecord {
        uuid: field_string(item, "uuid"),
        color: field_string(item, "color"),
        timestamp: field_string(item, "timestamp"),
        energy_cost: field_number(item, "energy_cost"),
        energy_consume: field_number(item, "energy_consume"),
        temperature: sensor.and_then(|s| field_number(s, "temperature")),
        humidity: sensor.and_then(|s| field_number(s, "humidity")),
    }
}

/// Relies on serde_json::Value::get and Value::as_array: the raw fields
/// of each element of the `data` array, or nothing when absent or not an
/// array.
#[verifier::external_body]
fn field_records(v: &serde_json::Value) -> Option<Vec<RawRecord>> {
    v.get("data").and_then(|d| d.as_array()).map(|xs| xs.iter().map(record_fields).collect())
}

/// Relies on serde_json::from_slice: parses one JSON document and hands
/// out its raw dispatcher fields.  The result is a function of the bytes
/// alone, named `raw_message_of`: parsing succeeds exactly when the bytes
/// are one valid JSON document, and then yields the named fields.
#[verifier::external_body]
fn parse_raw(bytes: &Vec<u8>) -> (r: Option<RawMessage>)
    ensures
        r is Some <==> raw_message_of(bytes@) is Some,
        r matches Some(m) ==> raw_message_of(bytes@) == Some(m.model()),
{
    let v: serde_json::Value = serde_json::from_slice(bytes.as_slice()).ok()?;
    Some(RawMessage {
        msg_type: field_string(&v, "type"),
        client_id: field_string(&v, "client_id"),
        data_string: field_string(&v, "data"),
        data_number: field_number(&v, "data"),
        data_records: field_records(&v),
        start: field_string(&v, "start"),
        end: field_string(&v, "end"),
        temperature: field_number(&v, "temperature"),
        humidity: field_number(&v, "humidity"),
        command: field_string(&v, "command"),
    })
}

/// One record of a bulk-create request, normalized: any field may be
/// absent or of the wrong kind.
pub struct RecordDraft {
    pub uuid: Option<Vec<u8>>,
    pub color: Option<Vec<u8>>,
    pub timestamp: Option<Vec<u8>>,
    pub energy_cost: Option<Num>,
    pub energy_consume: Option<Num>,
    pub temperature: Option<Num>,
    pub humidity: Option<Num>,
}

impl RecordDraft {
    /// Present numbers are in normal form.
    pub open spec fn wf(self) -> bool {
        &&& (self.energy_cost matches Some(n) ==> n.wf())
        &&& (self.energy_consume matches Some(n) ==> n.wf())
        &&& (self.temperature matches Some(n) ==> n.wf())
        &&& (self.humidity matches Some(n) ==> n.wf())
    }

    /// Every field is present.
    pub open spec fn complete(self) -> bool {
        &&& self.uuid is Some
        &&& self.color is Some
        &&& self.timestamp is Some
        &&& self.energy_cost is Some
        &&& self.energy_consume is Some
        &&& self.temperature is Some
        &&& self.humidity is Some
    }

    /// The draft is the normalization of the raw record: strings kept as
    /// they are, number texts parsed into normal form.
    pub open spec fn matches_raw(self, raw: RawRecordModel) -> bool {
        &&& opt_view(self.uuid) == raw.uuid
        &&& opt_view(self.color) == raw.color
        &&& opt_view(self.timestamp) == raw.timestamp
        &&& opt_num_model(self.energy_cost) == norm_num(raw.energy_cost)
        &&& opt_num_model(self.energy_consume) == norm_num(raw.energy_consume)
        &&& opt_num_model(self.temperature) == norm_num(raw.temperature)
        &&& opt_num_model(self.humidity) == norm_num(raw.humidity)
    }
}

/// One inbound message, normalized for the dispatcher.  The `data` field
/// keeps whichever typed reading applies: string, number, or record
/// array.
pub struct InboundMessage {
    pub msg_type: Option<Vec<u8>>,
    pub client_id: Option<Vec<u8>>,
    pub data_string: Option<Vec<u8>>,
    pub data_number: Option<Num>,
    pub data_records: Option<Vec<RecordDraft>>,
    pub start: Option<Vec<u8>>,
    pub end: Option<Vec<u8>>,
    pub temperature: Option<Num>,
    pub humidity: Option<Num>,
    pub command: Option<Vec<u8>>,
}

/// The model of a present normalized number.
pub open spec fn opt_num_model(o: Option<Num>) -> Option<(bool, nat, Seq<u8>)> {
    match o {
        Some(n) => Some(n.model()),
        None => None,
    }
}

/// The normalization of a number text: its parsed normal form, or nothing
/// when the text is absent, outside the decimal grammar, or too large.
pub open spec fn norm_num(t: Option<Seq<u8>>) -> Option<(bool, nat, Seq<u8>)> {
    match t {
        None => None,
        Some(s) => match crate::num::spec_parse_decimal(s) {
            Some(m) => if m.1 <= u64::MAX {
                Some(m)
            } else {
                None
            },
            None => None,
        },
    }
}

impl InboundMessage {
    /// Present numbers are in normal form, drafts likewise.
    pub open spec fn wf(self) -> bool {
        &&& (self.data_number matches Some(n) ==> n.wf())
        &&& (self.temperature matches Some(n) ==> n.wf())
        &&& (self.humidity matches Some(n) ==> n.wf())
        &&& (self.data_records matches Some(ds) ==> forall|i: int|
            0 <= i < ds@.len() ==> (#[trigger] ds@[i]).wf())
    }

    /// The message is the normalization of the raw fields: strings kept
    /// as they are, number texts parsed into normal form, each array
    /// element normalized in place.
    pub open spec fn matches_raw(self, raw: RawMessageModel) -> bool {
        &&& opt_view(self.msg_type) == raw.msg_type
        &&& opt_view(self.client_id) == raw.client_id
        &&& opt_view(self.data_string) == raw.data_string
        &&& opt_num_model(self.data_number) == norm_num(raw.data_number)
        &&& match (self.data_records, raw.data_records) {
            (Some(ds), Some(rs)) => ds@.len() == rs.len() && (forall|i: int|
                0 <= i < ds@.len() ==> (#[trigger] ds@[i]).matches_raw(rs[i])),
            (None, None) => true,
            _ => false,
        }
        &&& opt_view(self.start) == raw.start
        &&& opt_view(self.end) == raw.end
        &&& opt_num_model(self.temperature) == norm_num(raw.temperature)
        &&& opt_num_model(self.humidity) == norm_num(raw.humidity)
        &&& opt_view(self.command) == raw.command
    }
}

/// Normalizes one number text.
fn norm_number(t: Option<Vec<u8>>) -> (r: Option<Num>)
    ensures
        opt_num_model(r) == norm_num(opt_view(t)),
        r matches Some(n) ==> n.wf(),
{
    match t {
        Some(text) => crate::num::parse_decimal(&text),
        None => None,
    }
}

/// Normalizes one raw record.
fn norm_record(raw: RawRecord) -> (r: RecordDraft)
    ensures
        r.wf(),
        r.matches_raw(raw.model()),
{
    RecordDraft {
        uuid: raw.uuid,
        color: raw.color,
        timestamp: raw.timestamp,
        energy_cost: norm_number(raw.energy_cost),
        energy_consume: norm_number(raw.energy_consume),
        temperature: norm_number(raw.temperature),
        humidity: norm_number(raw.humidity),
    }
}

/// Normalizes one raw message.
fn norm_message(raw: RawMessage) -> (r: InboundMessage)
    ensures
        r.wf(),
        r.matches_raw(raw.model()),
{
    let ghost raw_model = raw.model();
    let RawMessage {
        msg_type,
        client_id,
        data_string,
        data_number,
        data_records,
        start,
        end,
        temperature,
        humidity,
        command,
    } = raw;
    let drafts: Option<Vec<RecordDraft>> = match data_records {
        Some(rs) => {
            let ghost rs_models = rs@.map_values(|r: RawRecord| r.model());
            let mut out: Vec<RecordDraft> = Vec::new();
            let mut rest = rs;
            proof {
                assert(rest@.map_values(|r: RawRecord| r.model()) =~= rs_models.skip(0));
            }
            while rest.len() > 0
                invariant
                    out@.len() + rest@.len() == rs_models.len(),
                    rest@.map_values(|r: RawRecord| r.model()) == rs_models.skip(
                        out@.len() as int,
                    ),
                    forall|k: int|
                        0 <= k < out@.len() ==> (#[trigger] out@[k]).wf()
                            && out@[k].matches_raw(rs_models[k]),
                decreases rest@.len(),
            {
                let ghost n_done = out@.len() as int;
                let ghost before = rest@;
                let first = rest.remove(0);
                proof {
                    assert(first.model() == before.map_values(
                        |r: RawRecord| r.model(),
                    )[0]);
                    assert(first.model() == rs_models[n_done]);
                    assert(rest@ =~= before.skip(1));
                    let mr = rest@.map_values(|r: RawRecord| r.model());
                    assert forall|j: int|
                        0 <= j < rest@.len() implies #[trigger] mr[j] == rs_models.skip(
                        n_done + 1,
                    )[j] by {
                        assert(rest@[j] == before[j + 1]);
                        assert(before.map_values(|r: RawRecord| r.model())[j + 1]
                            == rs_models.skip(n_done)[j + 1]);
                    }
                    assert(mr =~= rs_models.skip(n_done + 1));
                }
                let d = norm_record(first);
                out.push(d);
            }
            proof {
                assert(out@.len() == rs_models.len());
            }
            Some(out)
        },
        None => None,
    };
    let r = InboundMessage {
        msg_type,
        client_id,
        data_string,
        data_number: norm_number(data_number),
        data_records: drafts,
        start,
        end,
        temperature: norm_number(temperature),
        humidity: norm_number(humidity),
        command,
    };
    r
}

/// Parses raw transport bytes into the dispatcher's message shape: a
/// message exactly when the bytes are one valid JSON document, and then
/// the normalization of the document's raw fields.
pub fn parse_message(bytes: &Vec<u8>) -> (r: Option<InboundMessage>)
    ensures
        r is Some <==> raw_message_of(bytes@) is Some,
        r matches Some(m) ==> m.wf() && (raw_message_of(bytes@) matches Some(raw)
            && m.matches_raw(raw)),
{
    match parse_raw(bytes) {
        Some(raw) => Some(norm_message(raw)),
        None => None,
    }
}

} // verus!
