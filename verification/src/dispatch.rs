//! The command dispatcher.
//!
//! Dispatch is a total function over the message's `type` discriminant:
//! each recognized type names one store operation and its required fields.
//! A recognized type with a missing or mistyped required field is a
//! validation error — logged and dropped, no reply.  An unrecognized type
//! is logged and dropped.  Bulk creation and administrative commands are
//! reachable from the TCP path only; on the broker path those types are
//! treated as unrecognized.  A broker message carrying a `client_id` that
//! names another instance is silently discarded unless it arrived on this
//! session's own topic, which overrides the target filter.

use vstd::prelude::*;

use crate::chunk::{fragment_count, Envelope, PublishPlan};
use crate::inbound::{InboundMessage, RecordDraft};
use crate::num::Num;
use crate::store::{
    first_match, insert_batch, matching, models_of, RecordModel, RecordStore, TelemetryRecord,
};
use crate::text::{ascii_bytes_of, lex_le};

verus! {

/// An administrative command from the TCP path.
pub enum AdminCommand {
    Exit,
    Reset,
    Status,
}

/// One data operation, with its validated arguments.
pub enum Request {
    Uuid(Vec<u8>),
    All,
    Color(Vec<u8>),
    TimeRange(Vec<u8>, Vec<u8>),
    TemperatureHumidity(Num, Num),
    AtTimestamp(Vec<u8>),
    EnergyCost(Num),
    EnergyConsume(Num),
    Create(Vec<TelemetryRecord>),
    Admin(AdminCommand),
}

/// The dispatcher's reading of one message.
pub enum Classified {
    /// A recognized type with all required fields.
    Op(Request),
    /// A recognized type with a missing or mistyped required field:
    /// logged and dropped, no reply.
    ValidationError,
    /// An unrecognized type, or a TCP-only type on the broker path:
    /// logged and dropped.
    Unknown,
}

/// The message's type discriminant equals `name`.
pub open spec fn type_is(m: InboundMessage, name: Seq<u8>) -> bool {
    m.msg_type matches Some(t) && t@ == name
}

/// The discriminants the dispatcher recognizes.
pub open spec fn known_type(t: Seq<u8>) -> bool {
    ||| t == ascii_bytes_of("uuid"@)
    ||| t == ascii_bytes_of("all"@)
    ||| t == ascii_bytes_of("color"@)
    ||| t == ascii_bytes_of("time_range"@)
    ||| t == ascii_bytes_of("temperature_humidity"@)
    ||| t == ascii_bytes_of("timestamp"@)
    ||| t == ascii_bytes_of("energy_cost"@)
    ||| t == ascii_bytes_of("energy_consume"@)
    ||| t == ascii_bytes_of("data"@)
    ||| t == ascii_bytes_of("command"@)
}

/// The record a complete draft describes.
pub open spec fn draft_record(d: RecordDraft) -> RecordModel {
    RecordModel {
        uuid: opt_bytes(d.uuid),
        color: opt_bytes(d.color),
        timestamp: opt_bytes(d.timestamp),
        energy_cost: opt_num(d.energy_cost),
        energy_consume: opt_num(d.energy_consume),
        temperature: opt_num(d.temperature),
        humidity: opt_num(d.humidity),
    }
}

/// The bytes of a present field; empty when absent.
pub open spec fn opt_bytes(o: Option<Vec<u8>>) -> Seq<u8> {
    match o {
        Some(b) => b@,
        None => Seq::empty(),
    }
}

/// The model of a present number; zero when absent.
pub open spec fn opt_num(o: Option<Num>) -> (bool, nat, Seq<u8>) {
    match o {
        Some(n) => n.model(),
        None => (false, 0nat, Seq::<u8>::empty()),
    }
}

/// Turns a complete draft into a record; an incomplete draft is rejected.
pub fn validate_draft(d: &RecordDraft) -> (r: Option<TelemetryRecord>)
    requires
        d.wf(),
    ensures
        d.complete() ==> (r matches Some(rec) && rec.wf() && rec.model() == draft_record(
            *d,
        )),
        !d.complete() ==> r is None,
{
    let uuid = match &d.uuid {
        Some(b) => crate::store::copy_bytes(b),
        None => {
            return None;
        },
    };
    let color = match &d.color {
        Some(b) => crate::store::copy_bytes(b),
        None => {
            return None;
        },
    };
    let timestamp = match &d.timestamp {
        Some(b) => crate::store::copy_bytes(b),
        None => {
            return None;
        },
    };
    let energy_cost = match &d.energy_cost {
        Some(n) => n.duplicate(),
        None => {
            return None;
        },
    };
    let energy_consume = match &d.energy_consume {
        Some(n) => n.duplicate(),
        None => {
            return None;
        },
    };
    let temperature = match &d.temperature {
        Some(n) => n.duplicate(),
        None => {
            return None;
        },
    };
    let humidity = match &d.humidity {
        Some(n) => n.duplicate(),
        None => {
            return None;
        },
    };
    let rec = TelemetryRecord {
        uuid,
        color,
        timestamp,
        energy_cost,
        energy_consume,
        temperature,
        humidity,
    };
    assert(rec.model() =~= draft_record(*d));
    Some(rec)
}

/// Every draft of the batch is complete.
pub open spec fn all_complete(ds: Seq<RecordDraft>) -> bool {
    forall|i: int| 0 <= i < ds.len() ==> (#[trigger] ds[i]).complete()
}

/// Turns a batch of drafts into records; any incomplete draft rejects the
/// whole batch.
pub fn validate_batch(ds: &Vec<RecordDraft>) -> (r: Option<Vec<TelemetryRecord>>)
    requires
        forall|i: int| 0 <= i < ds@.len() ==> (#[trigger] ds@[i]).wf(),
    ensures
        all_complete(ds@) ==> (r matches Some(recs) && models_of(recs@)
            == ds@.map_values(|d: RecordDraft| draft_record(d)) && (forall|i: int|
            0 <= i < recs@.len() ==> (#[trigger] recs@[i]).wf())),
        !all_complete(ds@) ==> r is None,
{
    let mut out: Vec<TelemetryRecord> = Vec::new();
    let mut i: usize = 0;
    while i < ds.len()
        invariant
            i <= ds@.len(),
            forall|k: int| 0 <= k < ds@.len() ==> (#[trigger] ds@[k]).wf(),
            forall|k: int| 0 <= k < i ==> (#[trigger] ds@[k]).complete(),
            models_of(out@) == ds@.take(i as int).map_values(
                |d: RecordDraft| draft_record(d),
            ),
            forall|k: int| 0 <= k < out@.len() ==> (#[trigger] out@[k]).wf(),
        decreases ds@.len() - i,
    {
        let ghost pre = models_of(out@);
        match validate_draft(&ds[i]) {
            Some(rec) => {
                out.push(rec);
                proof {
                    assert(models_of(out@) =~= pre.push(draft_record(ds@[i as int])));
                    assert(models_of(out@) =~= ds@.take(i as int + 1).map_values(
                        |d: RecordDraft| draft_record(d),
                    ));
                }
            },
            None => {
                assert(!ds@[i as int].complete());
                return None;
            },
        }
        i += 1;
    }
    proof {
        assert(ds@.take(i as int) =~= ds@);
    }
    Some(out)
}

/// Classifies one message per the dispatch table.  `from_tcp` marks the
/// TCP path, where bulk creation and administrative commands are allowed.
pub fn classify(msg: &InboundMessage, from_tcp: bool) -> (r: Classified)
    requires
        msg.wf(),
    ensures
        msg.msg_type is None ==> r is Unknown,
        (msg.msg_type matches Some(t) && !known_type(t@)) ==> r is Unknown,
        type_is(*msg, ascii_bytes_of("uuid"@)) ==> (match msg.data_string {
            Some(d) => r matches Classified::Op(Request::Uuid(u)) && u@ == d@,
            None => r is ValidationError,
        }),
        type_is(*msg, ascii_bytes_of("all"@)) ==> r matches Classified::Op(Request::All),
        type_is(*msg, ascii_bytes_of("color"@)) ==> (match msg.data_string {
            Some(d) => r matches Classified::Op(Request::Color(c)) && c@ == d@,
            None => r is ValidationError,
        }),
        type_is(*msg, ascii_bytes_of("time_range"@)) ==> (match msg.start {
            Some(s) => match msg.end {
                Some(e) => r matches Classified::Op(Request::TimeRange(a, b)) && a@ == s@
                    && b@ == e@,
                None => r is ValidationError,
            },
            None => r is ValidationError,
        }),
        type_is(*msg, ascii_bytes_of("temperature_humidity"@)) ==> (match msg.temperature {
            Some(t) => match msg.humidity {
                Some(h) => r matches Classified::Op(Request::TemperatureHumidity(a, b))
                    && a.model() == t.model() && b.model() == h.model() && a.wf()
                    && b.wf(),
                None => r is ValidationError,
            },
            None => r is ValidationError,
        }),
        type_is(*msg, ascii_bytes_of("timestamp"@)) ==> (match msg.data_string {
            Some(d) => r matches Classified::Op(Request::AtTimestamp(ts)) && ts@ == d@,
            None => r is ValidationError,
        }),
        type_is(*msg, ascii_bytes_of("energy_cost"@)) ==> (match msg.data_number {
            Some(n) => r matches Classified::Op(Request::EnergyCost(c)) && c.model()
                == n.model() && c.wf(),
            None => r is ValidationError,
        }),
        type_is(*msg, ascii_bytes_of("energy_consume"@)) ==> (match msg.data_number {
            Some(n) => r matches Classified::Op(Request::EnergyConsume(c)) && c.model()
                == n.model() && c.wf(),
            None => r is ValidationError,
        }),
        type_is(*msg, ascii_bytes_of("data"@)) && !from_tcp ==> r is Unknown,
        type_is(*msg, ascii_bytes_of("data"@)) && from_tcp ==> (match msg.data_records {
            Some(ds) => {
                if ds@.len() > 0 && all_complete(ds@) {
                    r matches Classified::Op(Request::Create(recs)) && models_of(recs@)
                        == ds@.map_values(|d: RecordDraft| draft_record(d)) && (forall|
                        i: int,
                    |
                        0 <= i < recs@.len() ==> (#[trigger] recs@[i]).wf())
                } else {
                    r is ValidationError
                }
            },
            None => r is ValidationError,
        }),
        type_is(*msg, ascii_bytes_of("command"@)) && !from_tcp ==> r is Unknown,
        type_is(*msg, ascii_bytes_of("command"@)) && from_tcp ==> (match msg.command {
            Some(c) => {
                if c@ == ascii_bytes_of("exit"@) {
                    r matches Classified::Op(Request::Admin(AdminCommand::Exit))
                } else if c@ == ascii_bytes_of("reset"@) {
                    r matches Classified::Op(Request::Admin(AdminCommand::Reset))
                } else if c@ == ascii_bytes_of("status"@) {
                    r matches Classified::Op(Request::Admin(AdminCommand::Status))
                } else {
                    r is ValidationError
                }
            },
            None => r is ValidationError,
        }),
{
    proof {
        reveal_strlit("uuid");
        reveal_strlit("all");
        reveal_strlit("color");
        reveal_strlit("time_range");
        reveal_strlit("temperature_humidity");
        reveal_strlit("timestamp");
        reveal_strlit("energy_cost");
        reveal_strlit("energy_consume");
        reveal_strlit("data");
        reveal_strlit("command");
        reveal_strlit("exit");
        reveal_strlit("reset");
        reveal_strlit("status");
        // The recognized discriminants are pairwise distinct.
        assert(ascii_bytes_of("uuid"@).len() == 4);
        assert(ascii_bytes_of("all"@).len() == 3);
        assert(ascii_bytes_of("color"@).len() == 5);
        assert(ascii_bytes_of("time_range"@).len() == 10);
        assert(ascii_bytes_of("temperature_humidity"@).len() == 20);
        assert(ascii_bytes_of("timestamp"@).len() == 9);
        assert(ascii_bytes_of("energy_cost"@).len() == 11);
        assert(ascii_bytes_of("energy_consume"@).len() == 14);
        assert(ascii_bytes_of("data"@).len() == 4);
        assert(ascii_bytes_of("command"@).len() == 7);
        assert(ascii_bytes_of("uuid"@)[0] != ascii_bytes_of("data"@)[0]);
    }
    let t = match &msg.msg_type {
        Some(t) => t,
        None => {
            return Classified::Unknown;
        },
    };
    if crate::text::bytes_eq(t, &crate::text::lit_bytes("uuid")) {
        match &msg.data_string {
            Some(d) => Classified::Op(Request::Uuid(crate::store::copy_bytes(d))),
            None => Classified::ValidationError,
        }
    } else if crate::text::bytes_eq(t, &crate::text::lit_bytes("all")) {
        Classified::Op(Request::All)
    } else if crate::text::bytes_eq(t, &crate::text::lit_bytes("color")) {
        match &msg.data_string {
            Some(d) => Classified::Op(Request::Color(crate::store::copy_bytes(d))),
            None => Classified::ValidationError,
        }
    } else if crate::text::bytes_eq(t, &crate::text::lit_bytes("time_range")) {
        match (&msg.start, &msg.end) {
            (Some(s), Some(e)) => Classified::Op(
                Request::TimeRange(crate::store::copy_bytes(s), crate::store::copy_bytes(e)),
            ),
            _ => Classified::ValidationError,
        }
    } else if crate::text::bytes_eq(t, &crate::text::lit_bytes("temperature_humidity")) {
        match (&msg.temperature, &msg.humidity) {
            (Some(a), Some(b)) => Classified::Op(
                Request::TemperatureHumidity(a.duplicate(), b.duplicate()),
            ),
            _ => Classified::ValidationError,
        }
    } else if crate::text::bytes_eq(t, &crate::text::lit_bytes("timestamp")) {
        match &msg.data_string {
            Some(d) => Classified::Op(Request::AtTimestamp(crate::store::copy_bytes(d))),
            None => Classified::ValidationError,
        }
    } else if crate::text::bytes_eq(t, &crate::text::lit_bytes("energy_cost")) {
        match &msg.data_number {
            Some(n) => Classified::Op(Request::EnergyCost(n.duplicate())),
            None => Classified::ValidationError,
        }
    } else if crate::text::bytes_eq(t, &crate::text::lit_bytes("energy_consume")) {
        match &msg.data_number {
            Some(n) => Classified::Op(Request::EnergyConsume(n.duplicate())),
            None => Classified::ValidationError,
        }
    } else if crate::text::bytes_eq(t, &crate::text::lit_bytes("data")) {
        if !from_tcp {
            return Classified::Unknown;
        }
        match &msg.data_records {
            Some(ds) => {
                if ds.len() == 0 {
                    return Classified::ValidationError;
                }
                match validate_batch(ds) {
                    Some(recs) => Classified::Op(Request::Create(recs)),
                    None => Classified::ValidationError,
                }
            },
            None => Classified::ValidationError,
        }
    } else if crate::text::bytes_eq(t, &crate::text::lit_bytes("command")) {
        if !from_tcp {
            return Classified::Unknown;
        }
        match &msg.command {
            Some(c) => {
                if crate::text::bytes_eq(c, &crate::text::lit_bytes("exit")) {
                    Classified::Op(Request::Admin(AdminCommand::Exit))
                } else if crate::text::bytes_eq(c, &crate::text::lit_bytes("reset")) {
                    Classified::Op(Request::Admin(AdminCommand::Reset))
                } else if crate::text::bytes_eq(c, &crate::text::lit_bytes("status")) {
                    Classified::Op(Request::Admin(AdminCommand::Status))
                } else {
                    Classified::ValidationError
                }
            },
            None => Classified::ValidationError,
        }
    } else {
        Classified::Unknown
    }
}

/// The targeting rule: a message is for this session when it names no
/// target, names this session's identity, or arrived on the
/// session-specific topic (the topic overrides the target filter).
pub open spec fn spec_accepts(client_id: Option<Vec<u8>>, sid: Seq<u8>, on_session_topic: bool) -> bool {
    match client_id {
        None => true,
        Some(c) => c@ == sid || on_session_topic,
    }
}

/// Decides the targeting rule.
pub fn accepts_message(client_id: &Option<Vec<u8>>, session_id: &Vec<u8>, on_session_topic: bool) -> (r: bool)
    ensures
        r == spec_accepts(*client_id, session_id@, on_session_topic),
{
    match client_id {
        None => true,
        Some(c) => crate::text::bytes_eq(c, session_id) || on_session_topic,
    }
}

/// The operation segment of the response topic for a request.
pub open spec fn op_suffix(req: RequestModel) -> Seq<u8> {
    match req {
        RequestModel::Uuid(_) => ascii_bytes_of("uuid"@),
        RequestModel::All => ascii_bytes_of("all"@),
        RequestModel::Color(_) => ascii_bytes_of("color"@),
        RequestModel::TimeRange(_, _) => ascii_bytes_of("time_range"@),
        RequestModel::TemperatureHumidity(_, _) => ascii_bytes_of("temperature_humidity"@),
        RequestModel::AtTimestamp(_) => ascii_bytes_of("timestamp"@),
        RequestModel::EnergyCost(_) => ascii_bytes_of("energy_cost"@),
        RequestModel::EnergyConsume(_) => ascii_bytes_of("energy_consume"@),
        RequestModel::Create(_) => ascii_bytes_of("data"@),
        RequestModel::Admin(_) => ascii_bytes_of("command"@),
    }
}

/// The key segment of the response topic: the looked-up UUID for a point
/// lookup, nothing otherwise.
pub open spec fn op_key(req: RequestModel) -> Option<Seq<u8>> {
    match req {
        RequestModel::Uuid(u) => Some(u),
        _ => None,
    }
}

/// Builds the response topic of a request for a session.
pub fn response_topic_for(req: &Request, session_id: &Vec<u8>) -> (r: Vec<u8>)
    ensures
        r@ == crate::topics::response_topic_bytes(
            session_id@,
            op_suffix(req_model(*req)),
            op_key(req_model(*req)),
        ),
{
    proof {
        reveal_strlit("uuid");
        reveal_strlit("all");
        reveal_strlit("color");
        reveal_strlit("time_range");
        reveal_strlit("temperature_humidity");
        reveal_strlit("timestamp");
        reveal_strlit("energy_cost");
        reveal_strlit("energy_consume");
        reveal_strlit("data");
        reveal_strlit("command");
    }
    match req {
        Request::Uuid(u) => crate::topics::response_topic(session_id, "uuid", Some(u)),
        Request::All => crate::topics::response_topic(session_id, "all", None),
        Request::Color(_) => crate::topics::response_topic(session_id, "color", None),
        Request::TimeRange(_, _) => crate::topics::response_topic(session_id, "time_range", None),
        Request::TemperatureHumidity(_, _) => crate::topics::response_topic(
            session_id,
            "temperature_humidity",
            None,
        ),
        Request::AtTimestamp(_) => crate::topics::response_topic(session_id, "timestamp", None),
        Request::EnergyCost(_) => crate::topics::response_topic(session_id, "energy_cost", None),
        Request::EnergyConsume(_) => crate::topics::response_topic(
            session_id,
            "energy_consume",
            None,
        ),
        Request::Create(_) => crate::topics::response_topic(session_id, "data", None),
        Request::Admin(_) => crate::topics::response_topic(session_id, "command", None),
    }
}

/// The mathematical content of a request: the same shape over sequences
/// and number models.
pub enum RequestModel {
    Uuid(Seq<u8>),
    All,
    Color(Seq<u8>),
    TimeRange(Seq<u8>, Seq<u8>),
    TemperatureHumidity((bool, nat, Seq<u8>), (bool, nat, Seq<u8>)),
    AtTimestamp(Seq<u8>),
    EnergyCost((bool, nat, Seq<u8>)),
    EnergyConsume((bool, nat, Seq<u8>)),
    Create(Seq<RecordModel>),
    Admin(AdminCommand),
}

/// The model of a request.
pub open spec fn req_model(r: Request) -> RequestModel {
    match r {
        Request::Uuid(u) => RequestModel::Uuid(u@),
        Request::All => RequestModel::All,
        Request::Color(c) => RequestModel::Color(c@),
        Request::TimeRange(a, b) => RequestModel::TimeRange(a@, b@),
        Request::TemperatureHumidity(t, h) => RequestModel::TemperatureHumidity(
            t.model(),
            h.model(),
        ),
        Request::AtTimestamp(ts) => RequestModel::AtTimestamp(ts@),
        Request::EnergyCost(c) => RequestModel::EnergyCost(c.model()),
        Request::EnergyConsume(c) => RequestModel::EnergyConsume(c.model()),
        Request::Create(recs) => RequestModel::Create(models_of(recs@)),
        Request::Admin(a) => RequestModel::Admin(a),
    }
}

/// The read request a broker message asks for, if any: the dispatch table
/// restricted to the broker path, where bulk creation and administrative
/// commands do not exist and a missing required field asks for nothing.
pub open spec fn broker_read_request(m: InboundMessage) -> Option<RequestModel> {
    match m.msg_type {
        None => None,
        Some(t) => {
            if t@ == ascii_bytes_of("uuid"@) {
                match m.data_string {
                    Some(d) => Some(RequestModel::Uuid(d@)),
                    None => None,
                }
            } else if t@ == ascii_bytes_of("all"@) {
                Some(RequestModel::All)
            } else if t@ == ascii_bytes_of("color"@) {
                match m.data_string {
                    Some(d) => Some(RequestModel::Color(d@)),
                    None => None,
                }
            } else if t@ == ascii_bytes_of("time_range"@) {
                match (m.start, m.end) {
                    (Some(a), Some(b)) => Some(RequestModel::TimeRange(a@, b@)),
                    _ => None,
                }
            } else if t@ == ascii_bytes_of("temperature_humidity"@) {
                match (m.temperature, m.humidity) {
                    (Some(a), Some(b)) => Some(
                        RequestModel::TemperatureHumidity(a.model(), b.model()),
                    ),
                    _ => None,
                }
            } else if t@ == ascii_bytes_of("timestamp"@) {
                match m.data_string {
                    Some(d) => Some(RequestModel::AtTimestamp(d@)),
                    None => None,
                }
            } else if t@ == ascii_bytes_of("energy_cost"@) {
                match m.data_number {
                    Some(n) => Some(RequestModel::EnergyCost(n.model())),
                    None => None,
                }
            } else if t@ == ascii_bytes_of("energy_consume"@) {
                match m.data_number {
                    Some(n) => Some(RequestModel::EnergyConsume(n.model())),
                    None => None,
                }
            } else {
                None
            }
        },
    }
}

/// The response payload of a read request against a store.
pub open spec fn query_payload(s: Seq<RecordModel>, req: RequestModel) -> Seq<u8> {
    match req {
        RequestModel::Uuid(u) => match first_match(s, (|m: RecordModel| m.uuid == u)) {
            Some(m) => crate::render::record_json(m),
            None => crate::render::not_found_json(u),
        },
        RequestModel::All => crate::render::records_json(s),
        RequestModel::Color(c) => crate::render::records_json(
            matching(s, (|m: RecordModel| m.color == c)),
        ),
        RequestModel::TimeRange(a, b) => crate::render::records_json(
            matching(
                s,
                (|m: RecordModel| lex_le(a, m.timestamp) && lex_le(m.timestamp, b)),
            ),
        ),
        RequestModel::TemperatureHumidity(t, h) => crate::render::records_json(
            matching(s, (|m: RecordModel| m.temperature == t || m.humidity == h)),
        ),
        RequestModel::AtTimestamp(ts) => match first_match(
            s,
            (|m: RecordModel| m.timestamp == ts),
        ) {
            Some(m) => crate::render::pair_json(m.temperature, m.humidity),
            None => ascii_bytes_of("{\"found\":false}"@),
        },
        RequestModel::EnergyCost(c) => crate::render::records_json(
            matching(s, (|m: RecordModel| m.energy_cost == c)),
        ),
        RequestModel::EnergyConsume(c) => crate::render::records_json(
            matching(s, (|m: RecordModel| m.energy_consume == c)),
        ),
        RequestModel::Create(_) => Seq::empty(),
        RequestModel::Admin(_) => Seq::empty(),
    }
}

/// Runs a read request against the store and renders its response
/// payload.  An empty result set renders as an empty array; a missed
/// point lookup renders as a not-found shape — the two are
/// distinguishable.
pub fn run_query(store: &RecordStore, req: &Request) -> (r: Vec<u8>)
    requires
        store.wf(),
        !(req is Create),
        !(req is Admin),
    ensures
        r@ == query_payload(store.model(), req_model(*req)),
{
    match req {
        Request::Uuid(u) => match store.get_specific_uuid_node(u) {
            Some(rec) => {
                let mut out: Vec<u8> = Vec::new();
                crate::render::push_record_json(&mut out, &rec);
                out
            },
            None => crate::render::not_found_payload(u),
        },
        Request::All => crate::render::records_array_json(&store.get_all_uuid_nodes()),
        Request::Color(c) => crate::render::records_array_json(&store.get_nodes_with_color(c)),
        Request::TimeRange(a, b) => crate::render::records_array_json(
            &store.get_nodes_in_time_range(a, b),
        ),
        Request::TemperatureHumidity(t, h) => crate::render::records_array_json(
            &store.get_nodes_with_temperature_or_humidity(t, h),
        ),
        Request::AtTimestamp(ts) => match store.get_temperature_humidity_at_time(ts) {
            Some(pair) => crate::render::pair_payload(&pair.0, &pair.1),
            None => {
                proof {
                    reveal_strlit("{\"found\":false}");
                }
                crate::text::lit_bytes("{\"found\":false}")
            },
        },
        Request::EnergyCost(c) => crate::render::records_array_json(
            &store.get_nodes_with_energy_cost(c),
        ),
        Request::EnergyConsume(c) => crate::render::records_array_json(
            &store.get_nodes_with_energy_consume(c),
        ),
        Request::Create(_) => Vec::new(),
        Request::Admin(_) => Vec::new(),
    }
}

/// The outcome of one administrative command.
pub enum RouterOutcome {
    /// `exit`: the process is to terminate.
    Exit,
    /// `reset`: every record deleted, topology reinitialized.
    ResetDone(crate::cluster::ClusterLayout),
    /// `status`: alive.
    StatusOk,
    /// Any other command string.
    Invalid,
}

/// Routes one administrative command string to its action.
pub fn router(command: &Vec<u8>, store: &mut RecordStore) -> (r: RouterOutcome)
    requires
        old(store).wf(),
    ensures
        final(store).wf(),
        command@ == ascii_bytes_of("exit"@) ==> r is Exit && *final(store) == *old(store),
        command@ == ascii_bytes_of("reset"@) ==> r is ResetDone && final(store).model()
            == Seq::<RecordModel>::empty(),
        command@ == ascii_bytes_of("status"@) ==> r is StatusOk && *final(store) == *old(
            store,
        ),
        command@ != ascii_bytes_of("exit"@) && command@ != ascii_bytes_of("reset"@)
            && command@ != ascii_bytes_of("status"@) ==> r is Invalid && *final(store)
            == *old(store),
{
    proof {
        reveal_strlit("exit");
        reveal_strlit("reset");
        reveal_strlit("status");
        assert(ascii_bytes_of("exit"@).len() == 4);
        assert(ascii_bytes_of("reset"@).len() == 5);
        assert(ascii_bytes_of("status"@).len() == 6);
    }
    if crate::text::bytes_eq(command, &crate::text::lit_bytes("exit")) {
        RouterOutcome::Exit
    } else if crate::text::bytes_eq(command, &crate::text::lit_bytes("reset")) {
        let layout = crate::cluster::reset_database_and_set_topology(store);
        RouterOutcome::ResetDone(layout)
    } else if crate::text::bytes_eq(command, &crate::text::lit_bytes("status")) {
        RouterOutcome::StatusOk
    } else {
        RouterOutcome::Invalid
    }
}

/// What the TCP path does with one dispatched message.
pub enum TcpOutcome {
    /// A query reply, written back in-band.
    Reply(Vec<u8>),
    /// The bulk-create result: whether anything new was stored.
    Created(bool),
    /// An administrative command's outcome.
    Admin(RouterOutcome),
    /// Validation error or unrecognized type: logged, dropped, no reply.
    Silence,
}

/// What dispatching one TCP message guarantees, over the store's content
/// before (`pre`) and after (`post`): a total function of the type
/// discriminant.  Queries reply in-band and leave the store unchanged; a
/// valid bulk create inserts the new records; administrative commands act
/// per the router; everything else is dropped in silence with the store
/// untouched.  A create whose record array is absent, empty, or
/// incomplete fails without touching the store.
pub open spec fn dispatch_post(
    msg: InboundMessage,
    pre: Seq<RecordModel>,
    post: Seq<RecordModel>,
    r: TcpOutcome,
) -> bool {
    &&& (msg.msg_type is None ==> r is Silence && post == pre)
    &&& ((msg.msg_type matches Some(t) && !known_type(t@)) ==> r is Silence && post
        == pre)
    &&& (type_is(msg, ascii_bytes_of("uuid"@)) ==> post == pre && (match msg.data_string {
        Some(d) => r matches TcpOutcome::Reply(p) && p@ == query_payload(
            pre,
            RequestModel::Uuid(d@),
        ),
        None => r is Silence,
    }))
    &&& (type_is(msg, ascii_bytes_of("all"@)) ==> post == pre && (
    r matches TcpOutcome::Reply(p) && p@ == query_payload(pre, RequestModel::All)))
    &&& (type_is(msg, ascii_bytes_of("color"@)) ==> post == pre && (match msg.data_string {
        Some(d) => r matches TcpOutcome::Reply(p) && p@ == query_payload(
            pre,
            RequestModel::Color(d@),
        ),
        None => r is Silence,
    }))
    &&& (type_is(msg, ascii_bytes_of("time_range"@)) ==> post == pre && (match msg.start {
        Some(s) => match msg.end {
            Some(e) => r matches TcpOutcome::Reply(p) && p@ == query_payload(
                pre,
                RequestModel::TimeRange(s@, e@),
            ),
            None => r is Silence,
        },
        None => r is Silence,
    }))
    &&& (type_is(msg, ascii_bytes_of("temperature_humidity"@)) ==> post == pre && (match
        msg.temperature {
        Some(t) => match msg.humidity {
            Some(h) => r matches TcpOutcome::Reply(p) && p@ == query_payload(
                pre,
                RequestModel::TemperatureHumidity(t.model(), h.model()),
            ),
            None => r is Silence,
        },
        None => r is Silence,
    }))
    &&& (type_is(msg, ascii_bytes_of("timestamp"@)) ==> post == pre && (match
        msg.data_string {
        Some(d) => r matches TcpOutcome::Reply(p) && p@ == query_payload(
            pre,
            RequestModel::AtTimestamp(d@),
        ),
        None => r is Silence,
    }))
    &&& (type_is(msg, ascii_bytes_of("energy_cost"@)) ==> post == pre && (match
        msg.data_number {
        Some(n) => r matches TcpOutcome::Reply(p) && p@ == query_payload(
            pre,
            RequestModel::EnergyCost(n.model()),
        ),
        None => r is Silence,
    }))
    &&& (type_is(msg, ascii_bytes_of("energy_consume"@)) ==> post == pre && (match
        msg.data_number {
        Some(n) => r matches TcpOutcome::Reply(p) && p@ == query_payload(
            pre,
            RequestModel::EnergyConsume(n.model()),
        ),
        None => r is Silence,
    }))
    &&& (type_is(msg, ascii_bytes_of("data"@)) ==> (match msg.data_records {
        Some(ds) => {
            if ds@.len() > 0 && all_complete(ds@) {
                r matches TcpOutcome::Created(c) && post == insert_batch(
                    pre,
                    ds@.map_values(|d: RecordDraft| draft_record(d)),
                ) && c == (post.len() > pre.len())
            } else {
                r is Silence && post == pre
            }
        },
        None => r is Silence && post == pre,
    }))
    &&& (type_is(msg, ascii_bytes_of("command"@)) ==> (match msg.command {
        Some(c) => {
            if c@ == ascii_bytes_of("exit"@) {
                r matches TcpOutcome::Admin(RouterOutcome::Exit) && post == pre
            } else if c@ == ascii_bytes_of("reset"@) {
                r matches TcpOutcome::Admin(RouterOutcome::ResetDone(_)) && post == Seq::<
                    RecordModel,
                >::empty()
            } else if c@ == ascii_bytes_of("status"@) {
                r matches TcpOutcome::Admin(RouterOutcome::StatusOk) && post == pre
            } else {
                r is Silence && post == pre
            }
        },
        None => r is Silence && post == pre,
    }))
}

/// Dispatches one TCP message, per `dispatch_post`.
pub fn dispatch_message(store: &mut RecordStore, msg: &InboundMessage) -> (r: TcpOutcome)
    requires
        old(store).wf(),
        msg.wf(),
    ensures
        final(store).wf(),
        dispatch_post(*msg, old(store).model(), final(store).model(), r),
{
    match classify(msg, true) {
        Classified::Op(req) => match req {
            Request::Create(recs) => {
                let created = store.create_new_relation(&recs);
                TcpOutcome::Created(created)
            },
            Request::Admin(cmd) => match cmd {
                AdminCommand::Exit => TcpOutcome::Admin(RouterOutcome::Exit),
                AdminCommand::Reset => {
                    let layout = crate::cluster::reset_database_and_set_topology(store);
                    TcpOutcome::Admin(RouterOutcome::ResetDone(layout))
                },
                AdminCommand::Status => TcpOutcome::Admin(RouterOutcome::StatusOk),
            },
            _ => {
                let payload = run_query(store, &req);
                TcpOutcome::Reply(payload)
            },
        },
        Classified::ValidationError => TcpOutcome::Silence,
        Classified::Unknown => TcpOutcome::Silence,
    }
}

/// Processes one raw TCP payload: parse, then dispatch.  Exactly the
/// payloads that are not one valid JSON document report a protocol error
/// (`None`), to be sent in-band before the connection is dropped, with
/// the store untouched.  A payload that parses is dispatched as the
/// normalization of its raw fields, per `dispatch_post`.
pub fn process_json(store: &mut RecordStore, payload: &Vec<u8>) -> (r: Option<TcpOutcome>)
    requires
        old(store).wf(),
    ensures
        final(store).wf(),
        r is None <==> crate::inbound::raw_message_of(payload@) is None,
        r is None ==> *final(store) == *old(store),
        r matches Some(outcome) ==> (crate::inbound::raw_message_of(payload@) matches Some(
            raw,
        ) && exists|m: InboundMessage|
            {
                &&& #[trigger] m.matches_raw(raw)
                &&& m.wf()
                &&& dispatch_post(m, old(store).model(), final(store).model(), outcome)
            }),
{
    match crate::inbound::parse_message(payload) {
        Some(msg) => {
            let outcome = dispatch_message(store, &msg);
            Some(outcome)
        },
        None => None,
    }
}

/// Flattens a publish plan into the ordered list of publishes: the whole
/// message alone, or every fragment in index order and then the summary.
pub fn plan_envelopes(plan: PublishPlan) -> (r: Vec<Envelope>)
    ensures
        r@.len() >= 1,
        plan matches PublishPlan::Whole(env) ==> r@ == seq![env],
        plan matches PublishPlan::Split { fragments, summary } ==> r@ == fragments@.push(
            summary,
        ),
{
    match plan {
        PublishPlan::Whole(env) => {
            let mut out: Vec<Envelope> = Vec::new();
            out.push(env);
            proof {
                assert(out@ =~= seq![env]);
            }
            out
        },
        PublishPlan::Split { mut fragments, summary } => {
            fragments.push(summary);
            fragments
        },
    }
}

/// What responding to one broker message guarantees, over the store's
/// content `s`: a message targeted at another instance that did not
/// arrive on this session's own topic produces nothing, as does one
/// asking for no read (validation errors, unrecognized types, and the
/// TCP-only types — no error goes back over the broker).  An accepted
/// read request is answered in full on its response topic: one publish
/// when the rendered result fits the ceiling, else every fragment in
/// index order and then the summary.
pub open spec fn broker_post(
    msg: InboundMessage,
    s: Seq<RecordModel>,
    sid: Seq<u8>,
    on_session_topic: bool,
    ceiling: nat,
    r: Seq<Envelope>,
) -> bool {
    &&& (!spec_accepts(msg.client_id, sid, on_session_topic) ==> r.len() == 0)
    &&& (broker_read_request(msg) is None ==> r.len() == 0)
    &&& (spec_accepts(msg.client_id, sid, on_session_topic) ==> (broker_read_request(msg)
        matches Some(req) ==> {
        let payload = query_payload(s, req);
        let topic = crate::topics::response_topic_bytes(sid, op_suffix(req), op_key(req));
        if payload.len() <= ceiling {
            r.len() == 1 && r[0].topic@ == topic && r[0].qos is AtMostOnce && r[0].payload@
                == payload
        } else {
            let n = fragment_count(payload.len(), ceiling);
            r.len() == n + 1 && (forall|k: int|
                0 <= k < n ==> (#[trigger] r[k]).topic@
                    == crate::topics::split_topic_bytes(topic, (k + 1) as nat, n) && r[
                    k].qos is AtLeastOnce && r[k].payload@
                    == crate::chunk::fragment_envelope_bytes(
                    (k + 1) as nat,
                    n,
                    payload.len(),
                    payload.subrange(
                        k * ceiling,
                        crate::chunk::frag_end(k, ceiling, payload.len()),
                    ),
                )) && r[n as int].topic@ == topic && r[n as int].qos is AtLeastOnce && r[
                n as int].payload@ == crate::render::summary_json(n, payload.len())
        }
    }))
}

/// Responds to one broker message, per `broker_post`: applies the
/// targeting rule, classifies, runs the read, and plans the publishes
/// for the response topic.
pub fn respond_broker(
    store: &RecordStore,
    msg: &InboundMessage,
    session_id: &Vec<u8>,
    on_session_topic: bool,
    ceiling: usize,
) -> (r: Vec<Envelope>)
    requires
        store.wf(),
        msg.wf(),
        ceiling >= 1,
    ensures
        broker_post(*msg, store.model(), session_id@, on_session_topic, ceiling as nat, r@),
{
    if !accepts_message(&msg.client_id, session_id, on_session_topic) {
        return Vec::new();
    }
    match classify(msg, false) {
        Classified::Op(req) => match req {
            Request::Create(_) => Vec::new(),
            Request::Admin(_) => Vec::new(),
            _ => {
                let payload = run_query(store, &req);
                let topic = response_topic_for(&req, session_id);
                let plan = crate::chunk::plan_publish(&topic, payload, ceiling);
                plan_envelopes(plan)
            },
        },
        Classified::ValidationError => Vec::new(),
        Classified::Unknown => Vec::new(),
    }
}

/// Handles one raw broker payload: parse, then respond.  Exactly the
/// payloads that are not one valid JSON document produce no publishes; a
/// payload that parses is answered as the normalization of its raw
/// fields, per `broker_post`.
pub fn handle_broker_payload(
    store: &RecordStore,
    payload: &Vec<u8>,
    session_id: &Vec<u8>,
    on_session_topic: bool,
    ceiling: usize,
) -> (r: Vec<Envelope>)
    requires
        store.wf(),
        ceiling >= 1,
    ensures
        crate::inbound::raw_message_of(payload@) is None ==> r@.len() == 0,
        crate::inbound::raw_message_of(payload@) matches Some(raw) ==> exists|
            m: InboundMessage,
        |
            {
                &&& #[trigger] m.matches_raw(raw)
                &&& m.wf()
                &&& broker_post(
                    m,
                    store.model(),
                    session_id@,
                    on_session_topic,
                    ceiling as nat,
                    r@,
                )
            },
{
    match crate::inbound::parse_message(payload) {
        Some(msg) => respond_broker(store, &msg, session_id, on_session_topic, ceiling),
        None => Vec::new(),
    }
}

} // verus!
