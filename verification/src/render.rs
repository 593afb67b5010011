//! Rendering responses as JSON text.
//!
//! Outbound payloads are built directly as JSON bytes: record objects with
//! their attributes (keys in lexicographic order), record arrays, the
//! not-found shape, the temperature/humidity pair, the fragment summary,
//! and the presence announcement.  String values are escaped: quote and
//! backslash get a backslash, control bytes become `\u00..`; all other
//! bytes pass through unchanged, so valid UTF-8 input stays valid UTF-8.

use vstd::prelude::*;

use crate::num::{render_num, Num};
use crate::store::{models_of, RecordModel, TelemetryRecord};
use crate::text::{ascii_bytes_of, dec_digits};

verus! {

/// The lowercase hex digit of `n`.
pub open spec fn hex_digit(n: u8) -> u8 {
    if n < 10 {
        (0x30 + n) as u8
    } else {
        (0x61 + (n - 10)) as u8
    }
}

/// The escape of one byte inside a JSON string.
pub open spec fn esc_byte(b: u8) -> Seq<u8> {
    if b == 0x22 {
        seq![0x5Cu8, 0x22]
    } else if b == 0x5C {
        seq![0x5Cu8, 0x5C]
    } else if b < 0x20 {
        seq![0x5Cu8, 0x75, 0x30, 0x30, hex_digit(b / 16), hex_digit(b % 16)]
    } else {
        seq![b]
    }
}

/// The escape of a whole byte string.
pub open spec fn json_escaped(s: Seq<u8>) -> Seq<u8>
    decreases s.len(),
{
    if s.len() == 0 {
        Seq::empty()
    } else {
        json_escaped(s.drop_last()) + esc_byte(s.last())
    }
}

/// Appends `s` escaped for a JSON string.
pub fn push_escaped(out: &mut Vec<u8>, s: &Vec<u8>)
    ensures
        final(out)@ == old(out)@ + json_escaped(s@),
{
    let mut i: usize = 0;
    proof {
        assert(s@.take(0).len() == 0);
        assert(out@ =~= old(out)@ + json_escaped(s@.take(0)));
    }
    while i < s.len()
        invariant
            i <= s@.len(),
            out@ == old(out)@ + json_escaped(s@.take(i as int)),
        decreases s@.len() - i,
    {
        let b = s[i];
        proof {
            assert(s@.take(i as int + 1).drop_last() =~= s@.take(i as int));
            assert(s@.take(i as int + 1).last() == s@[i as int]);
        }
        if b == 0x22 {
            out.push(0x5C);
            out.push(0x22);
        } else if b == 0x5C {
            out.push(0x5C);
            out.push(0x5C);
        } else if b < 0x20 {
            out.push(0x5C);
            out.push(0x75);
            out.push(0x30);
            out.push(0x30);
            let hi = b / 16;
            let lo = b % 16;
            out.push(if hi < 10 {
                0x30 + hi
            } else {
                0x61 + (hi - 10)
            });
            out.push(if lo < 10 {
                0x30 + lo
            } else {
                0x61 + (lo - 10)
            });
        } else {
            out.push(b);
        }
        assert(out@ =~= old(out)@ + json_escaped(s@.take(i as int + 1)));
        i += 1;
    }
    proof {
        assert(s@.take(i as int) =~= s@);
    }
}

/// The JSON object of one record, keys in lexicographic order.
pub open spec fn record_json(m: RecordModel) -> Seq<u8> {
    ascii_bytes_of("{\"color\":\""@) + json_escaped(m.color) + ascii_bytes_of(
        "\",\"energy_consume\":"@,
    ) + render_num(m.energy_consume) + ascii_bytes_of(",\"energy_cost\":"@) + render_num(
        m.energy_cost,
    ) + ascii_bytes_of(",\"sensor_data\":{\"humidity\":"@) + render_num(m.humidity)
        + ascii_bytes_of(",\"temperature\":"@) + render_num(m.temperature)
        + ascii_bytes_of("},\"timestamp\":\""@) + json_escaped(m.timestamp)
        + ascii_bytes_of("\",\"uuid\":\""@) + json_escaped(m.uuid) + ascii_bytes_of(
        "\"}"@,
    )
}

/// Appends the JSON object of `r`.
#[verifier::rlimit(60)]
pub fn push_record_json(out: &mut Vec<u8>, r: &TelemetryRecord)
    ensures
        final(out)@ == old(out)@ + record_json(r.model()),
{
    proof {
        reveal_strlit("{\"color\":\"");
        reveal_strlit("\",\"energy_consume\":");
        reveal_strlit(",\"energy_cost\":");
        reveal_strlit(",\"sensor_data\":{\"humidity\":");
        reveal_strlit(",\"temperature\":");
        reveal_strlit("},\"timestamp\":\"");
        reveal_strlit("\",\"uuid\":\"");
        reveal_strlit("\"}");
    }
    crate::text::push_lit(out, "{\"color\":\"");
    push_escaped(out, &r.color);
    crate::text::push_lit(out, "\",\"energy_consume\":");
    crate::num::push_num(out, &r.energy_consume);
    crate::text::push_lit(out, ",\"energy_cost\":");
    crate::num::push_num(out, &r.energy_cost);
    crate::text::push_lit(out, ",\"sensor_data\":{\"humidity\":");
    crate::num::push_num(out, &r.humidity);
    crate::text::push_lit(out, ",\"temperature\":");
    crate::num::push_num(out, &r.temperature);
    crate::text::push_lit(out, "},\"timestamp\":\"");
    push_escaped(out, &r.timestamp);
    crate::text::push_lit(out, "\",\"uuid\":\"");
    push_escaped(out, &r.uuid);
    crate::text::push_lit(out, "\"}");
    assert(out@ =~= old(out)@ + record_json(r.model()));
}

/// The comma-joined JSON objects of a record sequence.
pub open spec fn record_items_json(s: Seq<RecordModel>) -> Seq<u8>
    decreases s.len(),
{
    if s.len() == 0 {
        Seq::empty()
    } else if s.len() == 1 {
        record_json(s[0])
    } else {
        record_items_json(s.drop_last()) + ascii_bytes_of(","@) + record_json(s.last())
    }
}

/// The JSON array of a record sequence.
pub open spec fn records_json(s: Seq<RecordModel>) -> Seq<u8> {
    ascii_bytes_of("["@) + record_items_json(s) + ascii_bytes_of("]"@)
}

/// Renders a record list as a JSON array.
pub fn records_array_json(records: &Vec<TelemetryRecord>) -> (r: Vec<u8>)
    ensures
        r@ == records_json(models_of(records@)),
{
    proof {
        reveal_strlit("[");
        reveal_strlit(",");
        reveal_strlit("]");
    }
    let ghost ms = models_of(records@);
    let mut out = crate::text::lit_bytes("[");
    let mut i: usize = 0;
    while i < records.len()
        invariant
            i <= records@.len(),
            ms == models_of(records@),
            out@ == ascii_bytes_of("["@) + record_items_json(ms.take(i as int)),
        decreases records@.len() - i,
    {
        proof {
            reveal_strlit(",");
            assert(ms.take(i as int + 1).drop_last() =~= ms.take(i as int));
            assert(ms.take(i as int + 1).last() == ms[i as int]);
        }
        if i > 0 {
            crate::text::push_lit(&mut out, ",");
        }
        push_record_json(&mut out, &records[i]);
        proof {
            if i == 0 {
                assert(ms.take(1) =~= seq![ms[0]]);
                assert(record_items_json(ms.take(1)) == record_json(ms[0]));
            }
            assert(out@ =~= ascii_bytes_of("["@) + record_items_json(
                ms.take(i as int + 1),
            ));
        }
        i += 1;
    }
    crate::text::push_lit(&mut out, "]");
    proof {
        assert(ms.take(i as int) =~= ms);
        assert(out@ =~= records_json(ms));
    }
    out
}

/// The not-found shape for a UUID lookup that matched nothing.
pub open spec fn not_found_json(uuid: Seq<u8>) -> Seq<u8> {
    ascii_bytes_of("{\"found\":false,\"message\":\"No data found for this UUID\",\"uuid\":\""@)
        + json_escaped(uuid) + ascii_bytes_of("\"}"@)
}

/// Renders the not-found shape for `uuid`.
pub fn not_found_payload(uuid: &Vec<u8>) -> (r: Vec<u8>)
    ensures
        r@ == not_found_json(uuid@),
{
    proof {
        reveal_strlit("{\"found\":false,\"message\":\"No data found for this UUID\",\"uuid\":\"");
        reveal_strlit("\"}");
    }
    let mut out = crate::text::lit_bytes(
        "{\"found\":false,\"message\":\"No data found for this UUID\",\"uuid\":\"",
    );
    push_escaped(&mut out, uuid);
    crate::text::push_lit(&mut out, "\"}");
    assert(out@ =~= not_found_json(uuid@));
    out
}

/// The temperature/humidity pair at a timestamp.
pub open spec fn pair_json(temperature: (bool, nat, Seq<u8>), humidity: (bool, nat, Seq<u8>)) -> Seq<
    u8,
> {
    ascii_bytes_of("{\"humidity\":"@) + render_num(humidity) + ascii_bytes_of(
        ",\"temperature\":"@,
    ) + render_num(temperature) + ascii_bytes_of("}"@)
}

/// Renders the temperature/humidity pair.
pub fn pair_payload(temperature: &Num, humidity: &Num) -> (r: Vec<u8>)
    ensures
        r@ == pair_json(temperature.model(), humidity.model()),
{
    proof {
        reveal_strlit("{\"humidity\":");
        reveal_strlit(",\"temperature\":");
        reveal_strlit("}");
    }
    let mut out = crate::text::lit_bytes("{\"humidity\":");
    crate::num::push_num(&mut out, humidity);
    crate::text::push_lit(&mut out, ",\"temperature\":");
    crate::num::push_num(&mut out, temperature);
    crate::text::push_lit(&mut out, "}");
    assert(out@ =~= pair_json(temperature.model(), humidity.model()));
    out
}

/// The summary published to the base topic after all fragments: the
/// fragment count and the original byte length.
pub open spec fn summary_json(total_chunks: nat, original_length: nat) -> Seq<u8> {
    ascii_bytes_of("{\"original_length\":"@) + dec_digits(original_length)
        + ascii_bytes_of(",\"total_chunks\":"@) + dec_digits(total_chunks)
        + ascii_bytes_of(",\"type\":\"split_summary\"}"@)
}

/// Renders the fragment summary.
pub fn summary_payload(total_chunks: u64, original_length: u64) -> (r: Vec<u8>)
    ensures
        r@ == summary_json(total_chunks as nat, original_length as nat),
{
    proof {
        reveal_strlit("{\"original_length\":");
        reveal_strlit(",\"total_chunks\":");
        reveal_strlit(",\"type\":\"split_summary\"}");
    }
    let mut out = crate::text::lit_bytes("{\"original_length\":");
    crate::text::push_u64_dec(&mut out, original_length);
    crate::text::push_lit(&mut out, ",\"total_chunks\":");
    crate::text::push_u64_dec(&mut out, total_chunks);
    crate::text::push_lit(&mut out, ",\"type\":\"split_summary\"}");
    assert(out@ =~= summary_json(total_chunks as nat, original_length as nat));
    out
}

/// The presence announcement published to the discovery topic.
pub open spec fn announce_json(sid: Seq<u8>) -> Seq<u8> {
    ascii_bytes_of("{\"client_id\":\""@) + json_escaped(sid) + ascii_bytes_of(
        "\",\"type\":\"client_connect\"}"@,
    )
}

/// Renders the presence announcement for `sid`.
pub fn announce_payload(sid: &Vec<u8>) -> (r: Vec<u8>)
    ensures
        r@ == announce_json(sid@),
{
    proof {
        reveal_strlit("{\"client_id\":\"");
        reveal_strlit("\",\"type\":\"client_connect\"}");
    }
    let mut out = crate::text::lit_bytes("{\"client_id\":\"");
    push_escaped(&mut out, sid);
    crate::text::push_lit(&mut out, "\",\"type\":\"client_connect\"}");
    assert(out@ =~= announce_json(sid@));
    out
}

} // verus!
