//! Broker topic derivation.
//!
//! One shared inbound topic is broadcast to every gateway instance; each
//! session additionally subscribes to a session-specific inbound topic
//! suffixed with its identity.  Responses go to a response topic derived
//! from the session identity, the operation, and optionally the looked-up
//! key; fragment topics extend a response topic with the fragment index and
//! total.  A discovery topic carries the presence announcement.

use vstd::prelude::*;

use crate::text::{ascii_bytes_of, dec_digits};

verus! {

/// The shared inbound topic every instance subscribes to.
pub open spec fn shared_topic_bytes() -> Seq<u8> {
    ascii_bytes_of("rust/topic"@)
}

/// The session-specific inbound topic: the shared topic suffixed with the
/// session identity.
pub open spec fn session_topic_bytes(sid: Seq<u8>) -> Seq<u8> {
    shared_topic_bytes() + ascii_bytes_of("/"@) + sid
}

/// The discovery topic carrying presence announcements.
pub open spec fn discovery_topic_bytes() -> Seq<u8> {
    ascii_bytes_of("rust/discovery"@)
}

/// The response topic: base, session identity, operation, and optionally
/// the looked-up key.
pub open spec fn response_topic_bytes(sid: Seq<u8>, op: Seq<u8>, key: Option<Seq<u8>>) -> Seq<
    u8,
> {
    let base = ascii_bytes_of("rust/response/"@) + sid + ascii_bytes_of("/"@) + op;
    match key {
        Some(k) => base + ascii_bytes_of("/"@) + k,
        None => base,
    }
}

/// The topic of fragment `index` of `total`: the response topic suffixed
/// with `/split/<index>/<total>`.
pub open spec fn split_topic_bytes(base: Seq<u8>, index: nat, total: nat) -> Seq<u8> {
    base + ascii_bytes_of("/split/"@) + dec_digits(index) + ascii_bytes_of("/"@)
        + dec_digits(total)
}

/// Builds the shared inbound topic.
pub fn shared_topic() -> (r: Vec<u8>)
    ensures
        r@ == shared_topic_bytes(),
{
    proof {
        reveal_strlit("rust/topic");
    }
    crate::text::lit_bytes("rust/topic")
}

/// Builds the session-specific inbound topic.
pub fn session_topic(sid: &Vec<u8>) -> (r: Vec<u8>)
    ensures
        r@ == session_topic_bytes(sid@),
{
    proof {
        reveal_strlit("rust/topic");
        reveal_strlit("/");
    }
    let mut out = crate::text::lit_bytes("rust/topic");
    crate::text::push_lit(&mut out, "/");
    crate::text::push_bytes(&mut out, sid);
    out
}

/// Builds the discovery topic.
pub fn discovery_topic() -> (r: Vec<u8>)
    ensures
        r@ == discovery_topic_bytes(),
{
    proof {
        reveal_strlit("rust/discovery");
    }
    crate::text::lit_bytes("rust/discovery")
}

/// Builds a response topic.
pub fn response_topic(sid: &Vec<u8>, op: &str, key: Option<&Vec<u8>>) -> (r: Vec<u8>)
    requires
        op.is_ascii(),
    ensures
        r@ == response_topic_bytes(sid@, ascii_bytes_of(op@), match key {
            Some(k) => Some(k@),
            None => None,
        }),
{
    proof {
        reveal_strlit("rust/response/");
        reveal_strlit("/");
    }
    let mut out = crate::text::lit_bytes("rust/response/");
    crate::text::push_bytes(&mut out, sid);
    crate::text::push_lit(&mut out, "/");
    crate::text::push_lit(&mut out, op);
    match key {
        Some(k) => {
            crate::text::push_lit(&mut out, "/");
            crate::text::push_bytes(&mut out, k);
        },
        None => {},
    }
    out
}

/// Builds the topic of fragment `index` of `total` under `base`.
pub fn split_topic(base: &Vec<u8>, index: u64, total: u64) -> (r: Vec<u8>)
    ensures
        r@ == split_topic_bytes(base@, index as nat, total as nat),
{
    proof {
        reveal_strlit("/split/");
        reveal_strlit("/");
    }
    let mut out = crate::store::copy_bytes(base);
    crate::text::push_lit(&mut out, "/split/");
    crate::text::push_u64_dec(&mut out, index);
    crate::text::push_lit(&mut out, "/");
    crate::text::push_u64_dec(&mut out, total);
    out
}

/// Whether `topic` is the session-specific inbound topic of `sid`.
pub fn is_session_topic(topic: &Vec<u8>, sid: &Vec<u8>) -> (r: bool)
    ensures
        r == (topic@ == session_topic_bytes(sid@)),
{
    let expected = session_topic(sid);
    crate::text::bytes_eq(topic, &expected)
}

} // verus!
