//! The chunked publish protocol.
//!
//! A response that fits the transport ceiling is published whole, once, to
//! its topic.  A larger response is cut into byte-range fragments of at most
//! the ceiling: fragment `i` of `n` (indices 1-based and contiguous) goes to
//! `<topic>/split/<i>/<n>` with at-least-once delivery, and after all
//! fragments one summary envelope goes to the original topic stating the
//! fragment count and the original byte length.  Fragment boundaries are
//! byte positions of the serialized payload, not structural positions: a
//! boundary may fall inside a token, and a consumer must put the byte
//! ranges back together in index order before parsing.
//! `reassemble_fragments` does so from the fragment envelopes, checking
//! their indices, totals and length for consistency; `reassemble_payload`
//! concatenates already-extracted byte ranges.

use vstd::prelude::*;

use crate::text::{ascii_bytes_of, dec_digits};

verus! {

/// The transport size ceiling for a single publish, in bytes: a little
/// below the broker's default packet limit.
pub const CHUNK_CEILING: usize = 8192;

/// Delivery mode of one publish.
pub enum Qos {
    AtMostOnce,
    AtLeastOnce,
}

/// One planned publish: a topic, a delivery mode, and a payload.
pub struct Envelope {
    pub topic: Vec<u8>,
    pub qos: Qos,
    pub payload: Vec<u8>,
}

/// The whole publish plan for one response.
pub enum PublishPlan {
    /// The payload fits the ceiling and goes out as one publish.
    Whole(Envelope),
    /// The payload is fragmented; the summary goes out after the fragments.
    Split { fragments: Vec<Envelope>, summary: Envelope },
}

/// How many fragments a payload of `len` bytes needs under `ceiling`.
pub open spec fn fragment_count(len: nat, ceiling: nat) -> nat {
    if len % ceiling == 0 {
        len / ceiling
    } else {
        len / ceiling + 1
    }
}

/// The fragment count is the ceiling of `len / ceiling`.
pub proof fn lemma_fragment_count_is_ceil(len: nat, ceiling: nat)
    requires
        ceiling >= 1,
    ensures
        fragment_count(len, ceiling) == (len + ceiling - 1) / (ceiling as int),
{
    assert(fragment_count(len, ceiling) == (len + ceiling - 1) / (ceiling as int))
        by (nonlinear_arith)
        requires
            ceiling >= 1,
    ;
}

/// The end of the `k`-th fragment (0-based) of a payload of length `len`.
pub open spec fn frag_end(k: int, ceiling: nat, len: nat) -> int {
    if (k + 1) * ceiling < len {
        (k + 1) * ceiling
    } else {
        len as int
    }
}

/// The views of a sequence of byte vectors.
pub open spec fn views_of(s: Seq<Vec<u8>>) -> Seq<Seq<u8>> {
    s.map_values(|v: Vec<u8>| v@)
}

/// The consecutive byte ranges of a payload under a ceiling: the raw
/// slices its fragments carry.
pub open spec fn ranges_of(p: Seq<u8>, ceiling: nat) -> Seq<Seq<u8>> {
    Seq::new(
        fragment_count(p.len(), ceiling),
        |k: int| p.subrange(k * ceiling, frag_end(k, ceiling, p.len())),
    )
}

/// The concatenation of byte strings, in order.
pub open spec fn concat_all(fs: Seq<Seq<u8>>) -> Seq<u8>
    decreases fs.len(),
{
    if fs.len() == 0 {
        Seq::empty()
    } else {
        concat_all(fs.drop_last()) + fs.last()
    }
}

/// Cuts `payload` into fragments of at most `ceiling` bytes.
///
/// The fragments are the consecutive byte ranges of the payload: their
/// number is the ceiling of `len / ceiling`, and concatenating them in
/// order reproduces the payload exactly.
pub fn split_payload(payload: &Vec<u8>, ceiling: usize) -> (r: Vec<Vec<u8>>)
    requires
        ceiling >= 1,
    ensures
        r@.len() == fragment_count(payload@.len(), ceiling as nat),
        forall|k: int|
            0 <= k < r@.len() ==> (#[trigger] r@[k])@ == payload@.subrange(
                k * ceiling,
                frag_end(k, ceiling as nat, payload@.len()),
            ),
        concat_all(views_of(r@)) == payload@,
{
    let len = payload.len();
    let mut out: Vec<Vec<u8>> = Vec::new();
    let mut offset: usize = 0;
    proof {
        assert(out@.len() == 0);
        assert(fragment_count(0, ceiling as nat) == 0) by (nonlinear_arith)
            requires
                ceiling >= 1,
        ;
        assert(views_of(out@) =~= Seq::<Seq<u8>>::empty());
        assert(payload@.take(0) =~= Seq::<u8>::empty());
    }
    while offset < len
        invariant
            ceiling >= 1,
            len == payload@.len(),
            offset <= len,
            offset == out@.len() * ceiling || offset == len,
            out@.len() == fragment_count(offset as nat, ceiling as nat),
            offset < len ==> offset == out@.len() * ceiling,
            concat_all(views_of(out@)) == payload@.take(offset as int),
            forall|k: int|
                0 <= k < out@.len() ==> (#[trigger] out@[k])@ == payload@.subrange(
                    k * ceiling,
                    frag_end(k, ceiling as nat, len as nat),
                ),
        decreases len - offset,
    {
        let ghost m = out@.len() as int;
        let end: usize = if len - offset > ceiling {
            offset + ceiling
        } else {
            len
        };
        let frag = crate::text::sub_bytes(payload, offset, end);
        let ghost pre = out@;
        out.push(frag);
        proof {
            // The new fragment is exactly the next byte range.
            assert(offset == m * ceiling);
            assert(end as int == frag_end(m, ceiling as nat, len as nat))
                by (nonlinear_arith)
                requires
                    ceiling >= 1,
                    offset == m * ceiling,
                    offset < len,
                    len == payload@.len(),
                    end == (if len - offset > ceiling {
                        offset + ceiling
                    } else {
                        len as int
                    }),
            ;
            assert forall|k: int|
                0 <= k < out@.len() implies (#[trigger] out@[k])@ == payload@.subrange(
                k * ceiling,
                frag_end(k, ceiling as nat, len as nat),
            ) by {
                if k < m {
                    assert(out@[k] == pre[k]);
                } else {
                    assert(out@[k] == frag);
                }
            }
            // The concatenation extends by the new range.
            assert(views_of(out@) =~= views_of(pre).push(frag@));
            assert(views_of(pre).push(frag@).drop_last() =~= views_of(pre));
            assert(concat_all(views_of(out@)) == concat_all(views_of(pre)) + frag@);
            assert(payload@.take(offset as int) + payload@.subrange(
                offset as int,
                end as int,
            ) =~= payload@.take(end as int));
            // The fragment count advances by one.
            if end < len {
                assert(end == (m + 1) * ceiling) by (nonlinear_arith)
                    requires
                        offset == m * ceiling,
                        end == offset + ceiling,
                ;
                assert(fragment_count(end as nat, ceiling as nat) == m + 1)
                    by (nonlinear_arith)
                    requires
                        ceiling >= 1,
                        end == (m + 1) * ceiling,
                        m >= 0,
                ;
            } else {
                assert(fragment_count(len as nat, ceiling as nat) == m + 1)
                    by (nonlinear_arith)
                    requires
                        ceiling >= 1,
                        offset == m * ceiling,
                        m >= 0,
                        offset < len,
                        len - offset <= ceiling,
                ;
            }
        }
        offset = end;
    }
    proof {
        if payload@.len() == 0 {
            assert(fragment_count(0, ceiling as nat) == 0) by (nonlinear_arith)
                requires
                    ceiling >= 1,
            ;
        }
        assert(payload@.take(offset as int) =~= payload@);
    }
    out
}

/// The wire form of one fragment envelope: the 1-based index, the total
/// fragment count, and the original payload byte length as decimal text
/// separated by `/` and closed by a newline, then the raw byte-range
/// slice.
pub open spec fn fragment_envelope_bytes(index: nat, total: nat, original_len: nat, frag: Seq<
    u8,
>) -> Seq<u8> {
    dec_digits(index) + seq![0x2Fu8] + dec_digits(total) + seq![0x2Fu8] + dec_digits(
        original_len,
    ) + seq![0x0Au8] + frag
}

/// Encodes one fragment envelope.
pub fn encode_fragment(index: u64, total: u64, original_len: u64, frag: &Vec<u8>) -> (r: Vec<
    u8,
>)
    ensures
        r@ == fragment_envelope_bytes(
            index as nat,
            total as nat,
            original_len as nat,
            frag@,
        ),
{
    let mut out: Vec<u8> = Vec::new();
    crate::text::push_u64_dec(&mut out, index);
    out.push(0x2F);
    crate::text::push_u64_dec(&mut out, total);
    out.push(0x2F);
    crate::text::push_u64_dec(&mut out, original_len);
    out.push(0x0A);
    crate::text::push_bytes(&mut out, frag);
    assert(out@ =~= fragment_envelope_bytes(
        index as nat,
        total as nat,
        original_len as nat,
        frag@,
    ));
    out
}

/// Where each part of a fragment envelope sits in its wire form.
proof fn lemma_envelope_layout(b: Seq<u8>, index: nat, total: nat, original_len: nat, frag: Seq<
    u8,
>)
    requires
        b == fragment_envelope_bytes(index, total, original_len, frag),
    ensures
        ({
            let la = dec_digits(index).len() as int;
            let lb = dec_digits(total).len() as int;
            let lc = dec_digits(original_len).len() as int;
            &&& b.len() == la + lb + lc + 3 + frag.len()
            &&& b.subrange(0, la) == dec_digits(index)
            &&& b[la] == 0x2F
            &&& b.subrange(la + 1, la + 1 + lb) == dec_digits(total)
            &&& b[la + 1 + lb] == 0x2F
            &&& b.subrange(la + 2 + lb, la + 2 + lb + lc) == dec_digits(original_len)
            &&& b[la + 2 + lb + lc] == 0x0A
            &&& b.subrange(la + 3 + lb + lc, b.len() as int) == frag
        }),
{
    let la = dec_digits(index).len() as int;
    let lb = dec_digits(total).len() as int;
    let lc = dec_digits(original_len).len() as int;
    assert(b.subrange(0, la) =~= dec_digits(index));
    assert(b.subrange(la + 1, la + 1 + lb) =~= dec_digits(total));
    assert(b.subrange(la + 2 + lb, la + 2 + lb + lc) =~= dec_digits(original_len));
    assert(b.subrange(la + 3 + lb + lc, b.len() as int) =~= frag);
}

/// Two equal wire forms carry the same envelope: the encoding is
/// injective.
pub proof fn lemma_envelope_injective(
    i1: nat,
    n1: nat,
    l1: nat,
    f1: Seq<u8>,
    i2: nat,
    n2: nat,
    l2: nat,
    f2: Seq<u8>,
)
    requires
        fragment_envelope_bytes(i1, n1, l1, f1) == fragment_envelope_bytes(i2, n2, l2, f2),
    ensures
        i1 == i2,
        n1 == n2,
        l1 == l2,
        f1 == f2,
{
    let b = fragment_envelope_bytes(i1, n1, l1, f1);
    lemma_envelope_layout(b, i1, n1, l1, f1);
    lemma_envelope_layout(b, i2, n2, l2, f2);
    crate::num::lemma_dec_digits_value(i1);
    crate::num::lemma_dec_digits_value(i2);
    crate::num::lemma_dec_digits_value(n1);
    crate::num::lemma_dec_digits_value(n2);
    crate::num::lemma_dec_digits_value(l1);
    crate::num::lemma_dec_digits_value(l2);
    let la1 = dec_digits(i1).len() as int;
    let la2 = dec_digits(i2).len() as int;
    assert(la1 == la2) by {
        if la1 < la2 {
            assert(crate::num::is_digit(b.subrange(0, la2)[la1]));
            assert(crate::num::is_digit(b[la1]));
        }
        if la2 < la1 {
            assert(crate::num::is_digit(b.subrange(0, la1)[la2]));
            assert(crate::num::is_digit(b[la2]));
        }
    }
    assert(dec_digits(i1) == dec_digits(i2));
    assert(i1 == i2);
    let lb1 = dec_digits(n1).len() as int;
    let lb2 = dec_digits(n2).len() as int;
    assert(lb1 == lb2) by {
        if lb1 < lb2 {
            assert(crate::num::is_digit(b.subrange(la2 + 1, la2 + 1 + lb2)[lb1]));
            assert(crate::num::is_digit(b[la1 + 1 + lb1]));
        }
        if lb2 < lb1 {
            assert(crate::num::is_digit(b.subrange(la1 + 1, la1 + 1 + lb1)[lb2]));
            assert(crate::num::is_digit(b[la2 + 1 + lb2]));
        }
    }
    assert(dec_digits(n1) == dec_digits(n2));
    assert(n1 == n2);
    let lc1 = dec_digits(l1).len() as int;
    let lc2 = dec_digits(l2).len() as int;
    assert(lc1 == lc2) by {
        if lc1 < lc2 {
            assert(crate::num::is_digit(b.subrange(la2 + 2 + lb2, la2 + 2 + lb2 + lc2)[
                lc1]));
            assert(crate::num::is_digit(b[la1 + 2 + lb1 + lc1]));
        }
        if lc2 < lc1 {
            assert(crate::num::is_digit(b.subrange(la1 + 2 + lb1, la1 + 2 + lb1 + lc1)[
                lc2]));
            assert(crate::num::is_digit(b[la2 + 2 + lb2 + lc2]));
        }
    }
    assert(dec_digits(l1) == dec_digits(l2));
    assert(l1 == l2);
    assert(f1 == f2);
}

/// Decodes one fragment envelope.  Sound and complete: a successful
/// decode returns exactly what the input encodes, and decoding succeeds
/// on every encoded envelope.
#[verifier::rlimit(100)]
pub fn decode_fragment(b: &Vec<u8>) -> (r: Option<(u64, u64, u64, Vec<u8>)>)
    ensures
        r matches Some(f) ==> b@ == fragment_envelope_bytes(
            f.0 as nat,
            f.1 as nat,
            f.2 as nat,
            f.3@,
        ),
        forall|i: u64, n: u64, l: u64, frag: Seq<u8>|
            #![trigger fragment_envelope_bytes(i as nat, n as nat, l as nat, frag)]
            b@ == fragment_envelope_bytes(i as nat, n as nat, l as nat, frag) ==> (
            r matches Some(f) && f.0 == i && f.1 == n && f.2 == l && f.3@ == frag),
{
    let (index, p1) = match crate::num::parse_u64_prefix(b, 0) {
        Some(p) => p,
        None => {
            proof {
                assert forall|i: u64, n: u64, l: u64, frag: Seq<u8>|
                    #![trigger fragment_envelope_bytes(i as nat, n as nat, l as nat, frag)]
                    b@ == fragment_envelope_bytes(
                        i as nat,
                        n as nat,
                        l as nat,
                        frag,
                    ) implies false by {
                    lemma_envelope_layout(b@, i as nat, n as nat, l as nat, frag);
                    crate::num::lemma_dec_digits_value(i as nat);
                    assert(!crate::num::is_digit(0x2F));
                }
            }
            return None;
        },
    };
    if p1 >= b.len() || b[p1] != 0x2F {
        proof {
            assert forall|i: u64, n: u64, l: u64, frag: Seq<u8>|
                #![trigger fragment_envelope_bytes(i as nat, n as nat, l as nat, frag)]
                b@ == fragment_envelope_bytes(
                    i as nat,
                    n as nat,
                    l as nat,
                    frag,
                ) implies false by {
                lemma_envelope_layout(b@, i as nat, n as nat, l as nat, frag);
                crate::num::lemma_dec_digits_value(i as nat);
                assert(!crate::num::is_digit(0x2F));
            }
        }
        return None;
    }
    let (total, p2) = match crate::num::parse_u64_prefix(b, p1 + 1) {
        Some(p) => p,
        None => {
            proof {
                assert forall|i: u64, n: u64, l: u64, frag: Seq<u8>|
                    #![trigger fragment_envelope_bytes(i as nat, n as nat, l as nat, frag)]
                    b@ == fragment_envelope_bytes(
                        i as nat,
                        n as nat,
                        l as nat,
                        frag,
                    ) implies false by {
                    lemma_envelope_layout(b@, i as nat, n as nat, l as nat, frag);
                    crate::num::lemma_dec_digits_value(i as nat);
                    crate::num::lemma_dec_digits_value(n as nat);
                    assert(!crate::num::is_digit(0x2F));
                }
            }
            return None;
        },
    };
    if p2 >= b.len() || b[p2] != 0x2F {
        proof {
            assert forall|i: u64, n: u64, l: u64, frag: Seq<u8>|
                #![trigger fragment_envelope_bytes(i as nat, n as nat, l as nat, frag)]
                b@ == fragment_envelope_bytes(
                    i as nat,
                    n as nat,
                    l as nat,
                    frag,
                ) implies false by {
                lemma_envelope_layout(b@, i as nat, n as nat, l as nat, frag);
                crate::num::lemma_dec_digits_value(i as nat);
                crate::num::lemma_dec_digits_value(n as nat);
                assert(!crate::num::is_digit(0x2F));
            }
        }
        return None;
    }
    let (original_len, p3) = match crate::num::parse_u64_prefix(b, p2 + 1) {
        Some(p) => p,
        None => {
            proof {
                assert forall|i: u64, n: u64, l: u64, frag: Seq<u8>|
                    #![trigger fragment_envelope_bytes(i as nat, n as nat, l as nat, frag)]
                    b@ == fragment_envelope_bytes(
                        i as nat,
                        n as nat,
                        l as nat,
                        frag,
                    ) implies false by {
                    lemma_envelope_layout(b@, i as nat, n as nat, l as nat, frag);
                    crate::num::lemma_dec_digits_value(i as nat);
                    crate::num::lemma_dec_digits_value(n as nat);
                    crate::num::lemma_dec_digits_value(l as nat);
                    assert(!crate::num::is_digit(0x2F));
                    assert(!crate::num::is_digit(0x0A));
                }
            }
            return None;
        },
    };
    if p3 >= b.len() || b[p3] != 0x0A {
        proof {
            assert forall|i: u64, n: u64, l: u64, frag: Seq<u8>|
                #![trigger fragment_envelope_bytes(i as nat, n as nat, l as nat, frag)]
                b@ == fragment_envelope_bytes(
                    i as nat,
                    n as nat,
                    l as nat,
                    frag,
                ) implies false by {
                lemma_envelope_layout(b@, i as nat, n as nat, l as nat, frag);
                crate::num::lemma_dec_digits_value(i as nat);
                crate::num::lemma_dec_digits_value(n as nat);
                crate::num::lemma_dec_digits_value(l as nat);
                assert(!crate::num::is_digit(0x2F));
                assert(!crate::num::is_digit(0x0A));
            }
        }
        return None;
    }
    let frag = crate::text::sub_bytes(b, p3 + 1, b.len());
    proof {
        assert(b@ =~= b@.subrange(0, p1 as int) + seq![b@[p1 as int]] + b@.subrange(
            p1 + 1,
            p2 as int,
        ) + seq![b@[p2 as int]] + b@.subrange(p2 + 1, p3 as int) + seq![b@[p3 as int]]
            + b@.subrange(p3 + 1, b@.len() as int));
        assert forall|i: u64, n: u64, l: u64, fh: Seq<u8>|
            #![trigger fragment_envelope_bytes(i as nat, n as nat, l as nat, fh)]
            b@ == fragment_envelope_bytes(i as nat, n as nat, l as nat, fh) implies index
            == i && total == n && original_len == l && frag@ == fh by {
            lemma_envelope_layout(b@, i as nat, n as nat, l as nat, fh);
            crate::num::lemma_dec_digits_value(i as nat);
            crate::num::lemma_dec_digits_value(n as nat);
            crate::num::lemma_dec_digits_value(l as nat);
            assert(!crate::num::is_digit(0x2F));
            assert(!crate::num::is_digit(0x0A));
        }
    }
    Some((index, total, original_len, frag))
}

/// `payloads` is exactly the envelope sequence of the byte ranges
/// `raws`: 1-based contiguous indices, a consistent total, and the
/// reassembled length as the declared original length.
pub open spec fn envelopes_of(payloads: Seq<Vec<u8>>, raws: Seq<Seq<u8>>) -> bool {
    &&& payloads.len() >= 1
    &&& raws.len() == payloads.len()
    &&& concat_all(raws).len() <= u64::MAX
    &&& forall|k: int|
        0 <= k < payloads.len() ==> (#[trigger] payloads[k])@ == fragment_envelope_bytes(
            (k + 1) as nat,
            payloads.len() as nat,
            concat_all(raws).len(),
            raws[k],
        )
}

/// Reassembles the fragment envelopes of one logical message.  Sound and
/// complete: a successful reassembly returns the unique payload whose
/// envelope sequence the inputs are, and reassembly succeeds on every
/// envelope sequence.
pub fn reassemble_fragments(payloads: &Vec<Vec<u8>>) -> (r: Option<Vec<u8>>)
    ensures
        r matches Some(p) ==> payloads@.len() >= 1 && exists|raws: Seq<Seq<u8>>|
            #![trigger concat_all(raws)]
            {
                &&& concat_all(raws) == p@
                &&& envelopes_of(payloads@, raws)
            },
        forall|raws: Seq<Seq<u8>>|
            #![trigger concat_all(raws)]
            envelopes_of(payloads@, raws) ==> (r matches Some(q) && q@ == concat_all(
                raws,
            )),
{
    if payloads.len() == 0 {
        return None;
    }
    let total = payloads.len();
    let mut out: Vec<u8> = Vec::new();
    let mut declared_len: u64 = 0;
    let ghost mut raws: Seq<Seq<u8>> = Seq::empty();
    let mut k: usize = 0;
    while k < total
        invariant
            k <= total,
            total == payloads@.len(),
            raws.len() == k,
            concat_all(raws) == out@,
            forall|j: int|
                0 <= j < k ==> (#[trigger] payloads@[j])@ == fragment_envelope_bytes(
                    (j + 1) as nat,
                    total as nat,
                    declared_len as nat,
                    raws[j],
                ),
        decreases total - k,
    {
        let (index, n, l, raw) = match decode_fragment(&payloads[k]) {
            Some(f) => f,
            None => {
                proof {
                    assert forall|rh: Seq<Seq<u8>>|
                        #![trigger concat_all(rh)]
                        envelopes_of(payloads@, rh) implies false by {
                        lemma_hypothesis_pins(payloads@, rh, k as int);
                    }
                }
                return None;
            },
        };
        if index != (k as u64) + 1 || n != total as u64 {
            proof {
                assert forall|rh: Seq<Seq<u8>>|
                    #![trigger concat_all(rh)]
                    envelopes_of(payloads@, rh) implies false by {
                    lemma_hypothesis_pins(payloads@, rh, k as int);
                }
            }
            return None;
        }
        if k == 0 {
            declared_len = l;
        } else if l != declared_len {
            proof {
                assert forall|rh: Seq<Seq<u8>>|
                    #![trigger concat_all(rh)]
                    envelopes_of(payloads@, rh) implies false by {
                    lemma_hypothesis_pins(payloads@, rh, k as int);
                    lemma_hypothesis_pins(payloads@, rh, 0);
                    lemma_envelope_injective(
                        1,
                        total as nat,
                        declared_len as nat,
                        raws[0],
                        1,
                        total as nat,
                        concat_all(rh).len(),
                        rh[0],
                    );
                }
            }
            return None;
        }
        proof {
            assert(raws.push(raw@).drop_last() =~= raws);
        }
        crate::text::push_bytes(&mut out, &raw);
        proof {
            raws = raws.push(raw@);
            assert(concat_all(raws) == out@);
            assert forall|j: int|
                0 <= j < k + 1 implies (#[trigger] payloads@[j])@
                == fragment_envelope_bytes(
                (j + 1) as nat,
                total as nat,
                declared_len as nat,
                raws[j],
            ) by {
                if j < k {
                    assert(raws[j] == raws.drop_last()[j]);
                }
            }
        }
        k += 1;
    }
    proof {
        assert forall|rh: Seq<Seq<u8>>|
            #![trigger concat_all(rh)]
            envelopes_of(payloads@, rh) implies out@ == concat_all(rh)
            && declared_len as nat == concat_all(rh).len() by {
            lemma_hypothesis_pins(payloads@, rh, 0);
            lemma_envelope_injective(
                1,
                total as nat,
                declared_len as nat,
                raws[0],
                1,
                total as nat,
                concat_all(rh).len(),
                rh[0],
            );
            assert(raws.len() == rh.len());
            assert forall|j: int| 0 <= j < total implies raws[j] == rh[j] by {
                lemma_hypothesis_pins(payloads@, rh, j);
                lemma_envelope_injective(
                    (j + 1) as nat,
                    total as nat,
                    declared_len as nat,
                    raws[j],
                    (j + 1) as nat,
                    total as nat,
                    concat_all(rh).len(),
                    rh[j],
                );
            }
            assert(raws =~= rh);
        }
    }
    if out.len() as u64 != declared_len {
        return None;
    }
    proof {
        assert(concat_all(raws) == out@);
        assert(envelopes_of(payloads@, raws));
    }
    Some(out)
}

/// Under the envelope-sequence hypothesis, the `k`-th payload is the
/// envelope of the `k`-th byte range, with its header fields as machine
/// integers.
proof fn lemma_hypothesis_pins(payloads: Seq<Vec<u8>>, rh: Seq<Seq<u8>>, k: int)
    requires
        envelopes_of(payloads, rh),
        0 <= k < payloads.len(),
        payloads.len() <= usize::MAX,
    ensures
        payloads[k]@ == fragment_envelope_bytes(
            ((k + 1) as u64) as nat,
            (payloads.len() as u64) as nat,
            (concat_all(rh).len() as u64) as nat,
            rh[k],
        ),
{
    assert(((k + 1) as u64) as nat == k + 1);
    assert((payloads.len() as u64) as nat == payloads.len());
    assert((concat_all(rh).len() as u64) as nat == concat_all(rh).len());
}

/// Plans the publishes for one response.
///
/// A payload within the ceiling goes out whole, at most once.  A larger
/// payload yields `ceil(len / ceiling)` fragment envelopes — fragment `k`
/// (1-based) carries its index, the total count, the original byte
/// length, and the `k`-th byte range of the payload, on
/// `<topic>/split/<k>/<n>` with at-least-once delivery; concatenating the
/// byte ranges in index order reproduces the payload.  After the
/// fragments comes one summary envelope on the original topic declaring
/// the fragment count and the original byte length.
pub fn plan_publish(topic: &Vec<u8>, payload: Vec<u8>, ceiling: usize) -> (r: PublishPlan)
    requires
        ceiling >= 1,
    ensures
        payload@.len() <= ceiling ==> (r matches PublishPlan::Whole(env) && env.topic@
            == topic@ && env.qos is AtMostOnce && env.payload@ == payload@),
        payload@.len() > ceiling ==> (r matches PublishPlan::Split { fragments, summary }
            && fragments@.len() == fragment_count(payload@.len(), ceiling as nat) && (
        forall|k: int|
            0 <= k < fragments@.len() ==> (#[trigger] fragments@[k]).topic@
                == crate::topics::split_topic_bytes(
                topic@,
                (k + 1) as nat,
                fragments@.len() as nat,
            ) && fragments@[k].qos is AtLeastOnce && fragments@[k].payload@
                == fragment_envelope_bytes(
                (k + 1) as nat,
                fragments@.len() as nat,
                payload@.len() as nat,
                payload@.subrange(k * ceiling, frag_end(k, ceiling as nat, payload@.len())),
            )) && summary.topic@ == topic@ && summary.qos is AtLeastOnce
            && summary.payload@ == crate::render::summary_json(
            fragments@.len() as nat,
            payload@.len() as nat,
        )),
        // The byte ranges the fragments carry put the payload back
        // together.
        payload@.len() > ceiling ==> concat_all(ranges_of(payload@, ceiling as nat))
            == payload@,
{
    if payload.len() <= ceiling {
        return PublishPlan::Whole(
            Envelope {
                topic: crate::store::copy_bytes(topic),
                qos: Qos::AtMostOnce,
                payload,
            },
        );
    }
    let parts = split_payload(&payload, ceiling);
    let total = parts.len();
    let original_len = payload.len();
    let mut fragments: Vec<Envelope> = Vec::new();
    let mut k: usize = 0;
    while k < parts.len()
        invariant
            ceiling >= 1,
            k <= parts@.len(),
            total == parts@.len(),
            original_len == payload@.len(),
            parts@.len() == fragment_count(payload@.len(), ceiling as nat),
            forall|j: int|
                0 <= j < parts@.len() ==> (#[trigger] parts@[j])@ == payload@.subrange(
                    j * ceiling,
                    frag_end(j, ceiling as nat, payload@.len()),
                ),
            fragments@.len() == k,
            forall|j: int|
                0 <= j < k ==> (#[trigger] fragments@[j]).topic@
                    == crate::topics::split_topic_bytes(
                    topic@,
                    (j + 1) as nat,
                    total as nat,
                ) && fragments@[j].qos is AtLeastOnce && fragments@[j].payload@
                    == fragment_envelope_bytes(
                    (j + 1) as nat,
                    total as nat,
                    original_len as nat,
                    parts@[j]@,
                ),
        decreases parts@.len() - k,
    {
        let t = crate::topics::split_topic(topic, (k as u64) + 1, total as u64);
        let body = encode_fragment(
            (k as u64) + 1,
            total as u64,
            original_len as u64,
            &parts[k],
        );
        fragments.push(Envelope { topic: t, qos: Qos::AtLeastOnce, payload: body });
        k += 1;
    }
    let summary = Envelope {
        topic: crate::store::copy_bytes(topic),
        qos: Qos::AtLeastOnce,
        payload: crate::render::summary_payload(total as u64, original_len as u64),
    };
    proof {
        assert(views_of(parts@) =~= ranges_of(payload@, ceiling as nat));
    }
    PublishPlan::Split { fragments, summary }
}

/// Concatenates fragments in index order: the consumer-side inverse of
/// `split_payload`.
pub fn reassemble_payload(fragments: &Vec<Vec<u8>>) -> (r: Vec<u8>)
    ensures
        r@ == concat_all(views_of(fragments@)),
{
    let mut out: Vec<u8> = Vec::new();
    let mut i: usize = 0;
    while i < fragments.len()
        invariant
            i <= fragments@.len(),
            out@ == concat_all(views_of(fragments@.take(i as int))),
        decreases fragments@.len() - i,
    {
        crate::text::push_bytes(&mut out, &fragments[i]);
        proof {
            assert(views_of(fragments@.take(i as int + 1)).drop_last() =~= views_of(
                fragments@.take(i as int),
            ));
            assert(views_of(fragments@.take(i as int + 1)).last() == fragments@[
                i as int]@);
        }
        i += 1;
    }
    proof {
        assert(fragments@.take(i as int) =~= fragments@);
    }
    out
}

} // verus!
