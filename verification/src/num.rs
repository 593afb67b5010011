//! Exact decimal numbers for record attributes.
//!
//! The transports carry numeric attributes (temperature, humidity, energy
//! cost, energy consumption) as decimal text.  The store matches them by
//! exact numeric value, so the gateway keeps each number in a normal form: a
//! sign, an integer part, and the fraction digits with trailing zeros
//! removed.  Two decimal texts denote the same number exactly when their
//! normal forms are equal, so structural equality of `Num` is numeric
//! equality.  Texts with an exponent part are not part of the accepted
//! grammar and are rejected.

use vstd::prelude::*;

verus! {

/// An exact decimal number in normal form.
///
/// `frac` holds the fraction digits as ASCII bytes with no trailing zero;
/// negative zero is normalized to `neg == false`.
pub struct Num {
    pub neg: bool,
    pub int_part: u64,
    pub frac: Vec<u8>,
}

/// An ASCII decimal digit.
pub open spec fn is_digit(b: u8) -> bool {
    0x30 <= b <= 0x39
}

/// Every byte of `s` is an ASCII decimal digit.
pub open spec fn is_digit_seq(s: Seq<u8>) -> bool {
    forall|i: int| 0 <= i < s.len() ==> is_digit(#[trigger] s[i])
}

/// The value of a digit string, most significant digit first.
pub open spec fn digits_val(s: Seq<u8>) -> nat
    decreases s.len(),
{
    if s.len() == 0 {
        0
    } else {
        digits_val(s.drop_last()) * 10 + (s.last() - 0x30) as nat
    }
}

/// `f` with its trailing zero digits removed.
pub open spec fn strip_zeros(f: Seq<u8>) -> Seq<u8>
    decreases f.len(),
{
    if f.len() > 0 && f.last() == 0x30 {
        strip_zeros(f.drop_last())
    } else {
        f
    }
}

impl Num {
    /// The normal form invariant.
    pub open spec fn wf(self) -> bool {
        &&& is_digit_seq(self.frac@)
        &&& self.frac@.len() > 0 ==> self.frac@.last() != 0x30
        &&& !(self.neg && self.int_part == 0 && self.frac@.len() == 0)
    }

    /// The mathematical content: sign, integer part, fraction digits.
    pub open spec fn model(self) -> (bool, nat, Seq<u8>) {
        (self.neg, self.int_part as nat, self.frac@)
    }

    /// Structural (and hence numeric) equality.
    pub fn eq_num(&self, other: &Num) -> (r: bool)
        ensures
            r == (self.model() == other.model()),
    {
        let r = self.neg == other.neg && self.int_part == other.int_part
            && crate::text::bytes_eq(&self.frac, &other.frac);
        proof {
            if r {
                assert(self.model() =~= other.model());
            }
        }
        r
    }

    /// An independent copy.
    pub fn duplicate(&self) -> (r: Num)
        ensures
            r.model() == self.model(),
            r.wf() == self.wf(),
    {
        let mut frac: Vec<u8> = Vec::new();
        crate::text::push_bytes(&mut frac, &self.frac);
        assert(frac@ =~= self.frac@);
        Num { neg: self.neg, int_part: self.int_part, frac }
    }
}

/// The unsigned decimal grammar: `digits [ '.' digits ]`, both runs
/// non-empty.  Yields the integer value and the raw fraction digits.
pub open spec fn spec_parse_unsigned(s: Seq<u8>) -> Option<(nat, Seq<u8>)> {
    match s.index_of_first(0x2Eu8) {
        None => {
            if s.len() > 0 && is_digit_seq(s) {
                Some((digits_val(s), Seq::empty()))
            } else {
                None
            }
        },
        Some(dp) => {
            let ip = s.subrange(0, dp);
            let fp = s.subrange(dp + 1, s.len() as int);
            if ip.len() > 0 && fp.len() > 0 && is_digit_seq(ip) && is_digit_seq(fp) {
                Some((digits_val(ip), fp))
            } else {
                None
            }
        },
    }
}

/// The signed decimal grammar with normalization: an optional `'-'`, then
/// the unsigned grammar; trailing fraction zeros are dropped and negative
/// zero loses its sign.
pub open spec fn spec_parse_decimal(s: Seq<u8>) -> Option<(bool, nat, Seq<u8>)> {
    if s.len() > 0 && s[0] == 0x2D {
        match spec_parse_unsigned(s.skip(1)) {
            Some(p) => {
                let f = strip_zeros(p.1);
                Some((!(p.0 == 0 && f.len() == 0), p.0, f))
            },
            None => None,
        }
    } else {
        match spec_parse_unsigned(s) {
            Some(p) => Some((false, p.0, strip_zeros(p.1))),
            None => None,
        }
    }
}

/// The rendering of a normal form: sign, integer digits, and the fraction
/// after a decimal point when it is non-empty.
pub open spec fn render_num(m: (bool, nat, Seq<u8>)) -> Seq<u8> {
    let sign: Seq<u8> = if m.0 {
        seq![0x2Du8]
    } else {
        Seq::empty()
    };
    let fp: Seq<u8> = if m.2.len() > 0 {
        seq![0x2Eu8] + m.2
    } else {
        Seq::empty()
    };
    sign + crate::text::dec_digits(m.1) + fp
}

proof fn lemma_take_succ(s: Seq<u8>, k: int)
    requires
        0 <= k < s.len(),
    ensures
        s.take(k + 1) == s.take(k).push(s[k]),
{
    assert(s.take(k + 1) =~= s.take(k).push(s[k]));
}

proof fn lemma_digits_val_push(s: Seq<u8>, d: u8)
    ensures
        digits_val(s.push(d)) == digits_val(s) * 10 + (d - 0x30) as nat,
{
    assert(s.push(d).drop_last() =~= s);
    assert(s.push(d).last() == d);
}

/// Extending a digit string never decreases its value.
proof fn lemma_digits_val_prefix(s: Seq<u8>, k: int)
    requires
        0 <= k <= s.len(),
        is_digit_seq(s),
    ensures
        digits_val(s.take(k)) <= digits_val(s),
    decreases s.len() - k,
{
    if k < s.len() {
        lemma_take_succ(s, k);
        lemma_digits_val_push(s.take(k), s[k]);
        lemma_digits_val_prefix(s, k + 1);
    } else {
        assert(s.take(k) =~= s);
    }
}

/// A digit string with a nonzero leading digit has a nonzero value.
proof fn lemma_leading_digit_value(ds: Seq<u8>)
    requires
        ds.len() >= 1,
        is_digit_seq(ds),
        ds[0] != 0x30,
    ensures
        digits_val(ds) >= 1,
{
    assert(ds.take(1).drop_last() =~= Seq::<u8>::empty());
    assert(ds.take(1).last() == ds[0]);
    assert(digits_val(ds.take(1).drop_last()) == 0);
    assert(digits_val(ds.take(1)) == (ds[0] - 0x30) as nat);
    lemma_digits_val_prefix(ds, 1);
}

/// A digit string without a leading zero is the canonical rendering of
/// its value.
pub proof fn lemma_canonical_digits(ds: Seq<u8>)
    requires
        ds.len() >= 1,
        is_digit_seq(ds),
        ds[0] != 0x30 || ds.len() == 1,
    ensures
        crate::text::dec_digits(digits_val(ds)) == ds,
    decreases ds.len(),
{
    let d = (ds.last() - 0x30) as nat;
    if ds.len() == 1 {
        assert(ds.drop_last() =~= Seq::<u8>::empty());
        assert(digits_val(ds.drop_last()) == 0);
        assert(digits_val(ds) == d);
        assert(crate::text::dec_digits(d) =~= ds);
    } else {
        let dl = ds.drop_last();
        assert(dl[0] == ds[0]);
        assert(is_digit_seq(dl)) by {
            assert(forall|i: int| 0 <= i < dl.len() ==> #[trigger] dl[i] == ds[i]);
        }
        lemma_leading_digit_value(dl);
        let vdl = digits_val(dl);
        let v = digits_val(ds);
        assert(v == vdl * 10 + d);
        assert(v >= 10) by (nonlinear_arith)
            requires
                v == vdl * 10 + d,
                vdl >= 1,
                d >= 0,
        ;
        assert(v / 10 == vdl && v % 10 == d) by (nonlinear_arith)
            requires
                v == vdl * 10 + d,
                0 <= d < 10,
        ;
        lemma_canonical_digits(dl);
        assert(crate::text::dec_digits(v) == crate::text::dec_digits(vdl).push(
            (d + 0x30) as u8,
        ));
        assert(dl.push((d + 0x30) as u8) =~= ds);
    }
}

/// The decimal rendering of `v` is a non-empty digit run, evaluates back
/// to `v`, and starts with a zero only when `v` is zero.
pub proof fn lemma_dec_digits_value(v: nat)
    ensures
        crate::text::dec_digits(v).len() >= 1,
        is_digit_seq(crate::text::dec_digits(v)),
        digits_val(crate::text::dec_digits(v)) == v,
        crate::text::dec_digits(v)[0] == 0x30 ==> v == 0,
    decreases v,
{
    let ds = crate::text::dec_digits(v);
    if v < 10 {
        assert(ds == seq![(v + 0x30) as u8]);
        assert(ds.drop_last() =~= Seq::<u8>::empty());
        assert(digits_val(ds.drop_last()) == 0);
        assert forall|k: int| 0 <= k < ds.len() implies is_digit(#[trigger] ds[k]) by {
            assert(ds[k] == (v + 0x30) as u8);
        }
    } else {
        lemma_dec_digits_value(v / 10);
        let rest = crate::text::dec_digits(v / 10);
        let d = (v % 10 + 0x30) as u8;
        assert(ds == rest.push(d));
        lemma_digits_val_push(rest, d);
        assert(v / 10 * 10 + v % 10 == v) by (nonlinear_arith);
        assert forall|k: int| 0 <= k < ds.len() implies is_digit(#[trigger] ds[k]) by {
            if k < rest.len() {
                assert(ds[k] == rest[k]);
            } else {
                assert(ds[k] == d);
            }
        }
        assert(ds[0] == rest[0]);
    }
}

/// Parses a decimal run at position `from` of `b`: a non-empty digit run
/// without a leading zero (unless it is the single digit zero), valued
/// within `u64`.  Returns the value and the position after the run.
/// Complete as well as sound: on a canonical run bounded by a non-digit
/// the parse succeeds with exactly that run's value and extent.
pub fn parse_u64_prefix(b: &Vec<u8>, from: usize) -> (r: Option<(u64, usize)>)
    requires
        from <= b@.len(),
    ensures
        r matches Some(p) ==> from < p.1 <= b@.len() && b@.subrange(from as int, p.1 as int)
            == crate::text::dec_digits(p.0 as nat) && (p.1 < b@.len() ==> !is_digit(
            b@[p.1 as int],
        )),
        forall|v: u64, end: int|
            #![trigger crate::text::dec_digits(v as nat), b@.subrange(from as int, end)]
            (from < end <= b@.len() && b@.subrange(from as int, end)
                == crate::text::dec_digits(v as nat) && (end < b@.len() ==> !is_digit(
                b@[end],
            ))) ==> (r matches Some(p) && p.0 == v && p.1 == end),
{
    let len = b.len();
    let mut i: usize = from;
    let mut acc: u64 = 0;
    while i < len && b[i] >= 0x30 && b[i] <= 0x39
        invariant
            from <= i <= len,
            len == b@.len(),
            is_digit_seq(b@.subrange(from as int, i as int)),
            acc as nat == digits_val(b@.subrange(from as int, i as int)),
        decreases len - i,
    {
        let d: u8 = b[i] - 0x30;
        proof {
            assert(b@.subrange(from as int, i as int + 1).drop_last() =~= b@.subrange(
                from as int,
                i as int,
            ));
            assert(b@.subrange(from as int, i as int + 1).last() == b@[i as int]);
        }
        if acc > (u64::MAX - d as u64) / 10 {
            proof {
                assert forall|v: u64, end: int|
                    #![trigger crate::text::dec_digits(v as nat), b@.subrange(from as int, end)]
                    (from < end <= b@.len() && b@.subrange(from as int, end)
                        == crate::text::dec_digits(v as nat) && (end < b@.len()
                        ==> !is_digit(b@[end]))) implies false by {
                    lemma_dec_digits_value(v as nat);
                    let ds = crate::text::dec_digits(v as nat);
                    if end <= i {
                        if end < i {
                            assert(is_digit(b@.subrange(from as int, i as int)[end
                                - from]));
                        }
                        assert(is_digit(b@[end]));
                    } else {
                        assert(b@.subrange(from as int, i as int + 1) =~= ds.take(
                            i + 1 - from,
                        ));
                        lemma_digits_val_prefix(ds, i + 1 - from);
                        assert(digits_val(ds.take(i + 1 - from)) == acc * 10 + d);
                        assert(acc * 10 + d > u64::MAX) by (nonlinear_arith)
                            requires
                                acc > (u64::MAX - d as u64) / 10,
                                0 <= d < 10,
                        ;
                    }
                }
            }
            return None;
        }
        acc = acc * 10 + d as u64;
        proof {
            assert(is_digit_seq(b@.subrange(from as int, i as int + 1))) by {
                assert(forall|k: int|
                    0 <= k < i + 1 - from ==> #[trigger] b@.subrange(
                        from as int,
                        i as int + 1,
                    )[k] == b@[from + k]);
            }
        }
        i += 1;
    }
    if i == from {
        proof {
            assert forall|v: u64, end: int|
                #![trigger crate::text::dec_digits(v as nat), b@.subrange(from as int, end)]
                (from < end <= b@.len() && b@.subrange(from as int, end)
                    == crate::text::dec_digits(v as nat) && (end < b@.len() ==> !is_digit(
                    b@[end],
                ))) implies false by {
                lemma_dec_digits_value(v as nat);
                assert(b@.subrange(from as int, end)[0] == b@[from as int]);
                assert(is_digit(b@[from as int]));
            }
        }
        return None;
    }
    if b[from] == 0x30 && i > from + 1 {
        // A leading zero is not canonical.
        proof {
            assert forall|v: u64, end: int|
                #![trigger crate::text::dec_digits(v as nat), b@.subrange(from as int, end)]
                (from < end <= b@.len() && b@.subrange(from as int, end)
                    == crate::text::dec_digits(v as nat) && (end < b@.len() ==> !is_digit(
                    b@[end],
                ))) implies false by {
                lemma_dec_digits_value(v as nat);
                let ds = crate::text::dec_digits(v as nat);
                assert(ds[0] == b@.subrange(from as int, end)[0]);
                assert(ds[0] == b@[from as int]);
                assert(v == 0);
                assert(ds == seq![0x30u8]);
                assert(end == from + 1);
                assert(is_digit(b@.subrange(from as int, i as int)[1]));
                assert(is_digit(b@[from + 1]));
            }
        }
        return None;
    }
    proof {
        let ds = b@.subrange(from as int, i as int);
        assert(ds[0] == b@[from as int]);
        lemma_canonical_digits(ds);
        assert forall|v: u64, end: int|
            #![trigger crate::text::dec_digits(v as nat), b@.subrange(from as int, end)]
            (from < end <= b@.len() && b@.subrange(from as int, end)
                == crate::text::dec_digits(v as nat) && (end < b@.len() ==> !is_digit(
                b@[end],
            ))) implies v == acc && end == i as int by {
            lemma_dec_digits_value(v as nat);
            let dv = crate::text::dec_digits(v as nat);
            if end < i {
                assert(is_digit(b@.subrange(from as int, i as int)[end - from]));
                assert(is_digit(b@[end]));
                assert(false);
            }
            if end > i {
                assert(b@.subrange(from as int, end)[i - from] == b@[i as int]);
                assert(is_digit(b@[i as int]));
                assert(false);
            }
            assert(b@.subrange(from as int, i as int) == dv);
        }
    }
    Some((acc, i))
}

/// Parses the unsigned decimal grammar out of `b` from position `from`,
/// reporting overflow of the integer part as `None`.
fn parse_unsigned_from(b: &Vec<u8>, from: usize) -> (r: Option<(u64, Vec<u8>)>)
    requires
        from <= b@.len(),
    ensures
        match r {
            Some(p) => is_digit_seq(p.1@) && spec_parse_unsigned(b@.skip(from as int))
                == Some((p.0 as nat, p.1@)),
            None => {
                ||| spec_parse_unsigned(b@.skip(from as int)) is None
                ||| (spec_parse_unsigned(b@.skip(from as int)) matches Some(m) && m.0
                    > u64::MAX)
            },
        },
{
    let ghost s = b@.skip(from as int);
    let len = b.len();
    let mut i: usize = from;
    let mut acc: u64 = 0;
    // Scan the integer digits, accumulating their value.
    while i < len && b[i] >= 0x30 && b[i] <= 0x39
        invariant
            from <= i <= len,
            len == b@.len(),
            s == b@.skip(from as int),
            is_digit_seq(s.take(i - from)),
            acc as nat == digits_val(s.take(i - from)),
        decreases len - i,
    {
        let d: u8 = b[i] - 0x30;
        proof {
            lemma_take_succ(s, i - from);
            lemma_digits_val_push(s.take(i - from), s[i - from]);
        }
        if acc > (u64::MAX - d as u64) / 10 {
            // The integer part does not fit; whatever follows, the parsed
            // value (if the text parses at all) exceeds u64::MAX.
            proof {
                lemma_overflow_case(s, i - from + 1);
            }
            return None;
        }
        acc = acc * 10 + d as u64;
        i += 1;
    }
    if i == from {
        // No leading digit: the grammar demands a non-empty integer run.
        proof {
            s.index_of_first_ensures(0x2Eu8);
            match s.index_of_first(0x2Eu8) {
                Some(dp) => {
                    if dp > 0 {
                        assert(s.subrange(0, dp)[0] == s[0]);
                        assert(!is_digit_seq(s.subrange(0, dp)));
                    }
                },
                None => {
                    if s.len() > 0 {
                        assert(!is_digit(s[0]));
                    }
                },
            }
        }
        return None;
    }
    if i == len {
        // Digits to the end: the whole tail is the integer part.
        proof {
            s.index_of_first_ensures(0x2Eu8);
            assert(s.take(i - from) =~= s);
            assert(is_digit_seq(s));
            match s.index_of_first(0x2Eu8) {
                Some(dp) => {
                    // A dot among the digits is a contradiction.
                    assert(s[dp] == 0x2E);
                    assert(is_digit(s[dp]));
                    assert(false);
                },
                None => {},
            }
        }
        return Some((acc, Vec::new()));
    }
    if b[i] != 0x2E {
        // A byte that is neither digit nor point ends no valid number.
        proof {
            let bad = i - from;
            s.index_of_first_ensures(0x2Eu8);
            match s.index_of_first(0x2Eu8) {
                Some(dp) => {
                    assert(s[dp] == 0x2E);
                    assert(dp != bad);
                    if dp < bad {
                        // The first dot would sit among the scanned digits.
                        assert(is_digit(s.take(bad)[dp]));
                        assert(false);
                    } else {
                        assert(s.subrange(0, dp)[bad] == s[bad]);
                        assert(!is_digit_seq(s.subrange(0, dp)));
                    }
                },
                None => {
                    assert(!is_digit(s[bad]));
                },
            }
        }
        return None;
    }
    // A decimal point: scan the fraction digits.
    let ghost dp = i - from;
    proof {
        s.index_of_first_ensures(0x2Eu8);
        assert(s[dp] == 0x2E);
        match s.index_of_first(0x2Eu8) {
            Some(d0) => {
                if d0 < dp {
                    assert(s.take(dp)[d0] == s[d0]);
                    assert(is_digit(s[d0]));
                }
                assert(d0 == dp);
            },
            None => {
                assert(s.contains(0x2Eu8)) by {
                    assert(s[dp] == 0x2E);
                }
            },
        }
        assert(s.index_of_first(0x2Eu8) == Some(dp));
        assert(s.subrange(0, dp) =~= s.take(dp));
    }
    let frac_start = i + 1;
    let mut j: usize = frac_start;
    let mut frac: Vec<u8> = Vec::new();
    while j < len && b[j] >= 0x30 && b[j] <= 0x39
        invariant
            frac_start <= j <= len,
            frac_start == i + 1,
            from <= i < len,
            len == b@.len(),
            s == b@.skip(from as int),
            frac@ == s.subrange(dp + 1, j - from),
            dp == i - from,
            is_digit_seq(frac@),
        decreases len - j,
    {
        frac.push(b[j]);
        assert(frac@ =~= s.subrange(dp + 1, j + 1 - from));
        j += 1;
    }
    let ghost fp = s.subrange(dp + 1, s.len() as int);
    if j == frac_start {
        // The point must be followed by at least one digit.
        proof {
            if fp.len() > 0 {
                assert(fp[0] == s[dp + 1]);
                assert(!is_digit(fp[0]));
            }
        }
        return None;
    }
    if j < len {
        // A stray byte after the fraction digits invalidates the text.
        proof {
            assert(fp[j - from - (dp + 1)] == s[j - from]);
            assert(!is_digit_seq(fp));
        }
        return None;
    }
    proof {
        assert(frac@ =~= fp);
        assert(s.take(dp) =~= s.subrange(0, dp));
    }
    Some((acc, frac))
}

/// When the integer digits up to `k` already exceed `u64::MAX`, any parse of
/// the whole text yields a value above `u64::MAX`.
proof fn lemma_overflow_case(s: Seq<u8>, k: int)
    requires
        0 < k <= s.len(),
        is_digit_seq(s.take(k)),
        digits_val(s.take(k)) > u64::MAX,
    ensures
        spec_parse_unsigned(s) is None || (spec_parse_unsigned(s) matches Some(m) && m.0
            > u64::MAX),
{
    s.index_of_first_ensures(0x2Eu8);
    match s.index_of_first(0x2Eu8) {
        None => {
            if s.len() > 0 && is_digit_seq(s) {
                lemma_digits_val_prefix(s, k);
            }
        },
        Some(dp) => {
            let ip = s.subrange(0, dp);
            if ip.len() > 0 && is_digit_seq(ip) {
                // The point lies at or after `k`, else a digit position
                // would hold the point.
                if dp < k {
                    assert(s.take(k)[dp] == s[dp]);
                    assert(is_digit(s[dp]));
                    assert(false);
                }
                assert(ip.take(k) =~= s.take(k));
                lemma_digits_val_prefix(ip, k);
            }
        },
    }
}

/// Parses a decimal text into its normal form.
///
/// Returns `None` exactly when the text does not match the grammar or its
/// integer part exceeds `u64::MAX`.
pub fn parse_decimal(b: &Vec<u8>) -> (r: Option<Num>)
    ensures
        match r {
            Some(n) => n.wf() && spec_parse_decimal(b@) == Some(n.model()),
            None => {
                ||| spec_parse_decimal(b@) is None
                ||| (spec_parse_decimal(b@) matches Some(m) && m.1 > u64::MAX)
            },
        },
{
    let neg_sign = b.len() > 0 && b[0] == 0x2D;
    let from: usize = if neg_sign {
        1
    } else {
        0
    };
    proof {
        if !neg_sign {
            assert(b@.skip(0) =~= b@);
        }
    }
    match parse_unsigned_from(b, from) {
        None => None,
        Some((v, mut frac)) => {
            // Normalize: drop trailing fraction zeros, then the sign of zero.
            while frac.len() > 0 && frac[frac.len() - 1] == 0x30
                invariant
                    is_digit_seq(frac@),
                    spec_parse_unsigned(b@.skip(from as int)) matches Some(m) && m.0
                        == v as nat && strip_zeros(m.1) == strip_zeros(frac@),
                decreases frac@.len(),
            {
                let ghost before = frac@;
                frac.pop();
                proof {
                    assert(frac@ =~= before.drop_last());
                    assert(strip_zeros(before) == strip_zeros(frac@));
                    assert forall|k: int| 0 <= k < frac@.len() implies is_digit(
                        #[trigger] frac@[k],
                    ) by {
                        assert(frac@[k] == before[k]);
                    }
                }
            }
            proof {
                assert(strip_zeros(frac@) == frac@);
            }
            let neg = neg_sign && !(v == 0 && frac.len() == 0);
            Some(Num { neg, int_part: v, frac })
        },
    }
}

/// Appends the canonical rendering of `n`.
pub fn push_num(out: &mut Vec<u8>, n: &Num)
    ensures
        final(out)@ == old(out)@ + render_num(n.model()),
{
    if n.neg {
        out.push(0x2D);
    }
    crate::text::push_u64_dec(out, n.int_part);
    if n.frac.len() > 0 {
        out.push(0x2E);
        crate::text::push_bytes(out, &n.frac);
    }
    assert(out@ =~= old(out)@ + render_num(n.model()));
}

} // verus!
