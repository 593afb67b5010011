//! Byte-string helpers shared by the protocol modules.
//!
//! All textual values in this crate are byte strings (`Vec<u8>`), viewed as
//! `Seq<u8>`.  Topics, payloads and record attributes travel through the
//! gateway as bytes; the unverified edges convert to and from `String` where
//! a transport demands it.

use vstd::prelude::*;

verus! {

/// The byte sequence of an ASCII character sequence, one byte per character.
pub open spec fn ascii_bytes_of(s: Seq<char>) -> Seq<u8> {
    Seq::new(s.len(), |i: int| s[i] as u8)
}

/// The bytes of an ASCII string literal, as a fresh vector.
pub fn lit_bytes(s: &str) -> (r: Vec<u8>)
    requires
        s.is_ascii(),
    ensures
        r@ == ascii_bytes_of(s@),
{
    broadcast use vstd::string::is_ascii_spec_bytes;

    let b: Vec<u8> = vstd::string::StrSliceExecFns::as_bytes_vec(s);
    assert(b@ =~= ascii_bytes_of(s@));
    b
}

/// Byte-for-byte equality of two byte strings.
pub fn bytes_eq(a: &Vec<u8>, b: &Vec<u8>) -> (r: bool)
    ensures
        r == (a@ == b@),
{
    if a.len() != b.len() {
        assert(a@ != b@) by {
            assert(a@.len() != b@.len());
        }
        return false;
    }
    let mut i: usize = 0;
    while i < a.len()
        invariant
            i <= a.len(),
            a@.len() == b@.len(),
            forall|j: int| 0 <= j < i ==> a@[j] == b@[j],
        decreases a.len() - i,
    {
        if a[i] != b[i] {
            return false;
        }
        i += 1;
    }
    assert(a@ =~= b@);
    true
}

/// Appends one byte string to another.
pub fn push_bytes(out: &mut Vec<u8>, s: &Vec<u8>)
    ensures
        final(out)@ == old(out)@ + s@,
{
    let mut i: usize = 0;
    while i < s.len()
        invariant
            i <= s.len(),
            out@ == old(out)@ + s@.take(i as int),
        decreases s.len() - i,
    {
        out.push(s[i]);
        assert(out@ =~= old(out)@ + s@.take(i as int + 1));
        i += 1;
    }
    assert(out@ =~= old(out)@ + s@);
}

/// Appends the bytes of an ASCII string literal.
pub fn push_lit(out: &mut Vec<u8>, s: &str)
    requires
        s.is_ascii(),
    ensures
        final(out)@ == old(out)@ + ascii_bytes_of(s@),
{
    let b = lit_bytes(s);
    push_bytes(out, &b);
}

/// Lexicographic order on byte strings: `a` is no later than `b`.
pub open spec fn lex_le(a: Seq<u8>, b: Seq<u8>) -> bool
    decreases a.len(),
{
    if a.len() == 0 {
        true
    } else if b.len() == 0 {
        false
    } else if a[0] < b[0] {
        true
    } else if a[0] > b[0] {
        false
    } else {
        lex_le(a.skip(1), b.skip(1))
    }
}

/// Decides the lexicographic order of two byte strings.
pub fn bytes_le(a: &Vec<u8>, b: &Vec<u8>) -> (r: bool)
    ensures
        r == lex_le(a@, b@),
{
    proof {
        assert(a@.skip(0) =~= a@);
        assert(b@.skip(0) =~= b@);
    }
    let mut i: usize = 0;
    while i < a.len() && i < b.len()
        invariant
            i <= a.len(),
            i <= b.len(),
            lex_le(a@, b@) == lex_le(a@.skip(i as int), b@.skip(i as int)),
        decreases a.len() - i,
    {
        proof {
            assert(a@.skip(i as int)[0] == a@[i as int]);
            assert(b@.skip(i as int)[0] == b@[i as int]);
            assert(a@.skip(i as int).skip(1) =~= a@.skip(i as int + 1));
            assert(b@.skip(i as int).skip(1) =~= b@.skip(i as int + 1));
        }
        if a[i] < b[i] {
            return true;
        }
        if a[i] > b[i] {
            return false;
        }
        i += 1;
    }
    if i == a.len() {
        assert(a@.skip(i as int).len() == 0);
        true
    } else {
        assert(b@.skip(i as int).len() == 0);
        assert(a@.skip(i as int).len() > 0);
        false
    }
}

/// The decimal digits of `n`, most significant first, as ASCII bytes.
pub open spec fn dec_digits(n: nat) -> Seq<u8>
    decreases n,
{
    if n < 10 {
        seq![(n + 0x30) as u8]
    } else {
        dec_digits(n / 10).push((n % 10 + 0x30) as u8)
    }
}

/// Appends the decimal rendering of `n`.
pub fn push_u64_dec(out: &mut Vec<u8>, n: u64)
    ensures
        final(out)@ == old(out)@ + dec_digits(n as nat),
    decreases n,
{
    if n < 10 {
        out.push((n as u8) + 0x30);
        assert(out@ =~= old(out)@ + dec_digits(n as nat));
    } else {
        push_u64_dec(out, n / 10);
        out.push((n % 10) as u8 + 0x30);
        assert(out@ =~= old(out)@ + dec_digits(n as nat));
    }
}

/// A fresh copy of the byte range `[from, to)` of `b`.
pub fn sub_bytes(b: &Vec<u8>, from: usize, to: usize) -> (r: Vec<u8>)
    requires
        from <= to <= b@.len(),
    ensures
        r@ == b@.subrange(from as int, to as int),
{
    let mut out: Vec<u8> = Vec::new();
    let mut j: usize = from;
    while j < to
        invariant
            from <= j <= to <= b@.len(),
            out@ == b@.subrange(from as int, j as int),
        decreases to - j,
    {
        out.push(b[j]);
        assert(out@ =~= b@.subrange(from as int, j as int + 1));
        j += 1;
    }
    out
}

} // verus!
