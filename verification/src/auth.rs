//! The gateway's password check.
//!
//! The connection gateway sends a prompt, reads one line, and compares it —
//! trimmed of surrounding whitespace, otherwise verbatim and case-sensitive
//! — against the configured secret.  An empty read means the peer hung up
//! during authentication.  The socket work happens outside; this module
//! decides, and owns the exact wire texts.

use vstd::prelude::*;

use crate::text::ascii_bytes_of;

verus! {

/// The outcome of one authentication exchange.
pub enum AuthDecision {
    /// The peer disconnected before sending a password.
    Disconnected,
    /// The trimmed line equals the secret: access is granted.
    Granted,
    /// The line does not match: access is denied and the stream is closed.
    Denied,
}

/// ASCII whitespace, as trimmed from the password line.
pub open spec fn is_space(b: u8) -> bool {
    b == 0x20 || b == 0x09 || b == 0x0A || b == 0x0D || b == 0x0B || b == 0x0C
}

/// `s` without its leading whitespace.
pub open spec fn trim_start(s: Seq<u8>) -> Seq<u8>
    decreases s.len(),
{
    if s.len() > 0 && is_space(s[0]) {
        trim_start(s.skip(1))
    } else {
        s
    }
}

/// `s` without its trailing whitespace.
pub open spec fn trim_end(s: Seq<u8>) -> Seq<u8>
    decreases s.len(),
{
    if s.len() > 0 && is_space(s.last()) {
        trim_end(s.drop_last())
    } else {
        s
    }
}

/// `s` without surrounding whitespace.
pub open spec fn trimmed(s: Seq<u8>) -> Seq<u8> {
    trim_end(trim_start(s))
}

/// Copies `b` without surrounding ASCII whitespace.
pub fn trim_bytes(b: &Vec<u8>) -> (r: Vec<u8>)
    ensures
        r@ == trimmed(b@),
{
    let len = b.len();
    let mut i: usize = 0;
    proof {
        assert(b@.skip(0) =~= b@);
    }
    while i < len && (b[i] == 0x20 || b[i] == 0x09 || b[i] == 0x0A || b[i] == 0x0D || b[i]
        == 0x0B || b[i] == 0x0C)
        invariant
            i <= len,
            len == b@.len(),
            trim_start(b@) == trim_start(b@.skip(i as int)),
        decreases len - i,
    {
        proof {
            assert(b@.skip(i as int)[0] == b@[i as int]);
            assert(b@.skip(i as int).skip(1) =~= b@.skip(i as int + 1));
        }
        i += 1;
    }
    proof {
        if i < len {
            assert(b@.skip(i as int)[0] == b@[i as int]);
        }
        assert(trim_start(b@) == b@.skip(i as int));
    }
    let mut j: usize = len;
    proof {
        assert(b@.subrange(i as int, j as int) =~= b@.skip(i as int));
    }
    while j > i && (b[j - 1] == 0x20 || b[j - 1] == 0x09 || b[j - 1] == 0x0A || b[j - 1]
        == 0x0D || b[j - 1] == 0x0B || b[j - 1] == 0x0C)
        invariant
            i <= j <= len,
            len == b@.len(),
            trim_start(b@) == b@.skip(i as int),
            trim_end(b@.skip(i as int)) == trim_end(b@.subrange(i as int, j as int)),
        decreases j,
    {
        proof {
            let cur = b@.subrange(i as int, j as int);
            assert(cur.last() == b@[j - 1]);
            assert(cur.drop_last() =~= b@.subrange(i as int, j as int - 1));
        }
        j -= 1;
    }
    proof {
        let cur = b@.subrange(i as int, j as int);
        if j > i {
            assert(cur.last() == b@[j - 1]);
        }
        assert(trim_end(cur) == cur);
    }
    crate::text::sub_bytes(b, i, j)
}

/// Decides one authentication exchange: `received` is the raw bytes read
/// from the peer (empty when the peer disconnected), `expected` the
/// configured secret.
pub fn authenticate_client(received: &Vec<u8>, expected: &Vec<u8>) -> (r: AuthDecision)
    ensures
        received@.len() == 0 ==> r is Disconnected,
        received@.len() > 0 && trimmed(received@) == expected@ ==> r is Granted,
        received@.len() > 0 && trimmed(received@) != expected@ ==> r is Denied,
{
    if received.len() == 0 {
        return AuthDecision::Disconnected;
    }
    let line = trim_bytes(received);
    if crate::text::bytes_eq(&line, expected) {
        AuthDecision::Granted
    } else {
        AuthDecision::Denied
    }
}

/// The authentication prompt sent to a fresh connection.
pub fn auth_prompt() -> (r: Vec<u8>)
    ensures
        r@ == ascii_bytes_of("Enter password: "@),
{
    proof {
        reveal_strlit("Enter password: ");
    }
    crate::text::lit_bytes("Enter password: ")
}

/// The reply after a correct password.
pub fn granted_message() -> (r: Vec<u8>)
    ensures
        r@ == ascii_bytes_of("Access granted. You can now send JSON messages.\n"@),
{
    proof {
        reveal_strlit("Access granted. You can now send JSON messages.\n");
    }
    crate::text::lit_bytes("Access granted. You can now send JSON messages.\n")
}

/// The reply after a wrong password, before the stream is closed.
pub fn denied_message() -> (r: Vec<u8>)
    ensures
        r@ == ascii_bytes_of("Access denied.\n"@),
{
    proof {
        reveal_strlit("Access denied.\n");
    }
    crate::text::lit_bytes("Access denied.\n")
}

/// The in-band reply to a payload that does not parse as JSON.
pub fn invalid_json_message() -> (r: Vec<u8>)
    ensures
        r@ == ascii_bytes_of("Error: Invalid JSON format\n"@),
{
    proof {
        reveal_strlit("Error: Invalid JSON format\n");
    }
    crate::text::lit_bytes("Error: Invalid JSON format\n")
}

} // verus!
