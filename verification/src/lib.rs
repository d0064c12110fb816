//! Client core for the LAN protocol spoken by a family of smart-plug
//! devices: the byte-stream obfuscation cipher, the length-prefixed message
//! framing, the JSON command/response model, and the device abstraction that
//! sequences them.  All channel I/O lives outside this crate; the functions
//! here transform plain values and state exactly what they compute.

pub mod device;
pub mod digits;
pub mod json;
pub mod kasa_protocol;
pub mod models;
pub mod schema;

use vstd::prelude::*;
use crate::digits::{all_digits, digits_val, is_digit, lemma_digits_prefix_le};

verus! {

/// The error taxonomy of the whole client.
///
/// `InvalidAddress`: a malformed target string.  `NoTargetError`: an empty
/// target with no discovery requested.  `ConnectError`: a channel could not
/// be opened.  `ReadError`: a channel closed or errored mid-read.
/// `ParseError`: a payload decoded but its JSON shape did not match the
/// expectation.  `ProtocolError`: the device answered a mutating command
/// with a non-zero error code.
#[derive(Clone, Copy, Debug, PartialEq, Eq, Structural)]
pub enum KasaError {
    InvalidAddress,
    NoTargetError,
    ConnectError,
    ReadError,
    ParseError,
    ProtocolError,
}

/// Index of the first `'.'` byte at or after `i`, or the length of `s`.
pub open spec fn spec_find_dot(s: Seq<u8>, i: int) -> int
    decreases s.len() - i,
{
    if i < 0 || i >= s.len() {
        s.len() as int
    } else if s[i] == 46 {
        i
    } else {
        spec_find_dot(s, i + 1)
    }
}

/// What `str::parse::<u8>` accepts: an optional leading `'+'`, then at
/// least one decimal digit, with a value of at most 255.
pub open spec fn spec_octet_ok(s: Seq<u8>) -> bool {
    let d = if s.len() > 0 && s[0] == 43 {
        s.drop_first()
    } else {
        s
    };
    d.len() > 0 && all_digits(d) && digits_val(d) <= 255
}

/// Four dot-separated octets, each a value that fits in one byte.
pub open spec fn spec_valid_ip(s: Seq<u8>) -> bool {
    let p1 = spec_find_dot(s, 0);
    let p2 = spec_find_dot(s, p1 + 1);
    let p3 = spec_find_dot(s, p2 + 1);
    let p4 = spec_find_dot(s, p3 + 1);
    &&& p1 < s.len()
    &&& p2 < s.len()
    &&& p3 < s.len()
    &&& p4 == s.len()
    &&& spec_octet_ok(s.subrange(0, p1))
    &&& spec_octet_ok(s.subrange(p1 + 1, p2))
    &&& spec_octet_ok(s.subrange(p2 + 1, p3))
    &&& spec_octet_ok(s.subrange(p3 + 1, s.len() as int))
}

fn find_dot(s: &[u8], from: usize) -> (r: usize)
    requires
        from <= s@.len(),
    ensures
        r == spec_find_dot(s@, from as int),
        from <= r <= s@.len(),
{
    let mut j: usize = from;
    while j < s.len() && s[j] != 46
        invariant
            from <= j <= s@.len(),
            spec_find_dot(s@, from as int) == spec_find_dot(s@, j as int),
        decreases s@.len() - j,
    {
        j = j + 1;
    }
    j
}

#[verifier::loop_isolation(false)]
fn octet_ok(s: &[u8], from: usize, to: usize) -> (r: bool)
    requires
        from <= to <= s@.len(),
    ensures
        r == spec_octet_ok(s@.subrange(from as int, to as int)),
{
    let ghost g = s@.subrange(from as int, to as int);
    let start = if from < to && s[from] == 43 {
        from + 1
    } else {
        from
    };
    let ghost d = if g.len() > 0 && g[0] == 43 {
        g.drop_first()
    } else {
        g
    };
    proof {
        assert(d =~= s@.subrange(start as int, to as int));
    }
    if start == to {
        return false;
    }
    let mut i: usize = start;
    let mut acc: u32 = 0;
    while i < to
        invariant
            start <= i <= to <= s@.len(),
            d =~= s@.subrange(start as int, to as int),
            all_digits(s@.subrange(start as int, i as int)),
            acc == digits_val(s@.subrange(start as int, i as int)),
            acc <= 255,
        decreases to - i,
    {
        let b = s[i];
        if b < 48 || b > 57 {
            proof {
                assert(0 <= i - start < d.len());
                assert(d[i - start] == s@[i as int]);
                assert(!is_digit(d[i - start]));
                assert(!all_digits(d));
            }
            return false;
        }
        proof {
            assert(s@.subrange(start as int, i + 1).drop_last() =~= s@.subrange(
                start as int,
                i as int,
            ));
        }
        acc = acc * 10 + (b - 48) as u32;
        i = i + 1;
        if acc > 255 {
            proof {
                assert(s@.subrange(start as int, i as int).last() == s@[i - 1]);
                assert(acc == digits_val(s@.subrange(start as int, i as int)));
                if all_digits(d) {
                    assert(d.take(i - start) =~= s@.subrange(start as int, i as int));
                    lemma_digits_prefix_le(d, i - start);
                    assert(digits_val(d) > 255);
                }
            }
            return false;
        }
    }
    proof {
        assert(s@.subrange(start as int, to as int) =~= d);
    }
    true
}

/// Syntactic well-formedness of a target address: four dot-separated
/// numeric octets.  True exactly when `spec_valid_ip` holds of the
/// address's bytes.
pub fn validate_ip(ip: &String) -> (r: bool)
    ensures
        r == spec_valid_ip(vstd::utf8::encode_utf8(ip@)),
{
    let b: &[u8] = ip.as_str().as_bytes();
    let p1 = find_dot(b, 0);
    if p1 == b.len() {
        return false;
    }
    let p2 = find_dot(b, p1 + 1);
    if p2 == b.len() {
        return false;
    }
    let p3 = find_dot(b, p2 + 1);
    if p3 == b.len() {
        return false;
    }
    let p4 = find_dot(b, p3 + 1);
    if p4 != b.len() {
        return false;
    }
    octet_ok(b, 0, p1) && octet_ok(b, p1 + 1, p2) && octet_ok(b, p2 + 1, p3) && octet_ok(
        b,
        p3 + 1,
        b.len(),
    )
}

} // verus!
