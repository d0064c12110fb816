//! Decimal digit runs: the byte-level building block shared by the address
//! validator and the wire-format number parser.

use vstd::prelude::*;

verus! {

/// True of an ASCII decimal digit byte (`'0'` through `'9'`).
pub open spec fn is_digit(b: u8) -> bool {
    48 <= b && b <= 57
}

/// True when every byte of `s` is an ASCII decimal digit.
pub open spec fn all_digits(s: Seq<u8>) -> bool {
    forall|i: int| 0 <= i < s.len() ==> is_digit(#[trigger] s[i])
}

/// Value of a run of ASCII digits, most significant digit first.
pub open spec fn digits_val(s: Seq<u8>) -> int
    decreases s.len(),
{
    if s.len() == 0 {
        0
    } else {
        digits_val(s.drop_last()) * 10 + (s.last() - 48)
    }
}

pub proof fn lemma_digits_val_nonneg(s: Seq<u8>)
    requires
        all_digits(s),
    ensures
        digits_val(s) >= 0,
    decreases s.len(),
{
    if s.len() > 0 {
        assert(all_digits(s.drop_last()));
        lemma_digits_val_nonneg(s.drop_last());
    }
}

/// A digit run is worth at least as much as any of its prefixes: once a
/// prefix exceeds a bound, the whole run does too.
pub proof fn lemma_digits_prefix_le(s: Seq<u8>, j: int)
    requires
        all_digits(s),
        0 <= j <= s.len(),
    ensures
        digits_val(s.take(j)) <= digits_val(s),
    decreases s.len() - j,
{
    if j == s.len() {
        assert(s.take(j) =~= s);
    } else {
        let t = s.take(j + 1);
        assert(t.drop_last() =~= s.take(j));
        assert(all_digits(s.take(j)));
        lemma_digits_val_nonneg(s.take(j));
        assert(is_digit(s[j]));
        assert(digits_val(t) >= digits_val(s.take(j)));
        lemma_digits_prefix_le(s, j + 1);
    }
}

} // verus!
