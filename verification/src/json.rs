//! A byte-level parser for the JSON subset the devices speak: objects,
//! arrays, strings with the common two-character escapes, integer numbers,
//! and the three literal words.  Unicode escapes and fractional or exponent
//! number forms are not accepted; the devices emit raw UTF-8 and integers.
//!
//! Every executable function mirrors a specification function over the
//! input bytes and a cursor, so a caller's contract can say exactly which
//! documents parse and to what.

use vstd::prelude::*;
use crate::digits::{all_digits, digits_val, is_digit};

verus! {

/// JSON insignificant whitespace: space, tab, line feed, carriage return.
pub open spec fn is_ws(b: u8) -> bool {
    b == 32 || b == 9 || b == 10 || b == 13
}

/// Cursor after any run of whitespace starting at `i`.
pub open spec fn spec_ws(s: Seq<u8>, i: int) -> int
    decreases s.len() - i,
{
    if 0 <= i < s.len() && is_ws(s[i]) {
        spec_ws(s, i + 1)
    } else {
        i
    }
}

pub fn skip_ws(s: &[u8], i: usize) -> (r: usize)
    requires
        i <= s@.len(),
    ensures
        r == spec_ws(s@, i as int),
        i <= r <= s@.len(),
{
    let mut j: usize = i;
    while j < s.len() && (s[j] == 32 || s[j] == 9 || s[j] == 10 || s[j] == 13)
        invariant
            i <= j <= s@.len(),
            spec_ws(s@, i as int) == spec_ws(s@, j as int),
        decreases s@.len() - j,
    {
        j = j + 1;
    }
    j
}

/// The bytes of the literal word `null`.
pub open spec fn lit_null() -> Seq<u8> {
    seq![110u8, 117u8, 108u8, 108u8]
}

/// The bytes of the literal word `true`.
pub open spec fn lit_true() -> Seq<u8> {
    seq![116u8, 114u8, 117u8, 101u8]
}

/// The bytes of the literal word `false`.
pub open spec fn lit_false() -> Seq<u8> {
    seq![102u8, 97u8, 108u8, 115u8, 101u8]
}

/// The literal `lit` occurs in `s` at position `i`.
pub open spec fn spec_lit_at(s: Seq<u8>, i: int, lit: Seq<u8>) -> bool {
    0 <= i && i + lit.len() <= s.len() && s.subrange(i, i + lit.len()) == lit
}

/// Whether the bytes of `lit` stand in `s` at position `i`.
#[verifier::loop_isolation(false)]
pub fn match_lit(s: &[u8], i: usize, lit: &[u8]) -> (r: bool)
    requires
        i <= s@.len(),
    ensures
        r == spec_lit_at(s@, i as int, lit@),
{
    if s.len() - i < lit.len() {
        return false;
    }
    let mut k: usize = 0;
    while k < lit.len()
        invariant
            k <= lit@.len(),
            i + lit@.len() <= s@.len(),
            forall|t: int| 0 <= t < k ==> s@[i + t] == lit@[t],
        decreases lit@.len() - k,
    {
        if s[i + k] != lit[k] {
            proof {
                assert(s@.subrange(i as int, i + lit@.len())[k as int] == s@[i + k]);
            }
            return false;
        }
        k = k + 1;
    }
    proof {
        assert(s@.subrange(i as int, i + lit@.len()) =~= lit@);
    }
    true
}

/// Whether two byte strings are equal.
#[verifier::loop_isolation(false)]
pub fn bytes_eq(a: &[u8], b: &[u8]) -> (r: bool)
    ensures
        r == (a@ == b@),
{
    if a.len() != b.len() {
        return false;
    }
    let mut k: usize = 0;
    while k < a.len()
        invariant
            k <= a@.len(),
            a@.len() == b@.len(),
            forall|t: int| 0 <= t < k ==> a@[t] == b@[t],
        decreases a@.len() - k,
    {
        if a[k] != b[k] {
            return false;
        }
        k = k + 1;
    }
    proof {
        assert(a@ =~= b@);
    }
    true
}

/// The body of a JSON string, entered just after the opening quote:
/// the unescaped content bytes and the cursor after the closing quote.
/// Escapes: the two-character forms for quote, backslash, slash, and the
/// common control characters.  Raw control bytes and unicode escapes are
/// not accepted.
pub open spec fn spec_string_body(s: Seq<u8>, i: int) -> Option<(Seq<u8>, int)>
    decreases s.len() - i,
{
    if i < 0 || i >= s.len() {
        None
    } else if s[i] == 34 {
        Some((Seq::empty(), i + 1))
    } else if s[i] == 92 {
        if i + 1 >= s.len() {
            None
        } else {
            let e = s[i + 1];
            let c: Option<u8> = if e == 34 {
                Some(34u8)
            } else if e == 92 {
                Some(92u8)
            } else if e == 47 {
                Some(47u8)
            } else if e == 110 {
                Some(10u8)
            } else if e == 116 {
                Some(9u8)
            } else if e == 114 {
                Some(13u8)
            } else if e == 98 {
                Some(8u8)
            } else if e == 102 {
                Some(12u8)
            } else {
                None
            };
            match c {
                Some(c) => match spec_string_body(s, i + 2) {
                    Some((t, j)) => Some((seq![c] + t, j)),
                    None => None,
                },
                None => None,
            }
        }
    } else if s[i] < 32 {
        None
    } else {
        match spec_string_body(s, i + 1) {
            Some((t, j)) => Some((seq![s[i]] + t, j)),
            None => None,
        }
    }
}

pub fn parse_string_body(s: &[u8], i: usize) -> (r: Option<(Vec<u8>, usize)>)
    requires
        i <= s@.len(),
    ensures
        match r {
            Some(v) => spec_string_body(s@, i as int) == Some((v.0@, v.1 as int)) && i < v.1
                <= s@.len(),
            None => spec_string_body(s@, i as int) is None,
        },
    decreases s@.len() - i,
{
    if i >= s.len() {
        return None;
    }
    let b = s[i];
    if b == 34 {
        let v: Vec<u8> = Vec::new();
        proof {
            assert(v@ =~= Seq::<u8>::empty());
        }
        return Some((v, i + 1));
    }
    if b == 92 {
        if i + 1 >= s.len() {
            return None;
        }
        let e = s[i + 1];
        let c: u8 = if e == 34 {
            34
        } else if e == 92 {
            92
        } else if e == 47 {
            47
        } else if e == 110 {
            10
        } else if e == 116 {
            9
        } else if e == 114 {
            13
        } else if e == 98 {
            8
        } else if e == 102 {
            12
        } else {
            return None;
        };
        match parse_string_body(s, i + 2) {
            Some((t, j)) => {
                let mut v: Vec<u8> = Vec::new();
                v.push(c);
                crate::kasa_protocol::push_all(&mut v, t.as_slice());
                proof {
                    assert(v@ =~= seq![c] + t@);
                }
                Some((v, j))
            },
            None => None,
        }
    } else if b < 32 {
        None
    } else {
        match parse_string_body(s, i + 1) {
            Some((t, j)) => {
                let mut v: Vec<u8> = Vec::new();
                v.push(b);
                crate::kasa_protocol::push_all(&mut v, t.as_slice());
                proof {
                    assert(v@ =~= seq![b] + t@);
                }
                Some((v, j))
            },
            None => None,
        }
    }
}

/// Cursor after any run of decimal digits starting at `i`.
pub open spec fn spec_digits_end(s: Seq<u8>, i: int) -> int
    decreases s.len() - i,
{
    if 0 <= i < s.len() && is_digit(s[i]) {
        spec_digits_end(s, i + 1)
    } else {
        i
    }
}

/// A JSON integer at `i`: an optional minus sign, then at least one digit,
/// with a value that fits a 64-bit signed integer.  Fractional and exponent
/// forms are left unconsumed and so are rejected by the caller's next step.
pub open spec fn spec_number(s: Seq<u8>, i: int) -> Option<(i64, int)> {
    let neg = 0 <= i < s.len() && s[i] == 45;
    let d0 = if neg {
        i + 1
    } else {
        i
    };
    let j = spec_digits_end(s, d0);
    if j == d0 {
        None
    } else {
        let v = digits_val(s.subrange(d0, j));
        if neg {
            if -v < i64::MIN {
                None
            } else {
                Some(((-v) as i64, j))
            }
        } else {
            if v > i64::MAX {
                None
            } else {
                Some((v as i64, j))
            }
        }
    }
}

#[verifier::loop_isolation(false)]
pub fn parse_number(s: &[u8], i: usize) -> (r: Option<(i64, usize)>)
    requires
        i <= s@.len(),
    ensures
        match r {
            Some(v) => spec_number(s@, i as int) == Some((v.0, v.1 as int)) && i < v.1 <= s@.len(),
            None => spec_number(s@, i as int) is None,
        },
{
    let neg = i < s.len() && s[i] == 45;
    let d0: usize = if neg {
        i + 1
    } else {
        i
    };
    let mut j: usize = d0;
    while j < s.len() && s[j] >= 48 && s[j] <= 57
        invariant
            d0 <= j <= s@.len(),
            spec_digits_end(s@, d0 as int) == spec_digits_end(s@, j as int),
            all_digits(s@.subrange(d0 as int, j as int)),
        decreases s@.len() - j,
    {
        proof {
            assert forall|t: int| 0 <= t < j + 1 - d0 implies is_digit(
                #[trigger] s@.subrange(d0 as int, j + 1)[t],
            ) by {
                if t < j - d0 {
                    assert(s@.subrange(d0 as int, j + 1)[t] == s@.subrange(
                        d0 as int,
                        j as int,
                    )[t]);
                } else {
                    assert(s@.subrange(d0 as int, j + 1)[t] == s@[j as int]);
                }
            }
        }
        j = j + 1;
    }
    if j == d0 {
        return None;
    }
    let ghost d = s@.subrange(d0 as int, j as int);
    let mut k: usize = d0;
    let mut acc: u128 = 0;
    let mut over = false;
    while k < j
        invariant
            d0 <= k <= j,
            !over ==> acc == digits_val(s@.subrange(d0 as int, k as int)) && acc
                <= 0x8000000000000000u128,
            over ==> digits_val(s@.subrange(d0 as int, k as int)) > 0x8000000000000000,
        decreases j - k,
    {
        proof {
            assert(s@.subrange(d0 as int, k + 1).drop_last() =~= s@.subrange(d0 as int, k as int));
            assert(s@.subrange(d0 as int, k + 1).last() == s@[k as int]);
            assert(d[k - d0] == s@[k as int]);
            assert(is_digit(s@[k as int]));
            if !over {
                crate::digits::lemma_digits_val_nonneg(s@.subrange(d0 as int, k as int));
            } else {
                crate::digits::lemma_digits_val_nonneg(s@.subrange(d0 as int, k + 1));
            }
        }
        let dgt: u128 = (s[k] - 48) as u128;
        if !over {
            acc = acc * 10 + dgt;
            if acc > 0x8000000000000000 {
                over = true;
            }
        }
        k = k + 1;
    }
    if neg {
        if over {
            proof {
                assert(digits_val(d) > 0x8000000000000000);
            }
            None
        } else if acc == 0x8000000000000000 {
            Some((i64::MIN, j))
        } else {
            Some((-(acc as i64), j))
        }
    } else {
        if over || acc > 0x7fffffffffffffff {
            None
        } else {
            Some((acc as i64, j))
        }
    }
}

/// Cursor after one whole JSON value at `i`, of any shape; `None` when no
/// well-formed value starts there.
pub open spec fn spec_skip_value(s: Seq<u8>, i: int) -> Option<int>
    decreases s.len() - i, 0int,
{
    if i < 0 || i >= s.len() {
        None
    } else if s[i] == 34 {
        match spec_string_body(s, i + 1) {
            Some((t, j)) => Some(j),
            None => None,
        }
    } else if s[i] == 110 {
        if spec_lit_at(s, i, lit_null()) {
            Some(i + 4)
        } else {
            None
        }
    } else if s[i] == 116 {
        if spec_lit_at(s, i, lit_true()) {
            Some(i + 4)
        } else {
            None
        }
    } else if s[i] == 102 {
        if spec_lit_at(s, i, lit_false()) {
            Some(i + 5)
        } else {
            None
        }
    } else if s[i] == 45 || is_digit(s[i]) {
        match spec_number(s, i) {
            Some((v, j)) => Some(j),
            None => None,
        }
    } else if s[i] == 91 {
        let j = spec_ws(s, i + 1);
        if i + 1 <= j <= s.len() {
            spec_skip_elems(s, j, true)
        } else {
            None
        }
    } else if s[i] == 123 {
        let j = spec_ws(s, i + 1);
        if i + 1 <= j <= s.len() {
            spec_skip_members(s, j, true)
        } else {
            None
        }
    } else {
        None
    }
}

/// Cursor after the remaining elements and closing bracket of an array,
/// entered at an element or, when `allow_end` is set, at the closing
/// bracket of an empty array.
pub open spec fn spec_skip_elems(s: Seq<u8>, i: int, allow_end: bool) -> Option<int>
    decreases s.len() - i, 1int,
{
    if i < 0 || i >= s.len() {
        None
    } else if s[i] == 93 {
        if allow_end {
            Some(i + 1)
        } else {
            None
        }
    } else {
        match spec_skip_value(s, i) {
            Some(j) => {
                if i < j <= s.len() {
                    let k = spec_ws(s, j);
                    if j <= k <= s.len() && k < s.len() {
                        if s[k] == 44 {
                            let m = spec_ws(s, k + 1);
                            if k + 1 <= m <= s.len() {
                                spec_skip_elems(s, m, false)
                            } else {
                                None
                            }
                        } else if s[k] == 93 {
                            Some(k + 1)
                        } else {
                            None
                        }
                    } else {
                        None
                    }
                } else {
                    None
                }
            },
            None => None,
        }
    }
}

/// Cursor after the remaining members and closing brace of an object,
/// entered at a member's key or, when `allow_end` is set, at the closing
/// brace of an empty object.
pub open spec fn spec_skip_members(s: Seq<u8>, i: int, allow_end: bool) -> Option<int>
    decreases s.len() - i, 1int,
{
    if i < 0 || i >= s.len() {
        None
    } else if s[i] == 125 {
        if allow_end {
            Some(i + 1)
        } else {
            None
        }
    } else if s[i] != 34 {
        None
    } else {
        match spec_string_body(s, i + 1) {
            Some((key, j)) => {
                if i < j <= s.len() {
                    let a = spec_ws(s, j);
                    if j <= a <= s.len() && a < s.len() && s[a] == 58 {
                        let b = spec_ws(s, a + 1);
                        if a + 1 <= b <= s.len() {
                            match spec_skip_value(s, b) {
                                Some(c) => {
                                    if b <= c <= s.len() {
                                        let e = spec_ws(s, c);
                                        if c <= e <= s.len() && e < s.len() {
                                            if s[e] == 44 {
                                                let m = spec_ws(s, e + 1);
                                                if e + 1 <= m <= s.len() {
                                                    spec_skip_members(s, m, false)
                                                } else {
                                                    None
                                                }
                                            } else if s[e] == 125 {
                                                Some(e + 1)
                                            } else {
                                                None
                                            }
                                        } else {
                                            None
                                        }
                                    } else {
                                        None
                                    }
                                },
                                None => None,
                            }
                        } else {
                            None
                        }
                    } else {
                        None
                    }
                } else {
                    None
                }
            },
            None => None,
        }
    }
}

/// The bytes of `null` as a vector.
pub fn lit_null_vec() -> (r: Vec<u8>)
    ensures
        r@ == lit_null(),
{
    let mut lit: Vec<u8> = Vec::new();
    lit.push(110);
    lit.push(117);
    lit.push(108);
    lit.push(108);
    proof {
        assert(lit@ =~= lit_null());
    }
    lit
}

/// The bytes of `true` as a vector.
pub fn lit_true_vec() -> (r: Vec<u8>)
    ensures
        r@ == lit_true(),
{
    let mut lit: Vec<u8> = Vec::new();
    lit.push(116);
    lit.push(114);
    lit.push(117);
    lit.push(101);
    proof {
        assert(lit@ =~= lit_true());
    }
    lit
}

/// The bytes of `false` as a vector.
pub fn lit_false_vec() -> (r: Vec<u8>)
    ensures
        r@ == lit_false(),
{
    let mut lit: Vec<u8> = Vec::new();
    lit.push(102);
    lit.push(97);
    lit.push(108);
    lit.push(115);
    lit.push(101);
    proof {
        assert(lit@ =~= lit_false());
    }
    lit
}

pub fn skip_value(s: &[u8], i: usize) -> (r: Option<usize>)
    requires
        i <= s@.len(),
    ensures
        match r {
            Some(j) => spec_skip_value(s@, i as int) == Some(j as int) && i < j <= s@.len(),
            None => spec_skip_value(s@, i as int) is None,
        },
    decreases s@.len() - i, 0int,
{
    if i >= s.len() {
        return None;
    }
    let b = s[i];
    if b == 34 {
        match parse_string_body(s, i + 1) {
            Some((t, j)) => Some(j),
            None => None,
        }
    } else if b == 110 {
        let lit = lit_null_vec();
        if match_lit(s, i, lit.as_slice()) {
            Some(i + 4)
        } else {
            None
        }
    } else if b == 116 {
        let lit = lit_true_vec();
        if match_lit(s, i, lit.as_slice()) {
            Some(i + 4)
        } else {
            None
        }
    } else if b == 102 {
        let lit = lit_false_vec();
        if match_lit(s, i, lit.as_slice()) {
            Some(i + 5)
        } else {
            None
        }
    } else if b == 45 || (b >= 48 && b <= 57) {
        match parse_number(s, i) {
            Some((v, j)) => Some(j),
            None => None,
        }
    } else if b == 91 {
        let j = skip_ws(s, i + 1);
        skip_elems(s, j, true)
    } else if b == 123 {
        let j = skip_ws(s, i + 1);
        skip_members(s, j, true)
    } else {
        None
    }
}

pub fn skip_elems(s: &[u8], i: usize, allow_end: bool) -> (r: Option<usize>)
    requires
        i <= s@.len(),
    ensures
        match r {
            Some(j) => spec_skip_elems(s@, i as int, allow_end) == Some(j as int) && i < j
                <= s@.len(),
            None => spec_skip_elems(s@, i as int, allow_end) is None,
        },
    decreases s@.len() - i, 1int,
{
    if i >= s.len() {
        return None;
    }
    if s[i] == 93 {
        if allow_end {
            return Some(i + 1);
        } else {
            return None;
        }
    }
    match skip_value(s, i) {
        Some(j) => {
            let k = skip_ws(s, j);
            if k < s.len() && s[k] == 44 {
                let m = skip_ws(s, k + 1);
                skip_elems(s, m, false)
            } else if k < s.len() && s[k] == 93 {
                Some(k + 1)
            } else {
                None
            }
        },
        None => None,
    }
}

pub fn skip_members(s: &[u8], i: usize, allow_end: bool) -> (r: Option<usize>)
    requires
        i <= s@.len(),
    ensures
        match r {
            Some(j) => spec_skip_members(s@, i as int, allow_end) == Some(j as int) && i < j
                <= s@.len(),
            None => spec_skip_members(s@, i as int, allow_end) is None,
        },
    decreases s@.len() - i, 1int,
{
    if i >= s.len() {
        return None;
    }
    if s[i] == 125 {
        if allow_end {
            return Some(i + 1);
        } else {
            return None;
        }
    }
    if s[i] != 34 {
        return None;
    }
    match parse_string_body(s, i + 1) {
        Some((_key, j)) => {
            let a = skip_ws(s, j);
            if !(a < s.len() && s[a] == 58) {
                return None;
            }
            let b = skip_ws(s, a + 1);
            match skip_value(s, b) {
                Some(c) => {
                    let e = skip_ws(s, c);
                    if e < s.len() && s[e] == 44 {
                        let m = skip_ws(s, e + 1);
                        skip_members(s, m, false)
                    } else if e < s.len() && s[e] == 125 {
                        Some(e + 1)
                    } else {
                        None
                    }
                },
                None => None,
            }
        },
        None => None,
    }
}

} // verus!
