//! Byte-level text helpers: comparison, the first separator, decimal numbers
//! and UTF-8 decoding.

use vstd::prelude::*;
use vstd::utf8::{
    decode_utf8, is_continuation_byte, length_of_first_scalar, pop_first_scalar,
    valid_first_scalar, valid_utf8,
};

verus! {

/// The separator between a protocol name and the rest of a field name.
pub const DOT: u8 = 46;

/// `i` is the position of the first `.` in `s`.
pub open spec fn is_first_dot(s: Seq<u8>, i: int) -> bool {
    &&& 0 <= i < s.len()
    &&& s[i] == DOT
    &&& forall|j: int| 0 <= j < i ==> s[j] != DOT
}

/// The position of the first `.` in `s`, if there is one.
pub open spec fn dot_index(s: Seq<u8>) -> Option<int> {
    if exists|i: int| is_first_dot(s, i) {
        Some(choose|i: int| is_first_dot(s, i))
    } else {
        None
    }
}

/// The bytes of `s` up to its first `.`, or all of them.
pub open spec fn before_dot(s: Seq<u8>) -> Seq<u8> {
    match dot_index(s) {
        Some(i) => s.take(i),
        None => s,
    }
}

/// Whether two byte strings are equal.
pub fn bytes_eq(a: &[u8], b: &[u8]) -> (r: bool)
    ensures
        r == (a@ == b@),
{
    if a.len() != b.len() {
        return false;
    }
    let mut i: usize = 0;
    while i < a.len()
        invariant
            a@.len() == b@.len(),
            i <= a@.len(),
            forall|j: int| 0 <= j < i ==> a@[j] == b@[j],
        decreases a@.len() - i,
    {
        if a[i] != b[i] {
            assert(a@[i as int] != b@[i as int]);
            return false;
        }
        i = i + 1;
    }
    assert(a@ =~= b@);
    true
}

/// Whether `s` begins with `prefix`.
pub fn starts_with_bytes(s: &[u8], prefix: &[u8]) -> (r: bool)
    ensures
        r == (prefix@.len() <= s@.len() && s@.take(prefix@.len() as int) == prefix@),
{
    if prefix.len() > s.len() {
        return false;
    }
    let mut i: usize = 0;
    while i < prefix.len()
        invariant
            prefix@.len() <= s@.len(),
            i <= prefix@.len(),
            forall|j: int| 0 <= j < i ==> s@[j] == prefix@[j],
        decreases prefix@.len() - i,
    {
        if s[i] != prefix[i] {
            assert(s@.take(prefix@.len() as int)[i as int] != prefix@[i as int]);
            return false;
        }
        i = i + 1;
    }
    assert(s@.take(prefix@.len() as int) =~= prefix@);
    true
}

/// The position of the first `.` in `s`.
pub fn find_dot(s: &[u8]) -> (r: Option<usize>)
    ensures
        match r {
            Some(i) => dot_index(s@) == Some(i as int) && is_first_dot(s@, i as int),
            None => dot_index(s@) is None,
        },
{
    let mut i: usize = 0;
    while i < s.len()
        invariant
            i <= s@.len(),
            forall|j: int| 0 <= j < i ==> s@[j] != DOT,
        decreases s@.len() - i,
    {
        if s[i] == DOT {
            assert(is_first_dot(s@, i as int));
            let ghost k = choose|k: int| is_first_dot(s@, k);
            assert(k == i as int);
            return Some(i);
        }
        i = i + 1;
    }
    assert(!exists|k: int| is_first_dot(s@, k));
    None
}

/// A byte that is an ASCII decimal digit.
pub open spec fn is_digit(b: u8) -> bool {
    48 <= b <= 57
}

/// Whether `s` is made of decimal digits only.
pub open spec fn all_digits(s: Seq<u8>) -> bool {
    forall|i: int| 0 <= i < s.len() ==> is_digit(#[trigger] s[i])
}

/// The number that a string of decimal digits writes.
pub open spec fn digits_value(s: Seq<u8>) -> int
    decreases s.len(),
{
    if s.len() == 0 {
        0
    } else {
        digits_value(s.drop_last()) * 10 + (s.last() - 48)
    }
}

/// A string of one or more decimal digits, with its value at most `limit`.
pub open spec fn digits_within(s: Seq<u8>, limit: int) -> bool {
    s.len() > 0 && all_digits(s) && digits_value(s) <= limit
}

/// The digits that follow an optional leading `+`.
pub open spec fn unsigned_part(s: Seq<u8>) -> Seq<u8> {
    if s.len() > 0 && s[0] == 43 {
        s.drop_first()
    } else {
        s
    }
}

/// The `u32` that `s` writes in decimal, after an optional `+`, as Rust's
/// integer parsing reads it.
pub open spec fn parse_u32(s: Seq<u8>) -> Option<u32> {
    let d = unsigned_part(s);
    if digits_within(d, u32::MAX as int) {
        Some(digits_value(d) as u32)
    } else {
        None
    }
}

/// The `i64` that `s` writes in decimal, after an optional `+` or `-`, as
/// Rust's integer parsing reads it.
pub open spec fn parse_i64(s: Seq<u8>) -> Option<i64> {
    if s.len() > 0 && s[0] == 45 {
        let d = s.drop_first();
        if digits_within(d, 0x8000_0000_0000_0000) {
            Some((-digits_value(d)) as i64)
        } else {
            None
        }
    } else {
        let d = unsigned_part(s);
        if digits_within(d, i64::MAX as int) {
            Some(digits_value(d) as i64)
        } else {
            None
        }
    }
}

proof fn lemma_digits_grow(s: Seq<u8>, k: int)
    requires
        all_digits(s),
        0 <= k <= s.len(),
    ensures
        digits_value(s.take(k)) <= digits_value(s),
        digits_value(s.take(k)) >= 0,
    decreases s.len() - k,
{
    if k < s.len() {
        lemma_digits_grow(s, k + 1);
        assert(s.take(k + 1).drop_last() =~= s.take(k));
    } else {
        assert(s.take(k) =~= s);
        lemma_digits_nonneg(s);
    }
}

proof fn lemma_digits_nonneg(s: Seq<u8>)
    requires
        all_digits(s),
    ensures
        digits_value(s) >= 0,
    decreases s.len(),
{
    if s.len() > 0 {
        lemma_digits_nonneg(s.drop_last());
    }
}

/// The value of the digits of `s` from `start` on, where it is at most `limit`.
fn digits_from(s: &[u8], start: usize, limit: u64) -> (r: Option<u64>)
    requires
        start <= s@.len(),
    ensures
        match r {
            Some(v) => digits_within(s@.skip(start as int), limit as int) && v == digits_value(
                s@.skip(start as int),
            ),
            None => !digits_within(s@.skip(start as int), limit as int),
        },
{
    let ghost d = s@.skip(start as int);
    if start == s.len() {
        return None;
    }
    let mut v: u64 = 0;
    let mut i: usize = start;
    while i < s.len()
        invariant
            start < s@.len(),
            d == s@.skip(start as int),
            start <= i <= s@.len(),
            all_digits(d.take(i - start)),
            v == digits_value(d.take(i - start)),
            v <= limit,
        decreases s@.len() - i,
    {
        let b = s[i];
        assert(b == d[i - start]);
        if b < 48 || b > 57 {
            return None;
        }
        let digit: u64 = (b - 48) as u64;
        assert(d.take(i - start + 1).drop_last() =~= d.take(i - start));
        if digit > limit || v > (limit - digit) / 10 {
            proof {
                if digit <= limit {
                    assert(v * 10 + digit > limit) by (nonlinear_arith)
                        requires
                            v > (limit - digit) / 10,
                            digit <= limit,
                    ;
                }
            }
            proof {
                if digits_within(d, limit as int) {
                    lemma_digits_grow(d, i - start + 1);
                }
            }
            return None;
        }
        proof {
            assert(v * 10 + digit <= limit) by (nonlinear_arith)
                requires
                    v <= (limit - digit) / 10,
                    digit <= limit,
            ;
        }
        v = v * 10 + digit;
        i = i + 1;
    }
    assert(d.take(i - start) =~= d);
    Some(v)
}

/// Reads a `u32` written in decimal, as Rust's integer parsing does.
pub fn parse_u32_bytes(s: &[u8]) -> (r: Option<u32>)
    ensures
        r == parse_u32(s@),
{
    let start: usize = if s.len() > 0 && s[0] == 43 { 1 } else { 0 };
    assert(unsigned_part(s@) =~= s@.skip(start as int));
    match digits_from(s, start, 0xffff_ffff) {
        Some(v) => Some(v as u32),
        None => None,
    }
}

/// Reads an `i64` written in decimal, as Rust's integer parsing does.
pub fn parse_i64_bytes(s: &[u8]) -> (r: Option<i64>)
    ensures
        r == parse_i64(s@),
{
    if s.len() > 0 && s[0] == 45 {
        assert(s@.drop_first() =~= s@.skip(1));
        match digits_from(s, 1, 0x8000_0000_0000_0000) {
            Some(v) => {
                if v == 0x8000_0000_0000_0000 {
                    Some(i64::MIN)
                } else {
                    Some(-(v as i64))
                }
            },
            None => None,
        }
    } else {
        let start: usize = if s.len() > 0 && s[0] == 43 { 1 } else { 0 };
        assert(unsigned_part(s@) =~= s@.skip(start as int));
        match digits_from(s, start, 0x7fff_ffff_ffff_ffff) {
            Some(v) => Some(v as i64),
            None => None,
        }
    }
}

/// The text that a byte string encodes, if it is valid UTF-8.
pub open spec fn utf8_of(b: Seq<u8>) -> Option<Seq<char>> {
    if valid_utf8(b) {
        Some(decode_utf8(b))
    } else {
        None
    }
}

/// Relies on `std::str::from_utf8`: it accepts exactly the valid UTF-8 byte
/// strings, and the text it gives is the one they encode.
#[verifier::external_body]
pub fn utf8_text(b: &[u8]) -> (r: Option<String>)
    ensures
        match r {
            Some(s) => utf8_of(b@) == Some(s@),
            None => utf8_of(b@) is None,
        },
{
    std::str::from_utf8(b).ok().map(|s| s.to_owned())
}

/// A prefix of valid UTF-8 that ends before an ASCII byte is valid UTF-8.
pub proof fn lemma_ascii_cut_keeps_utf8(b: Seq<u8>, k: int)
    requires
        valid_utf8(b),
        0 <= k <= b.len(),
        k == b.len() || b[k] < 0x80,
    ensures
        valid_utf8(b.take(k)),
    decreases b.len(),
{
    let t = b.take(k);
    if k == 0 {
        assert(t.len() == 0);
    } else {
        let n = length_of_first_scalar(b);
        assert(1 <= n <= 4);
        assert(n <= b.len());
        assert forall|j: int| 1 <= j < n implies is_continuation_byte(b[j]) by {}
        if k < n {
            assert(is_continuation_byte(b[k]));
            assert(false);
        }
        assert(k >= n);
        assert(t[0] == b[0]);
        assert(n >= 2 ==> t[1] == b[1]);
        assert(n >= 3 ==> t[2] == b[2]);
        assert(n >= 4 ==> t[3] == b[3]);
        assert(valid_first_scalar(t));
        assert(length_of_first_scalar(t) == n);
        let rest = pop_first_scalar(b);
        lemma_ascii_cut_keeps_utf8(rest, k - n);
        assert(pop_first_scalar(t) =~= rest.take(k - n));
    }
}

} // verus!
