//! Capture times: `<seconds>.<nanoseconds>` read into microseconds since the
//! Unix epoch.

use crate::text::{find_dot, parse_i64, parse_i64_bytes, parse_u32, parse_u32_bytes, dot_index};
use chrono::TimeZone;
use vstd::prelude::*;

verus! {

/// What chrono makes of a Unix time given as seconds and nanoseconds: the
/// instant in microseconds, where it is a valid UTC instant.
pub uninterp spec fn utc_micros(secs: i64, nsecs: u32) -> Option<i64>;

/// Relies on chrono's `TimeZone::timestamp_opt` for `Utc` (which gives a
/// single instant exactly when `DateTime::from_timestamp` accepts the pair)
/// and on `DateTime::timestamp_micros`. From their source: a nanosecond part
/// of two seconds or more is refused; the microseconds are the seconds times a
/// million plus the nanoseconds divided by a thousand; and every pair within
/// about 250,000 years of the epoch, with less than a second of nanoseconds, is
/// a valid instant.
#[verifier::external_body]
pub fn utc_timestamp_micros(secs: i64, nsecs: u32) -> (r: Option<i64>)
    ensures
        r == utc_micros(secs, nsecs),
        r is Some ==> nsecs < 2_000_000_000,
        r matches Some(m) ==> m == secs * 1_000_000 + nsecs / 1000,
        -8_000_000_000_000 <= secs <= 8_000_000_000_000 && nsecs < 1_000_000_000 ==> r is Some,
{
    match chrono::Utc.timestamp_opt(secs, nsecs) {
        chrono::LocalResult::Single(dt) => Some(dt.timestamp_micros()),
        _ => None,
    }
}

/// The seconds before the first `.` and the nanoseconds after it, where both
/// are well-formed integers.
pub open spec fn split_timestamp(b: Seq<u8>) -> Option<(i64, u32)> {
    match dot_index(b) {
        None => None,
        Some(i) => match (parse_i64(b.take(i)), parse_u32(b.skip(i + 1))) {
            (Some(s), Some(n)) => Some((s, n)),
            _ => None,
        },
    }
}

/// Splits `<seconds>.<nanoseconds>` into its two integers.
pub fn split_timestamp_bytes(b: &[u8]) -> (r: Option<(i64, u32)>)
    ensures
        r == split_timestamp(b@),
{
    match find_dot(b) {
        None => None,
        Some(i) => {
            let mut secs: Vec<u8> = Vec::new();
            let mut j: usize = 0;
            while j < i
                invariant
                    i < b@.len(),
                    j <= i,
                    secs@ == b@.take(j as int),
                decreases i - j,
            {
                secs.push(b[j]);
                j = j + 1;
                assert(secs@ =~= b@.take(j as int));
            }
            let mut nsecs: Vec<u8> = Vec::new();
            assert(b@.len() == b.len());
            let mut k: usize = i + 1;
            while k < b.len()
                invariant
                    i < b@.len(),
                    i + 1 <= k <= b@.len(),
                    nsecs@ == b@.subrange(i + 1, k as int),
                decreases b@.len() - k,
            {
                nsecs.push(b[k]);
                k = k + 1;
                assert(nsecs@ =~= b@.subrange(i + 1, k as int));
            }
            assert(nsecs@ =~= b@.skip(i + 1));
            match (parse_i64_bytes(secs.as_slice()), parse_u32_bytes(nsecs.as_slice())) {
                (Some(s), Some(n)) => Some((s, n)),
                _ => None,
            }
        },
    }
}

/// The capture time that `<seconds>.<nanoseconds>` writes, in microseconds.
pub open spec fn timestamp_micros_of(b: Seq<u8>) -> Option<i64> {
    match split_timestamp(b) {
        Some((s, n)) => utc_micros(s, n),
        None => None,
    }
}

/// Reads `<seconds>.<nanoseconds>` into microseconds since the epoch.
pub fn parse_timestamp(b: &[u8]) -> (r: Option<i64>)
    ensures
        r == timestamp_micros_of(b@),
{
    match split_timestamp_bytes(b) {
        Some((s, n)) => utc_timestamp_micros(s, n),
        None => None,
    }
}

} // verus!
