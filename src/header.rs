//! Reading the value of a `Retry-After` header: either a whole number of
//! seconds or an HTTP-date in the RFC 2822 form.
use time::format_description::well_known::Rfc2822;
use time::OffsetDateTime;
use vstd::prelude::*;

use crate::clock::{seconds_after, WallTime};

verus! {

/// An ASCII decimal digit.
pub open spec fn is_digit(c: char) -> bool {
    '0' <= c && c <= '9'
}

/// The value of a digit character.
pub open spec fn digit_value(c: char) -> nat {
    (c as u32 - '0' as u32) as nat
}

/// The number that a string of digits spells in base ten.
pub open spec fn decimal_value(s: Seq<char>) -> nat
    decreases s.len(),
{
    if s.len() == 0 {
        0
    } else {
        decimal_value(s.drop_last()) * 10 + digit_value(s.last())
    }
}

/// A non-empty run of ASCII digits, with no sign, point or space.
pub open spec fn is_decimal(s: Seq<char>) -> bool {
    s.len() > 0 && forall|i: int| 0 <= i < s.len() ==> is_digit(#[trigger] s[i])
}

/// The delay-seconds reading of a header value: the number it spells, where
/// it is all digits and the number fits in 64 bits.
pub open spec fn delay_seconds_spec(s: Seq<char>) -> Option<u64> {
    if is_decimal(s) && decimal_value(s) <= u64::MAX {
        Some(decimal_value(s) as u64)
    } else {
        None
    }
}

/// The instant, in nanoseconds since the Unix epoch, that `s` denotes as an
/// RFC 2822 date-time, or `None` where `s` is not one.
pub uninterp spec fn rfc2822_unix_nanos(s: Seq<char>) -> Option<i128>;

/// The release instant that a header value asks for, given what the text
/// reads as an HTTP-date (`http_date`) and the instant `now` at which the
/// header was seen. The delay-seconds form is tried first.
pub open spec fn retry_value_spec(s: Seq<char>, http_date: Option<i128>, now: WallTime) -> Option<
    WallTime,
> {
    match delay_seconds_spec(s) {
        Some(secs) => seconds_after(now, secs as nat),
        None => match http_date {
            Some(n) => Some(WallTime { unix_nanos: n }),
            None => None,
        },
    }
}

/// Relies on `time::OffsetDateTime::parse` with the `Rfc2822` well-known
/// format, and on `OffsetDateTime::unix_timestamp_nanos`: the absolute
/// instant a date-time text denotes, whatever offset it is written in.
#[verifier::external_body]
fn parse_rfc2822(text: &str) -> (r: Option<i128>)
    ensures
        r == rfc2822_unix_nanos(text@),
{
    match OffsetDateTime::parse(text, &Rfc2822) {
        Ok(date) => Some(date.unix_timestamp_nanos()),
        Err(_) => None,
    }
}

proof fn lemma_prefix_value_le(s: Seq<char>, k: int)
    requires
        0 <= k <= s.len(),
    ensures
        decimal_value(s.subrange(0, k)) <= decimal_value(s),
    decreases s.len(),
{
    if k < s.len() {
        assert(s.drop_last().subrange(0, k) =~= s.subrange(0, k));
        lemma_prefix_value_le(s.drop_last(), k);
    } else {
        assert(s.subrange(0, k) =~= s);
    }
}

/// Reads `text` as a delay in whole seconds: ASCII digits only, at least one,
/// and a value that fits in a `u64`.
pub fn parse_delay_seconds(text: &str) -> (r: Option<u64>)
    ensures
        r == delay_seconds_spec(text@),
{
    broadcast use vstd::string::is_ascii_spec_bytes;

    if !text.is_ascii() {
        return None;
    }
    let bytes = text.as_bytes();
    let n = bytes.len();
    if n == 0 {
        return None;
    }
    let mut acc: u64 = 0;
    let mut i: usize = 0;
    while i < n
        invariant
            vstd::string::is_ascii(text),
            bytes@ =~= Seq::new(text@.len(), |j: int| text@[j] as u8),
            n == text@.len(),
            0 <= i <= n,
            forall|j: int| 0 <= j < i ==> is_digit(#[trigger] text@[j]),
            acc == decimal_value(text@.subrange(0, i as int)),
        decreases n - i,
    {
        let b = bytes[i];
        let ghost c = text@[i as int];
        assert(c as u8 == b);
        if b < 48 || b > 57 {
            assert(!is_digit(c));
            return None;
        }
        let ghost prev = text@.subrange(0, i as int);
        let ghost next = text@.subrange(0, i as int + 1);
        assert(next.drop_last() =~= prev);
        assert(decimal_value(next) == acc * 10 + digit_value(c));
        let d = (b - 48) as u64;
        assert(d == digit_value(c));
        if acc > (u64::MAX - d) / 10 {
            assert(acc * 10 + d > u64::MAX) by (nonlinear_arith)
                requires
                    acc > (u64::MAX - d) / 10,
                    d <= 9,
            ;
            proof {
                lemma_prefix_value_le(text@, i as int + 1);
            }
            return None;
        }
        assert(acc * 10 + d <= u64::MAX) by (nonlinear_arith)
            requires
                acc <= (u64::MAX - d) / 10,
                d <= 9,
        ;
        acc = acc * 10 + d;
        i = i + 1;
    }
    assert(text@.subrange(0, n as int) =~= text@);
    Some(acc)
}

/// The release instant that header value `text`, seen at `now`, asks for,
/// given `http_date`, what `text` reads as in the RFC 2822 form.
pub fn retry_value_from(text: &str, http_date: Option<i128>, now: WallTime) -> (r: Option<
    WallTime,
>)
    ensures
        r == retry_value_spec(text@, http_date, now),
{
    match parse_delay_seconds(text) {
        Some(secs) => now.plus_seconds(secs),
        None => match http_date {
            Some(n) => Some(WallTime::from_unix_nanos(n)),
            None => None,
        },
    }
}

/// Parses header value `text`, seen at `now`, into the instant until which
/// requests should be held back: `now` plus the delay where `text` is a
/// whole number of seconds, else the instant of the RFC 2822 date it spells,
/// else `None`.
pub fn parse_retry_value(text: &str, now: WallTime) -> (r: Option<WallTime>)
    ensures
        r == retry_value_spec(text@, rfc2822_unix_nanos(text@), now),
{
    let http_date = match parse_delay_seconds(text) {
        Some(_) => None,
        None => parse_rfc2822(text),
    };
    retry_value_from(text, http_date, now)
}

} // verus!
