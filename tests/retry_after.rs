use reqwest_retry_after::{
    observe, parse_delay_seconds, parse_retry_value, retry_value_from, Ledger, Observation,
    RetryAfterMiddleware, Scope, WallTime,
};
use time::format_description::well_known::Rfc2822;
use time::OffsetDateTime;

const SECOND: i128 = 1_000_000_000;
const BASE: &str = "http://127.0.0.1:8080/";
const NORMAL: &str = "http://127.0.0.1:8080/normal";

fn at(nanos: i128) -> WallTime {
    WallTime::from_unix_nanos(nanos)
}

fn dispatch(m: &RetryAfterMiddleware, locator: &str, now: WallTime) -> i128 {
    match m.delay_before(locator, now) {
        Some(d) => now.unix_nanos + d as i128,
        None => now.unix_nanos,
    }
}

fn rfc2822_text(t: WallTime) -> String {
    OffsetDateTime::from_unix_timestamp_nanos(t.unix_nanos)
        .unwrap()
        .format(&Rfc2822)
        .unwrap()
}

#[test]
fn test() {
    let test_duration: i128 = 2 * SECOND;
    let mut m = RetryAfterMiddleware::new();
    assert!(m.is_empty());

    // a response carrying `Retry-After: 2` is stored
    let pre_test = at(1_700_000_000 * SECOND);
    let seen = at(pre_test.unix_nanos + 3_000_000);
    assert_eq!(m.delay_before(BASE, pre_test), None);
    m.after_response(BASE, Some("2"), seen);
    let stored = m.peek(BASE).unwrap();
    assert!(stored.unix_nanos - pre_test.unix_nanos >= test_duration);

    // another target is not held back
    let before_normal = at(seen.unix_nanos + 1_000_000);
    assert_eq!(m.delay_before(NORMAL, before_normal), None);
    m.after_response(NORMAL, None, before_normal);
    assert_eq!(m.peek(NORMAL), None);

    // the stored target waits, then its entry is cleared
    let now = at(before_normal.unix_nanos + 1_000_000);
    let post_test = dispatch(&m, BASE, now);
    assert!(post_test - pre_test.unix_nanos >= test_duration);
    m.after_response(BASE, None, at(post_test));
    assert!(m.is_empty());
}

#[test]
fn test_rfc2822() {
    let mut test_duration: i128 = 2 * SECOND;
    let mut m = RetryAfterMiddleware::new();

    let now = at(1_700_000_000 * SECOND + 123_456_789);
    let begin = at(now.floor_to_second().unix_nanos + SECOND);
    let ra = at(begin.unix_nanos + test_duration);
    test_duration = ra.unix_nanos - begin.unix_nanos;

    m.after_response(BASE, Some(&rfc2822_text(ra)), now);
    let stored = m.peek(BASE).unwrap();
    assert!(stored.unix_nanos - now.unix_nanos >= test_duration);

    let dispatched = dispatch(&m, BASE, at(now.unix_nanos + 5_000_000));
    m.after_response(BASE, None, at(dispatched));
    assert!(dispatched - begin.unix_nanos >= test_duration);
    assert!(m.is_empty());
}

#[test]
fn fresh_middleware_never_delays() {
    let m = RetryAfterMiddleware::new();
    assert!(m.is_empty());
    assert_eq!(m.peek(BASE), None);
    assert_eq!(m.delay_before(BASE, at(0)), None);
    assert_eq!(m.delay_before(NORMAL, at(-5 * SECOND)), None);
    let d = RetryAfterMiddleware::default();
    assert!(d.is_empty());
    assert_eq!(d.scope(), Scope::PerTarget);
}

#[test]
fn delay_seconds_hold_back_from_observation() {
    let mut m = RetryAfterMiddleware::new();
    let seen = at(10 * SECOND + 250);
    m.after_response(BASE, Some("7"), seen);
    assert_eq!(m.peek(BASE), Some(at(17 * SECOND + 250)));
    assert_eq!(m.delay_before(BASE, at(11 * SECOND)), Some((6 * SECOND + 250) as u128));
    assert_eq!(dispatch(&m, BASE, at(12 * SECOND)), 17 * SECOND + 250);
    // already elapsed: no wait
    assert_eq!(m.delay_before(BASE, at(17 * SECOND + 250)), None);
    assert_eq!(m.delay_before(BASE, at(20 * SECOND)), None);
}

#[test]
fn unrelated_target_not_delayed() {
    let mut m = RetryAfterMiddleware::new();
    m.after_response("http://a.example/res", Some("100"), at(0));
    assert_eq!(m.delay_before("http://a.example/other", at(SECOND)), None);
    assert_eq!(m.delay_before("http://b.example/res", at(SECOND)), None);
    assert_eq!(m.delay_before("http://a.example/res?x=1", at(SECOND)), None);
    assert_eq!(
        m.delay_before("http://a.example/res", at(SECOND)),
        Some((99 * SECOND) as u128)
    );
}

#[test]
fn missing_header_clears_entry() {
    let mut m = RetryAfterMiddleware::new();
    m.after_response(BASE, Some("30"), at(0));
    m.after_response(NORMAL, Some("30"), at(0));
    m.after_response(BASE, None, at(SECOND));
    assert_eq!(m.peek(BASE), None);
    assert_eq!(m.delay_before(BASE, at(SECOND)), None);
    assert_eq!(m.peek(NORMAL), Some(at(30 * SECOND)));
    assert!(!m.is_empty());
}

#[test]
fn malformed_value_keeps_entry() {
    let mut m = RetryAfterMiddleware::new();
    m.after_response(BASE, Some("5"), at(0));
    m.after_response(BASE, Some("not-a-number"), at(SECOND));
    assert_eq!(m.peek(BASE), Some(at(5 * SECOND)));
    assert_eq!(m.delay_before(BASE, at(SECOND)), Some((4 * SECOND) as u128));
    m.after_response(BASE, Some("-3"), at(SECOND));
    m.after_response(BASE, Some("1.5"), at(SECOND));
    assert_eq!(m.peek(BASE), Some(at(5 * SECOND)));
}

#[test]
fn malformed_value_on_unseen_target_stores_nothing() {
    let mut m = RetryAfterMiddleware::new();
    m.after_response(BASE, Some("soon"), at(0));
    assert!(m.is_empty());
}

#[test]
fn new_value_replaces_old_one() {
    let mut m = RetryAfterMiddleware::new();
    m.after_response(BASE, Some("60"), at(0));
    m.after_response(BASE, Some("1"), at(SECOND));
    assert_eq!(m.peek(BASE), Some(at(2 * SECOND)));
}

#[test]
fn http_date_round_trip_floors_to_second() {
    let samples: [i128; 4] = [
        1_700_000_000 * SECOND + 999_999_999,
        946_684_799 * SECOND,
        1_234_567_890 * SECOND + 1,
        -2_000_000 * SECOND - 400_000_000,
    ];
    for nanos in samples {
        let t = at(nanos);
        let text = rfc2822_text(t);
        assert_eq!(parse_retry_value(&text, at(0)), Some(t.floor_to_second()));
    }
}

#[test]
fn scenario_res_then_other_then_res() {
    let mut m = RetryAfterMiddleware::new();
    let res = "http://server.example/res";
    let other = "http://server.example/other";
    // (1) `/res` answers with `Retry-After: 2`
    let t1 = at(1_000 * SECOND + 500_000_000);
    assert_eq!(m.delay_before(res, at(t1.unix_nanos - 10)), None);
    m.after_response(res, Some("2"), t1);
    // (2) `/other` goes at once
    let t2 = at(t1.unix_nanos + 1_000_000);
    assert_eq!(m.delay_before(other, t2), None);
    m.after_response(other, None, t2);
    // (3) `/res` is held until two seconds after (1), then cleared
    let t3 = at(t2.unix_nanos + 1_000_000);
    let sent = dispatch(&m, res, t3);
    assert!(sent >= t1.unix_nanos + 2 * SECOND);
    m.after_response(res, None, at(sent));
    assert_eq!(m.peek(res), None);
    assert!(m.is_empty());
}

#[test]
fn global_scope_shares_one_entry() {
    let mut m = RetryAfterMiddleware::with_scope(Scope::Global);
    assert_eq!(m.scope(), Scope::Global);
    assert_eq!(m.identity(BASE), m.identity(NORMAL));
    m.after_response(BASE, Some("3"), at(0));
    assert_eq!(m.delay_before(NORMAL, at(SECOND)), Some((2 * SECOND) as u128));
    m.after_response(NORMAL, None, at(SECOND));
    assert_eq!(m.peek(BASE), None);
}

#[test]
fn per_target_identity_is_the_locator() {
    let m = RetryAfterMiddleware::new();
    assert_eq!(m.identity(BASE), BASE.to_string());
}

#[test]
fn delay_seconds_parsing() {
    assert_eq!(parse_delay_seconds("0"), Some(0));
    assert_eq!(parse_delay_seconds("120"), Some(120));
    assert_eq!(parse_delay_seconds("007"), Some(7));
    assert_eq!(parse_delay_seconds("18446744073709551615"), Some(u64::MAX));
    assert_eq!(parse_delay_seconds("18446744073709551616"), None);
    assert_eq!(parse_delay_seconds("99999999999999999999999"), None);
    assert_eq!(parse_delay_seconds(""), None);
    assert_eq!(parse_delay_seconds("-1"), None);
    assert_eq!(parse_delay_seconds("+5"), None);
    assert_eq!(parse_delay_seconds("1.5"), None);
    assert_eq!(parse_delay_seconds(" 5"), None);
    assert_eq!(parse_delay_seconds("5 "), None);
    assert_eq!(parse_delay_seconds("\u{0663}"), None);
    assert_eq!(parse_delay_seconds("1\u{00e9}"), None);
}

#[test]
fn retry_value_forms() {
    let now = at(50 * SECOND + 7);
    assert_eq!(parse_retry_value("2", now), Some(at(52 * SECOND + 7)));
    assert_eq!(
        parse_retry_value("Fri, 31 Dec 1999 23:59:59 GMT", now),
        Some(at(946_684_799 * SECOND))
    );
    assert_eq!(
        parse_retry_value("Sat, 01 Jan 2000 01:00:00 +0100", now),
        Some(at(946_684_800 * SECOND))
    );
    assert_eq!(parse_retry_value("not-a-number", now), None);
    assert_eq!(parse_retry_value("", now), None);
    assert_eq!(parse_retry_value("1999-12-31T23:59:59Z", now), None);
}

#[test]
fn retry_value_from_given_date() {
    let now = at(SECOND);
    assert_eq!(retry_value_from("3", Some(77), now), Some(at(4 * SECOND)));
    assert_eq!(retry_value_from("soon", Some(77), now), Some(at(77)));
    assert_eq!(retry_value_from("soon", None, now), None);
    assert_eq!(retry_value_from("18446744073709551615", None, at(i128::MAX - 5)), None);
}

#[test]
fn delay_that_overflows_is_malformed() {
    let near_end = at(i128::MAX - SECOND);
    assert_eq!(parse_retry_value("2", near_end), None);
    assert_eq!(observe(Some("2"), near_end), Observation::Malformed);
    assert_eq!(parse_retry_value("1", near_end), Some(at(i128::MAX)));
}

#[test]
fn observation_kinds() {
    assert_eq!(observe(None, at(0)), Observation::Absent);
    assert_eq!(observe(Some("x"), at(0)), Observation::Malformed);
    assert_eq!(observe(Some("4"), at(1)), Observation::Until(at(4 * SECOND + 1)));
    let mut m = RetryAfterMiddleware::new();
    m.record(BASE, Observation::Until(at(9)));
    assert_eq!(m.peek(BASE), Some(at(9)));
    m.record(BASE, Observation::Malformed);
    assert_eq!(m.peek(BASE), Some(at(9)));
    m.record(BASE, Observation::Absent);
    assert_eq!(m.peek(BASE), None);
}

#[test]
fn wall_time_arithmetic() {
    assert_eq!(at(5).plus_seconds(2), Some(at(2 * SECOND + 5)));
    assert_eq!(at(i128::MAX).plus_seconds(1), None);
    assert_eq!(at(-SECOND).plus_seconds(u64::MAX), Some(at(-SECOND + u64::MAX as i128 * SECOND)));
    assert_eq!(at(10).wait_until(at(10)), None);
    assert_eq!(at(10).wait_until(at(3)), None);
    assert_eq!(at(10).wait_until(at(13)), Some(3));
    assert_eq!(at(-4).wait_until(at(6)), Some(10));
    assert_eq!(at(i128::MIN).wait_until(at(i128::MAX)), Some(u128::MAX));
    assert_eq!(at(-1_500_000_000).floor_to_second(), at(-2 * SECOND));
    assert_eq!(at(1_500_000_000).floor_to_second(), at(SECOND));
    assert_eq!(at(2 * SECOND).floor_to_second(), at(2 * SECOND));
}

#[test]
fn ledger_operations() {
    let mut l = Ledger::new();
    assert!(l.is_empty());
    assert_eq!(l.peek("a"), None);
    l.set("a", at(1));
    l.set("b", at(2));
    l.set("a", at(3));
    assert_eq!(l.peek("a"), Some(at(3)));
    assert_eq!(l.peek("b"), Some(at(2)));
    l.clear("a");
    assert_eq!(l.peek("a"), None);
    l.clear("a");
    l.clear("b");
    assert!(l.is_empty());
}
