use eiger::config::RateLimitConfig;
use eiger::json::{empty_object, parse, parse_message, put, render, text, Json};
use eiger::rate_limit::{Bucket, Buckets, Limits, RateLimiter, REQUEST_COST};
use eiger::rest::{ScreenshotFormat, WaitUntil};
use eiger::span::{seconds_since, ticks_since, Span};
use eiger::stealth::{baseline_scripts, strip_marker, StealthProfile, BASELINE_SCRIPT};
use eiger::text::{
    blank, comma_separated, contains, decimal_text, lowered, parse_bool, parse_number, replace, split,
    split_once, split_words, starts_with, strip_prefix, trimmed, Separator,
};
use std::path::PathBuf;

#[test]
fn stealth_args_strip_headless_user_agent_marker() {
    let profile = StealthProfile::new(
        true,
        Some("Mozilla/5.0 HeadlessChrome/124.0.0.0".to_owned()),
    );
    let args = profile.chrome_args();

    assert!(args.iter().any(|arg| arg.contains("AutomationControlled")));
    assert!(args.iter().any(|arg| arg.contains("Chrome/124.0.0.0")));
    assert!(!args.iter().any(|arg| arg.contains("HeadlessChrome")));
    assert!(!args.iter().any(|arg| arg.contains("--enable-automation")));
}

#[test]
fn injected_script_covers_baseline_checks() {
    assert!(BASELINE_SCRIPT.contains("webdriver"));
    assert!(BASELINE_SCRIPT.contains("plugins"));
    assert!(BASELINE_SCRIPT.contains("mimeTypes"));
    assert!(BASELINE_SCRIPT.contains("WebGLRenderingContext"));
}

#[test]
fn markers_are_stripped_until_none_is_left() {
    assert_eq!(strip_marker("HeadlessHeadlessChrome"), "Chrome");
    assert_eq!(strip_marker("HeadlessHeadlessHeadlessChrome/1 HeadlessChrome"), "Chrome/1 Chrome");
    assert_eq!(strip_marker("Headless Chrome"), "Headless Chrome");
    assert_eq!(strip_marker(""), "");
    let profile = StealthProfile::new(true, Some("a HeadlessHeadlessChrome/1".to_owned()));
    assert_eq!(profile.chrome_args()[2], "--user-agent=a Chrome/1");
}

#[test]
fn disguises_can_be_off() {
    assert!(StealthProfile::new(false, None).chrome_args().is_empty());
    let args = StealthProfile::new(true, None).chrome_args();
    assert_eq!(args[0], "--disable-blink-features=AutomationControlled");
    assert_eq!(args[1], "--window-size=1365,768");
    assert!(args[2].starts_with("--user-agent=Mozilla/5.0"));
    assert_eq!(baseline_scripts().len(), 1);
    assert_eq!(baseline_scripts()[0].source, BASELINE_SCRIPT);
}

#[test]
fn texts_are_cut_and_trimmed() {
    assert_eq!(trimmed(" \t\u{3000}a b\n"), "a b");
    assert!(blank("\u{a0}\u{2003}"));
    assert!(!blank(" x"));
    assert_eq!(lowered("ÄBC-Z"), "Äbc-z");
    assert_eq!(comma_separated(" , a,,b "), vec!["a", "b"]);
    assert_eq!(split_words("  a\u{85}b c "), vec!["a", "b", "c"]);
    assert_eq!(split("a,,b", Separator::Is(',')), vec!["a", "", "b"]);
    assert_eq!(split("", Separator::Is(',')), vec![""]);
    assert!(starts_with("abc", "ab") && !starts_with("ab", "abc") && starts_with("x", ""));
    assert_eq!(strip_prefix("abc", "ab").as_deref(), Some("c"));
    assert_eq!(strip_prefix("abc", "b"), None);
    assert_eq!(split_once("a=b=c", "="), Some(("a".to_owned(), "b=c".to_owned())));
    assert_eq!(split_once("abc", "="), None);
    assert_eq!(replace("aaa", "aa", "b"), "ba");
    assert!(contains("abc", "bc") && contains("abc", "") && contains("", ""));
    assert!(!contains("abc", "cb") && !contains("", "a"));
    assert_eq!(replace("xyz", "q", "b"), "xyz");
}

#[test]
fn numbers_are_written_and_read() {
    for number in [0, 9, 10, 12345, u64::MAX] {
        assert_eq!(decimal_text(number), number.to_string());
        assert_eq!(parse_number(&decimal_text(number), u64::MAX), Some(number));
    }
    assert_eq!(parse_number("+007", 7), Some(7));
    for bad in ["", "+", "-1", "1 ", "8", "18446744073709551616", "++1", "1.0"] {
        assert_eq!(parse_number(bad, 7), None, "{bad}");
    }
    assert_eq!(parse_bool("true"), Some(true));
    assert_eq!(parse_bool("false"), Some(false));
    assert_eq!(parse_bool("True"), None);
}

#[test]
fn spans_are_lengths_of_time() {
    assert_eq!(Span::from_millis(1500).as_nanos(), 1_500_000_000);
    assert_eq!(Span::from_millis(1500).as_secs(), 1);
    assert_eq!(Span::from_millis(1500).subsec_nanos(), 500_000_000);
    assert_eq!(Span::from_millis(1500).text(), "1.5s");
    assert_eq!(Span::from_secs(2).text(), "2s");
    assert!(Span::from_millis(0).is_zero() && !Span::from_secs(1).is_zero());
    assert_eq!(ticks_since(5, 3), 0);
    assert_eq!(seconds_since(0, 2_999_999_999), 2);
    assert_eq!(seconds_since(0, u128::MAX), u64::MAX);
}

#[test]
fn json_is_read_and_written() {
    let value = parse(r#"{"b":[1,-2,0.5,"x",null,true],"a":{}}"#).unwrap();
    assert_eq!(render(&value), r#"{"a":{},"b":[1,-2,0.5,"x",null,true]}"#);
    assert_eq!(value.get("a").unwrap().get("none").map(|_| ()), None);
    assert_eq!(parse(r#"{"a":{"b":"c"}}"#).unwrap().get_nested("a", "b").unwrap().as_str(), Some("c"));
    assert_eq!(parse(r#"{"a":1,"a":"2"}"#).unwrap().get_str("a"), Some("2"));
    assert_eq!(parse("18446744073709551615").unwrap().as_u64(), Some(u64::MAX));
    assert_eq!(parse("-1").unwrap().as_u64(), None);
    assert_eq!(parse("1.0").unwrap().as_u64(), None);
    assert_eq!(parse("{").unwrap_err(), "EOF while parsing an object at line 1 column 1");
    let mut members = Vec::new();
    put(&mut members, "k", text("v"));
    put(&mut members, "k", empty_object());
    assert_eq!(render(&Json::Object(members)), r#"{"k":{}}"#);
    let message = parse_message(r#"{"id":1,"error":{"b":1,"a":2}}"#).unwrap();
    assert_eq!(message.error.as_deref(), Some(r#"{"a":2,"b":1}"#));
    assert!(matches!(message.body.into_member("id"), Some(Json::Unsigned(1))));
}

const SECOND: u128 = 1_000_000_000;

#[test]
fn buckets_grant_the_burst_and_then_the_rate() {
    let limits = Limits { requests_per_second: 2, burst: 3 };
    let mut bucket = Bucket { credit: 3 * REQUEST_COST, reckoned: 0 };
    let granted = (0..5).filter(|_| bucket.draw(limits, 0)).count();
    assert_eq!(granted, 3);
    assert!(!bucket.draw(limits, SECOND / 2 - 1));
    assert!(bucket.draw(limits, SECOND / 2));
    assert!(!bucket.draw(limits, SECOND / 2));
    let granted = (0..9).filter(|_| bucket.draw(limits, 100 * SECOND)).count();
    assert_eq!(granted, 3);
    assert!(!bucket.draw(limits, u128::MAX) || bucket.credit == 2 * REQUEST_COST);
}

#[test]
fn addresses_and_tokens_have_buckets_of_their_own() {
    let config = RateLimitConfig { requests_per_second: 1, burst: 2 };
    let mut limiter = RateLimiter::new(&config);
    assert!(limiter.allow("1.1.1.1", Some("t"), 0));
    assert!(limiter.allow("1.1.1.1", Some("t"), 0));
    assert!(!limiter.allow("1.1.1.1", None, 0));
    assert!(!limiter.allow("2.2.2.2", Some("t"), 0));
    assert!(limiter.allow("2.2.2.2", Some("u"), 0));
    assert!(limiter.allow("3.3.3.3", None, 0));
    limiter.prune(SECOND);
    assert!(limiter.allow("1.1.1.1", Some("t"), SECOND));
    assert!(!limiter.allow("1.1.1.1", Some("v"), SECOND));
    limiter.prune(10 * SECOND);
    assert!(limiter.allow("1.1.1.1", Some("t"), 10 * SECOND));
}

#[test]
fn forgotten_buckets_are_full() {
    let limits = Limits { requests_per_second: 1, burst: 1 };
    let (buckets, met) = Buckets::new().draw(limits, "a", 0);
    assert!(met);
    let (buckets, met) = buckets.draw(limits, "a", 0);
    assert!(!met);
    let buckets = buckets.prune(limits, SECOND / 2);
    let (buckets, met) = buckets.draw(limits, "a", SECOND / 2);
    assert!(!met);
    let buckets = buckets.prune(limits, 2 * SECOND);
    let (_, met) = buckets.draw(limits, "a", 2 * SECOND);
    assert!(met);
}

#[test]
fn different_sessions_have_different_names() {
    let name = |id: u128| {
        eiger::pool::PoolError::NotFound(id).message().replace("session not found: ", "")
    };
    assert_eq!(name(0x10), "00000000-0000-0000-0000-000000000010");
    assert_ne!(name(0x10), name(0x01));
    let id = 0xdead_beef_0000_1111_2222_3333_4444_5555_u128;
    assert_eq!(name(id), uuid::Uuid::from_u128(id).to_string());
}

#[test]
fn names_of_events_and_formats_are_understood() {
    for point in [
        WaitUntil::Load,
        WaitUntil::DomContentLoaded,
        WaitUntil::NetworkIdle,
        WaitUntil::NetworkAlmostIdle,
    ] {
        assert_eq!(WaitUntil::parse(Some(point.lifecycle_name())).unwrap(), point);
    }
    for format in [ScreenshotFormat::Png, ScreenshotFormat::Jpeg] {
        assert_eq!(ScreenshotFormat::parse(Some(format.cdp_name())).unwrap(), format);
    }
}

#[test]
fn values_of_the_wrong_type_are_refused_in_the_words_of_the_parser() {
    let samples = [
        "null",
        "true",
        "0",
        "-9223372036854775808",
        "18446744073709551615",
        "18446744073709551616",
        "-0.0",
        "1.5",
        "1e300",
        "\"a\\\"b\"",
        "[]",
        "[\"a\",\"\"]",
        "[null]",
        "[\"a\",[\"b\"],2]",
        "[\"a\",{}]",
        "{}",
        "{\"a\":1}",
    ];
    for sample in samples {
        let ours = parse(sample).unwrap();
        let theirs: serde_json::Value = serde_json::from_str(sample).unwrap();
        let texts = serde_json::from_value::<Option<Vec<String>>>(theirs.clone());
        assert_eq!(ours.to_texts("a string"), texts.map_err(|error| error.to_string()));
        let paths = serde_json::from_value::<Option<Vec<PathBuf>>>(theirs.clone());
        let paths = paths.map(|list| {
            list.map(|list| list.into_iter().map(|path| path.to_str().unwrap().to_owned()).collect())
        });
        assert_eq!(ours.to_texts("path string"), paths.map_err(|error| error.to_string()));
        let flag = serde_json::from_value::<Option<bool>>(theirs.clone());
        assert_eq!(ours.to_bool(), flag.map_err(|error| error.to_string()));
        let word = serde_json::from_value::<Option<String>>(theirs);
        assert_eq!(ours.to_text(), word.map_err(|error| error.to_string()));
    }
}

#[test]
fn of_members_with_one_name_the_last_is_written() {
    let mut members = Vec::new();
    put(&mut members, "a", Json::Bool(true));
    put(&mut members, "b", Json::Array(vec![Json::Decimal("0.5".to_owned())]));
    put(&mut members, "a", Json::Null);
    assert_eq!(render(&Json::Object(members)), r#"{"a":null,"b":[0.5]}"#);
}
