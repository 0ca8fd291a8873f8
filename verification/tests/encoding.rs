//! Numerals, escaping and the parameters of the endpoints.

use peertube::param::{Channels, Pagination, Rating, Ratings, Subscription, Videos};
use peertube::percent::{push_escaped, upper_hex_char, Place};
use peertube::query::{push_flag, push_number, push_pair, push_query, push_text};
use peertube::text::{decimal_string, digit_char, push_decimal, push_signed_decimal, same_text};
use peertube::Json;

fn pairs(list: &[(&str, &str)]) -> Vec<(String, String)> {
    list.iter().map(|(k, v)| (k.to_string(), v.to_string())).collect()
}

fn escaped(place: Place, text: &str) -> String {
    let mut out = String::new();
    push_escaped(&mut out, place, text);
    out
}

#[test]
fn decimal_numerals() {
    assert_eq!(decimal_string(0), "0");
    assert_eq!(decimal_string(9), "9");
    assert_eq!(decimal_string(10), "10");
    assert_eq!(decimal_string(205), "205");
    assert_eq!(decimal_string(1000000), "1000000");
    assert_eq!(decimal_string(u64::MAX), "18446744073709551615");
    for n in [0u64, 1, 19, 99, 100, 101, 4096, 123456789] {
        assert_eq!(decimal_string(n), n.to_string());
    }
}

#[test]
fn decimal_is_appended() {
    let mut out = "n=".to_string();
    push_decimal(&mut out, 42);
    push_decimal(&mut out, 0);
    assert_eq!(out, "n=420");
}

#[test]
fn signed_numerals() {
    for n in [0i64, 1, -1, 10, -10, 999, -1000, i64::MAX, i64::MIN, i64::MIN + 1] {
        let mut out = String::new();
        push_signed_decimal(&mut out, n);
        assert_eq!(out, n.to_string());
    }
}

#[test]
fn digits_and_hex_digits() {
    let digits: String = (0..10).map(digit_char).collect();
    assert_eq!(digits, "0123456789");
    let hex: String = (0..16).map(upper_hex_char).collect();
    assert_eq!(hex, "0123456789ABCDEF");
    let lower: String = (0..16).map(peertube::render::lower_hex_char).collect();
    assert_eq!(lower, "0123456789abcdef");
}

#[test]
fn texts_are_compared_by_content() {
    assert!(same_text("", ""));
    assert!(same_text("abc", "abc"));
    assert!(same_text("caf\u{e9}", "caf\u{e9}"));
    assert!(!same_text("abc", "abd"));
    assert!(!same_text("abc", "ab"));
    assert!(!same_text("", "a"));
    assert!(!same_text("e\u{301}", "\u{e9}"));
    assert!(!same_text("A", "a"));
}

#[test]
fn every_byte_is_escaped_by_its_rule_in_a_query() {
    for b in 0u8..128 {
        let c = b as char;
        let expected = if c.is_ascii_alphanumeric() || "*-._".contains(c) {
            c.to_string()
        } else if c == ' ' {
            "+".to_string()
        } else {
            format!("%{:02X}", b)
        };
        assert_eq!(escaped(Place::Query, &c.to_string()), expected);
    }
}

#[test]
fn every_byte_is_escaped_by_its_rule_in_a_segment() {
    for b in 0u8..128 {
        let c = b as char;
        let expected = if c.is_ascii_alphanumeric() || "-._~".contains(c) {
            c.to_string()
        } else {
            format!("%{:02X}", b)
        };
        assert_eq!(escaped(Place::Segment, &c.to_string()), expected);
    }
}

#[test]
fn text_beyond_ascii_is_escaped_by_its_utf8_bytes() {
    assert_eq!(escaped(Place::Query, "\u{e9}"), "%C3%A9");
    assert_eq!(escaped(Place::Segment, "\u{e9}"), "%C3%A9");
    assert_eq!(escaped(Place::Query, "\u{20ac}"), "%E2%82%AC");
    assert_eq!(escaped(Place::Segment, "\u{1f600}"), "%F0%9F%98%80");
    assert_eq!(escaped(Place::Query, "a b\u{ff}c"), "a+b%C3%BFc");
    assert_eq!(escaped(Place::Segment, "a b\u{ff}c"), "a%20b%C3%BFc");
    assert_eq!(escaped(Place::Query, ""), "");
}

#[test]
fn escaped_text_holds_safe_characters_only() {
    let every_char: String = (0u32..0x3000).filter_map(char::from_u32).collect();
    for place in [Place::Query, Place::Segment] {
        let out = escaped(place, &every_char);
        assert!(out.chars().all(|c| c.is_ascii_alphanumeric() || "-._~*+%".contains(c)));
    }
}

#[test]
fn escaping_appends() {
    let mut out = "/accounts/".to_string();
    push_escaped(&mut out, Place::Segment, "a/b");
    push_escaped(&mut out, Place::Query, " ");
    assert_eq!(out, "/accounts/a%2Fb+");
}

#[test]
fn query_string_joins_pairs() {
    let mut out = "?".to_string();
    push_query(&mut out, &pairs(&[("a", "1"), ("b c", "d&e"), ("a", "")]));
    assert_eq!(out, "?a=1&b+c=d%26e&a=");
    let mut out = String::new();
    push_query(&mut out, &Vec::new());
    assert_eq!(out, "");
    let mut out = String::new();
    push_query(&mut out, &pairs(&[("only", "one")]));
    assert_eq!(out, "only=one");
}

#[test]
fn pairs_are_pushed_where_set() {
    let mut list = Vec::new();
    push_pair(&mut list, "k", "v");
    push_number(&mut list, "n", Some(12));
    push_number(&mut list, "none", None);
    push_flag(&mut list, "yes", Some(true));
    push_flag(&mut list, "no", Some(false));
    push_flag(&mut list, "none", None);
    push_text(&mut list, "t", &Some("x y".to_string()));
    push_text(&mut list, "none", &None);
    assert_eq!(list, pairs(&[("k", "v"), ("n", "12"), ("yes", "true"), ("no", "false"), ("t", "x y")]));
}

#[test]
fn default_parameters_send_nothing() {
    assert!(Pagination::default().to_query().is_empty());
    assert!(Videos::default().to_query().is_empty());
    assert!(Channels::default().to_query().is_empty());
    assert!(Ratings::default().to_query().is_empty());
}

#[test]
fn pagination_sends_count_start_sort() {
    let p = Pagination { count: Some(2), start: Some(40), sort: Some("-createdAt".to_string()) };
    assert_eq!(p.to_query(), pairs(&[("count", "2"), ("start", "40"), ("sort", "-createdAt")]));
    let p = Pagination { count: Some(2), ..Default::default() };
    assert_eq!(p.to_query(), pairs(&[("count", "2")]));
    let p = Pagination { start: Some(0), ..Default::default() };
    assert_eq!(p.to_query(), pairs(&[("start", "0")]));
    let mut list = pairs(&[("x", "y")]);
    p.push_onto(&mut list);
    assert_eq!(list, pairs(&[("x", "y"), ("start", "0")]));
}

#[test]
fn video_parameters() {
    let v = Videos {
        pagination: Pagination { count: Some(5), ..Default::default() },
        nsfw: Some(false),
        is_live: Some(true),
        tags_one_of: vec!["free software".to_string(), "libre".to_string()],
    };
    assert_eq!(
        v.to_query(),
        pairs(&[
            ("count", "5"),
            ("nsfw", "false"),
            ("isLive", "true"),
            ("tagsOneOf", "free software"),
            ("tagsOneOf", "libre"),
        ])
    );
    let api = peertube::Api::new("http://h");
    assert_eq!(
        api.accounts.videos("a", &v).url,
        "http://h/accounts/a/videos?count=5&nsfw=false&isLive=true&tagsOneOf=free+software&tagsOneOf=libre"
    );
}

#[test]
fn channel_and_rating_parameters() {
    let c = Channels { pagination: Pagination::default(), with_stats: Some(true) };
    assert_eq!(c.to_query(), pairs(&[("withStats", "true")]));
    let r = Ratings {
        pagination: Pagination { start: Some(1), ..Default::default() },
        rating: Some(Rating::Dislike),
    };
    assert_eq!(r.to_query(), pairs(&[("start", "1"), ("rating", "dislike")]));
    assert_eq!(Rating::Like.name(), "like");
    assert_eq!(Rating::Dislike.name(), "dislike");
}

#[test]
fn repeated_values_share_their_key() {
    let mut list = Vec::new();
    peertube::param::push_repeated(&mut list, "uris", &vec!["a".to_string(), "b".to_string()]);
    peertube::param::push_repeated(&mut list, "none", &Vec::new());
    assert_eq!(list, pairs(&[("uris", "a"), ("uris", "b")]));
}

#[test]
fn subscription_body() {
    let s = Subscription { uri: "lqdn@video.lqdn.fr".to_string() };
    assert_eq!(
        s.to_json(),
        Json::Object(vec![("uri".to_string(), Json::Text("lqdn@video.lqdn.fr".to_string()))])
    );
    assert_eq!(s.to_json().render(), "{\"uri\":\"lqdn@video.lqdn.fr\"}");
}
