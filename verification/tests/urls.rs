//! The library's escaping held against the `url` project's crates.

use peertube::percent::{push_escaped, Place};
use peertube::query::push_query;
use percent_encoding::{percent_decode_str, utf8_percent_encode, AsciiSet, NON_ALPHANUMERIC};

fn escaped(place: Place, text: &str) -> String {
    let mut out = String::new();
    push_escaped(&mut out, place, text);
    out
}

fn all_but_unreserved() -> &'static AsciiSet {
    Box::leak(Box::new(NON_ALPHANUMERIC.remove(b'-').remove(b'.').remove(b'_').remove(b'~')))
}

fn samples() -> Vec<String> {
    let mut samples: Vec<String> = (0u32..0x3000)
        .chain(0xfff0..0x10010)
        .chain(0x10fff0..0x110000)
        .filter_map(char::from_u32)
        .map(|c| c.to_string())
        .collect();
    for text in [
        "",
        "lqdn@video.lqdn.fr",
        "big buck bunny",
        "a&b=c?d#e/f",
        "100% sure + more",
        "../../etc/passwd",
        "k\u{e9}y \u{1f600} v\u{e4}lue",
        "-createdAt",
        "AZaz09*-._~",
    ] {
        samples.push(text.to_string());
    }
    samples
}

#[test]
fn query_escaping_is_the_form_encoding() {
    for text in samples() {
        let theirs: String = form_urlencoded::byte_serialize(text.as_bytes()).collect();
        assert_eq!(escaped(Place::Query, &text), theirs);
    }
}

#[test]
fn segment_escaping_is_percent_encoding_of_all_but_unreserved() {
    let set = all_but_unreserved();
    for text in samples() {
        assert_eq!(escaped(Place::Segment, &text), utf8_percent_encode(&text, set).to_string());
    }
}

#[test]
fn query_string_is_what_the_form_serializer_writes() {
    let lists: Vec<Vec<(String, String)>> = vec![
        Vec::new(),
        vec![("count".to_string(), "2".to_string())],
        vec![
            ("uris".to_string(), "lqdn@video.lqdn.fr".to_string()),
            ("uris".to_string(), "framasoft@framatube.org".to_string()),
        ],
        vec![
            ("a b".to_string(), "c&d".to_string()),
            ("".to_string(), "".to_string()),
            ("=".to_string(), "?".to_string()),
            ("k\u{e9}y".to_string(), "\u{1f600}".to_string()),
        ],
        samples().into_iter().take(200).map(|s| (s.clone(), s)).collect(),
    ];
    for pairs in lists {
        let mut ours = String::new();
        push_query(&mut ours, &pairs);
        let theirs = form_urlencoded::Serializer::new(String::new()).extend_pairs(&pairs).finish();
        assert_eq!(ours, theirs);
    }
}

#[test]
fn escaped_segment_decodes_to_the_name() {
    for text in samples() {
        let ours = escaped(Place::Segment, &text);
        assert_eq!(percent_decode_str(&ours).decode_utf8().unwrap(), text.as_str());
    }
}

#[test]
fn query_string_parses_to_its_pairs() {
    let pairs: Vec<(String, String)> = samples()
        .into_iter()
        .enumerate()
        .map(|(i, value)| (format!("k{}", i % 7), value))
        .collect();
    let mut ours = String::new();
    push_query(&mut ours, &pairs);
    let parsed: Vec<(String, String)> = form_urlencoded::parse(ours.as_bytes()).into_owned().collect();
    assert_eq!(parsed, pairs);
}
