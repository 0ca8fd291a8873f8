//! Reading and writing JSON text.

use peertube::Json;

fn text(s: &str) -> Json {
    Json::Text(s.to_string())
}

fn object(members: Vec<(&str, Json)>) -> Json {
    Json::Object(members.into_iter().map(|(k, v)| (k.to_string(), v)).collect())
}

#[test]
fn literals_are_read() {
    assert_eq!(Json::parse("null"), Some(Json::Null));
    assert_eq!(Json::parse("true"), Some(Json::Bool(true)));
    assert_eq!(Json::parse("false"), Some(Json::Bool(false)));
    for bad in ["nul", "nulll", "True", "fals", "tru", "NULL", "none", "n", "t", "f"] {
        assert_eq!(Json::parse(bad), None);
    }
}

#[test]
fn integers_are_read() {
    assert_eq!(Json::parse("0"), Some(Json::Integer(0)));
    assert_eq!(Json::parse("7"), Some(Json::Integer(7)));
    assert_eq!(Json::parse("-12"), Some(Json::Integer(-12)));
    assert_eq!(Json::parse("1234567890"), Some(Json::Integer(1234567890)));
    assert_eq!(Json::parse("9223372036854775807"), Some(Json::Integer(i64::MAX)));
    assert_eq!(Json::parse("-9223372036854775808"), Some(Json::Integer(i64::MIN)));
}

#[test]
fn numbers_beyond_64_bits_keep_their_text() {
    for literal in [
        "9223372036854775808",
        "-9223372036854775809",
        "18446744073709551615",
        "18446744073709551616",
        "123456789012345678901234567890",
    ] {
        assert_eq!(Json::parse(literal), Some(Json::Real(literal.to_string())));
    }
}

#[test]
fn fractions_and_exponents_keep_their_text() {
    for literal in
        ["1.5", "-0.25", "0.0", "1e3", "1E3", "2e+10", "2e-10", "-1.5E-7", "10.01e01", "-0", "-0.0"]
    {
        assert_eq!(Json::parse(literal), Some(Json::Real(literal.to_string())));
    }
}

#[test]
fn malformed_numbers_are_refused() {
    for bad in [
        "-", "+1", "01", "-01", "00", "1.", ".5", "1.e3", "1e", "1e+", "1E-", "1.5.2", "1e3e4", "0x10",
        "1 2", "--1", "1a", "1-", "Infinity", "NaN",
    ] {
        assert_eq!(Json::parse(bad), None, "{}", bad);
    }
}

#[test]
fn strings_are_read() {
    assert_eq!(Json::parse("\"\""), Some(text("")));
    assert_eq!(Json::parse("\"abc\""), Some(text("abc")));
    assert_eq!(Json::parse("\"caf\u{e9} \u{1f600}\""), Some(text("caf\u{e9} \u{1f600}")));
    assert_eq!(Json::parse("\"a\\\"b\\\\c\\/d\""), Some(text("a\"b\\c/d")));
    assert_eq!(Json::parse("\"\\b\\f\\n\\r\\t\""), Some(text("\u{8}\u{c}\n\r\t")));
    assert_eq!(Json::parse("\"\u{7f}\""), Some(text("\u{7f}")));
}

#[test]
fn unicode_escapes_are_read() {
    assert_eq!(Json::parse("\"\\u0041\""), Some(text("A")));
    assert_eq!(Json::parse("\"\\u00e9\\u00E9\""), Some(text("\u{e9}\u{e9}")));
    assert_eq!(Json::parse("\"\\u0000\""), Some(text("\u{0}")));
    assert_eq!(Json::parse("\"\\uffff\""), Some(text("\u{ffff}")));
    assert_eq!(Json::parse("\"\\ud7ff\\ue000\""), Some(text("\u{d7ff}\u{e000}")));
    assert_eq!(Json::parse("\"\\ud83d\\ude00\""), Some(text("\u{1f600}")));
    assert_eq!(Json::parse("\"\\uD800\\uDC00\""), Some(text("\u{10000}")));
    assert_eq!(Json::parse("\"\\udbff\\udfff\""), Some(text("\u{10ffff}")));
    assert_eq!(Json::parse("\"x\\ud83d\\ude00y\""), Some(text("x\u{1f600}y")));
}

#[test]
fn malformed_strings_are_refused() {
    for bad in [
        "\"",
        "\"abc",
        "abc\"",
        "\"a\nb\"",
        "\"a\tb\"",
        "\"\u{1f}\"",
        "\"\\\"",
        "\"\\x41\"",
        "\"\\u\"",
        "\"\\u12\"",
        "\"\\u12g4\"",
        "\"\\ud83d\"",
        "\"\\ud83dx\"",
        "\"\\ud83d\\n\"",
        "\"\\ud83d\\u0041\"",
        "\"\\ud83d\\ud83d\"",
        "\"\\ude00\"",
        "\"\\ude00\\ud83d\"",
        "'a'",
    ] {
        assert_eq!(Json::parse(bad), None, "{}", bad);
    }
}

#[test]
fn arrays_are_read() {
    assert_eq!(Json::parse("[]"), Some(Json::Array(Vec::new())));
    assert_eq!(Json::parse("[ \n ]"), Some(Json::Array(Vec::new())));
    assert_eq!(Json::parse("[1]"), Some(Json::Array(vec![Json::Integer(1)])));
    assert_eq!(
        Json::parse("[1, \"a\" ,null,[true,[]] , {}]"),
        Some(Json::Array(vec![
            Json::Integer(1),
            text("a"),
            Json::Null,
            Json::Array(vec![Json::Bool(true), Json::Array(Vec::new())]),
            Json::Object(Vec::new()),
        ]))
    );
    for bad in ["[", "]", "[1", "[1,", "[1,]", "[,1]", "[,]", "[1 2]", "[1;2]", "[1]]", "[[1]", "[}"] {
        assert_eq!(Json::parse(bad), None, "{}", bad);
    }
}

#[test]
fn objects_are_read() {
    assert_eq!(Json::parse("{}"), Some(Json::Object(Vec::new())));
    assert_eq!(Json::parse("{ \t}"), Some(Json::Object(Vec::new())));
    assert_eq!(Json::parse("{\"a\":1}"), Some(object(vec![("a", Json::Integer(1))])));
    assert_eq!(
        Json::parse(" { \"b\" : [ ] , \"a\" : { \"\" : null } , \"b\":\"again\" } "),
        Some(object(vec![
            ("b", Json::Array(Vec::new())),
            ("a", object(vec![("", Json::Null)])),
            ("b", text("again")),
        ]))
    );
    assert_eq!(
        Json::parse("{\"k\\u0065y\":true}"),
        Some(object(vec![("key", Json::Bool(true))]))
    );
    for bad in [
        "{", "}", "{\"a\"}", "{\"a\":}", "{\"a\":1", "{\"a\":1,}", "{,}", "{a:1}", "{1:1}",
        "{\"a\" 1}", "{\"a\":1 \"b\":2}", "{\"a\":1}}", "{\"a\":1]", "{\"a\"::1}", "{null:1}",
    ] {
        assert_eq!(Json::parse(bad), None, "{}", bad);
    }
}

#[test]
fn white_space_may_surround_a_value() {
    assert_eq!(Json::parse(" \t\r\n 1 \n"), Some(Json::Integer(1)));
    assert_eq!(Json::parse("\n\"a\"\t"), Some(text("a")));
    assert_eq!(Json::parse(""), None);
    assert_eq!(Json::parse("   "), None);
    assert_eq!(Json::parse("\u{a0}1"), None);
    assert_eq!(Json::parse("\u{feff}1"), None);
    assert_eq!(Json::parse("1\u{c}"), None);
}

#[test]
fn one_value_only() {
    for bad in ["1 1", "null null", "{} {}", "[] x", "\"a\" \"b\"", "true,", "1//", "1/**/"] {
        assert_eq!(Json::parse(bad), None, "{}", bad);
    }
}

#[test]
fn nesting_is_limited_to_127() {
    let nested = |n: usize| format!("{}{}", "[".repeat(n), "]".repeat(n));
    assert!(Json::parse(&nested(1)).is_some());
    assert!(Json::parse(&nested(126)).is_some());
    assert!(Json::parse(&nested(127)).is_some());
    assert_eq!(Json::parse(&nested(128)), None);
    assert_eq!(Json::parse(&nested(1000)), None);
    let objects = |n: usize| format!("{}1{}", "{\"a\":".repeat(n), "}".repeat(n));
    assert!(Json::parse(&objects(127)).is_some());
    assert_eq!(Json::parse(&objects(128)), None);
    let wide = format!("[{}]", vec!["[]"; 500].join(","));
    assert!(Json::parse(&wide).is_some());
}

#[test]
fn values_are_written_compactly() {
    assert_eq!(Json::Null.render(), "null");
    assert_eq!(Json::Bool(true).render(), "true");
    assert_eq!(Json::Bool(false).render(), "false");
    assert_eq!(Json::Integer(0).render(), "0");
    assert_eq!(Json::Integer(-42).render(), "-42");
    assert_eq!(Json::Integer(i64::MAX).render(), "9223372036854775807");
    assert_eq!(Json::Integer(i64::MIN).render(), "-9223372036854775808");
    assert_eq!(Json::Real("1.5e3".to_string()).render(), "1.5e3");
    assert_eq!(text("abc").render(), "\"abc\"");
    assert_eq!(Json::Array(Vec::new()).render(), "[]");
    assert_eq!(Json::Object(Vec::new()).render(), "{}");
    assert_eq!(
        Json::Array(vec![Json::Integer(1), text("a"), Json::Null, Json::Array(vec![Json::Bool(true)])])
            .render(),
        "[1,\"a\",null,[true]]"
    );
    assert_eq!(
        object(vec![("b", Json::Integer(1)), ("a", object(vec![("x", Json::Null)])), ("b", text("2"))])
            .render(),
        "{\"b\":1,\"a\":{\"x\":null},\"b\":\"2\"}"
    );
}

#[test]
fn strings_are_escaped_when_written() {
    assert_eq!(text("\"").render(), "\"\\\"\"");
    assert_eq!(text("\\").render(), "\"\\\\\"");
    assert_eq!(text("/").render(), "\"/\"");
    assert_eq!(text("\u{8}\u{9}\u{a}\u{c}\u{d}").render(), "\"\\b\\t\\n\\f\\r\"");
    assert_eq!(text("\u{0}\u{1}\u{b}\u{e}\u{1f}").render(), "\"\\u0000\\u0001\\u000b\\u000e\\u001f\"");
    assert_eq!(text(" \u{7f}\u{e9}\u{1f600}").render(), "\" \u{7f}\u{e9}\u{1f600}\"");
    assert_eq!(object(vec![("a\"b", Json::Null)]).render(), "{\"a\\\"b\":null}");
}

#[test]
fn render_appends() {
    let mut out = "body=".to_string();
    Json::Array(vec![Json::Integer(1)]).render_into(&mut out);
    Json::Null.render_into(&mut out);
    assert_eq!(out, "body=[1]null");
}

#[test]
fn what_is_written_reads_back() {
    let every_char: String = (0u32..0x250).filter_map(char::from_u32).collect();
    let values = vec![
        Json::Null,
        Json::Bool(true),
        Json::Integer(i64::MIN),
        Json::Integer(i64::MAX),
        Json::Real("-1.25e-3".to_string()),
        Json::Real("18446744073709551616".to_string()),
        text(&every_char),
        text("\u{10000}\u{10ffff}\u{d7ff}\u{e000}"),
        Json::Array(vec![Json::Array(Vec::new()), Json::Object(Vec::new())]),
        object(vec![(every_char.as_str(), Json::Integer(1)), ("", text(""))]),
    ];
    for value in &values {
        assert_eq!(Json::parse(&value.render()).as_ref(), Some(value));
    }
    let all = Json::Array(values);
    assert_eq!(Json::parse(&all.render()), Some(all));
}

#[test]
fn members_are_looked_up_by_key() {
    let json = Json::parse("{\"a\":1,\"b\":\"x\",\"c\":true,\"d\":null,\"a\":2,\"e\":-1,\"\":0}").unwrap();
    assert_eq!(json.get("a"), Some(&Json::Integer(2)));
    assert_eq!(json.get("b"), Some(&text("x")));
    assert_eq!(json.get(""), Some(&Json::Integer(0)));
    assert_eq!(json.get("A"), None);
    assert_eq!(json.get("ab"), None);
    assert_eq!(json.natural("a"), Some(2));
    assert_eq!(json.natural("e"), None);
    assert_eq!(json.natural("b"), None);
    assert_eq!(json.natural("missing"), None);
    assert_eq!(json.text("b"), Some("x".to_string()));
    assert_eq!(json.text("a"), None);
    assert_eq!(json.flag("c"), Some(true));
    assert_eq!(json.flag("d"), None);
    assert_eq!(json.optional_text("b"), Some(Some("x".to_string())));
    assert_eq!(json.optional_text("d"), Some(None));
    assert_eq!(json.optional_text("missing"), Some(None));
    assert_eq!(json.optional_text("a"), None);
}

#[test]
fn only_objects_have_members() {
    for other in ["null", "1", "\"a\"", "[{\"a\":1}]", "true"] {
        let json = Json::parse(other).unwrap();
        assert_eq!(json.get("a"), None);
        assert_eq!(json.natural("a"), None);
        assert_eq!(json.text("a"), None);
        assert_eq!(json.flag("a"), None);
    }
}

#[test]
fn large_natural_is_read_in_full() {
    let json = Json::parse("{\"n\":9223372036854775807,\"m\":9223372036854775808}").unwrap();
    assert_eq!(json.natural("n"), Some(9223372036854775807));
    assert_eq!(json.natural("m"), None);
}
