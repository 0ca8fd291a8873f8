//! The library's reading and writing of JSON held against `serde_json`.

use peertube::Json;
use serde_json::Value;

/// Whether `json` and `value` are the same JSON value. A number that the
/// library keeps as text is compared by what the text reads as.
fn same(json: &Json, value: &Value) -> bool {
    match (json, value) {
        (Json::Null, Value::Null) => true,
        (Json::Bool(a), Value::Bool(b)) => a == b,
        (Json::Integer(a), Value::Number(b)) => b.as_i64() == Some(*a),
        (Json::Real(a), Value::Number(b)) => match a.parse::<u64>() {
            Ok(n) => b.as_u64() == Some(n),
            Err(_) => !b.is_i64() && a.parse::<f64>().ok() == b.as_f64(),
        },
        (Json::Text(a), Value::String(b)) => a == b,
        (Json::Array(a), Value::Array(b)) => {
            a.len() == b.len() && a.iter().zip(b).all(|(x, y)| same(x, y))
        }
        (Json::Object(a), Value::Object(b)) => {
            a.iter().all(|(k, _)| b.contains_key(k))
                && b.iter().all(|(k, v)| json.get(k).is_some_and(|x| same(x, v)))
        }
        _ => false,
    }
}

const ACCEPTED: &[&str] = &[
    "null",
    "true",
    "false",
    "0",
    "-0",
    "1",
    "-1",
    "9223372036854775807",
    "-9223372036854775808",
    "9223372036854775808",
    "18446744073709551615",
    "1.5",
    "-1.5e10",
    "1E-2",
    "0.000001",
    "1e0",
    "\"\"",
    "\"abc\"",
    "\"a\\nb\\t\\\"c\\\"\\\\ \\/ \\b\\f\\r\"",
    "\"\\u0041\\u00e9\\u20AC\"",
    "\"\\ud83d\\ude00\"",
    "\"\\uDBFF\\uDFFF\"",
    "\"caf\u{e9} \u{1f600} \u{7f}\"",
    "[]",
    "[ ]",
    "[1,2,3]",
    "[[],[[]],{}]",
    "{}",
    "{\"a\":1}",
    "{\"a\":{\"b\":{\"c\":[1,{\"d\":null}]}}}",
    "{\"a\":1,\"a\":2}",
    " \n\t\r {\"total\" : 2 , \"data\" : [ { \"id\" : 1 } , { \"id\" : 2 } ] } \n",
    "{\"error\":\"Not found\",\"code\":\"not_found\",\"status\":404}",
    "{\"lqdn@video.lqdn.fr\":false}",
];

const REFUSED: &[&str] = &[
    "",
    " ",
    "nul",
    "tru",
    "falsey",
    "01",
    "-",
    "1.",
    ".1",
    "1e",
    "1e+",
    "+1",
    "0x1",
    "\"",
    "\"a",
    "\"\\x\"",
    "\"\\u12\"",
    "\"\\ud83d\"",
    "\"\\ude00\"",
    "\"\\ud83d\\u0041\"",
    "\"a\nb\"",
    "\"\u{1}\"",
    "[",
    "[1",
    "[1,]",
    "[,]",
    "[1 2]",
    "{",
    "{\"a\"}",
    "{\"a\":}",
    "{\"a\":1,}",
    "{a:1}",
    "{\"a\":1 \"b\":2}",
    "1 2",
    "[] []",
    "null x",
    "'a'",
    "// c\n1",
];

#[test]
fn accepted_texts_read_as_serde_json_reads_them() {
    for text in ACCEPTED {
        let ours = Json::parse(text);
        let theirs = serde_json::from_str::<Value>(text);
        assert!(theirs.is_ok(), "{}", text);
        assert!(ours.is_some(), "{}", text);
        assert!(same(&ours.unwrap(), &theirs.unwrap()), "{}", text);
    }
}

#[test]
fn refused_texts_are_refused_by_serde_json_too() {
    for text in REFUSED {
        assert_eq!(Json::parse(text), None, "{}", text);
        assert!(serde_json::from_str::<Value>(text).is_err(), "{}", text);
    }
}

#[test]
fn nesting_limit_is_that_of_serde_json() {
    for depth in [1usize, 2, 64, 127, 128, 129, 200] {
        let text = format!("{}{}", "[".repeat(depth), "]".repeat(depth));
        assert_eq!(
            Json::parse(&text).is_some(),
            serde_json::from_str::<Value>(&text).is_ok(),
            "{}",
            depth
        );
    }
}

#[test]
fn written_text_is_what_serde_json_writes() {
    let every_char: String = (0u32..0x300).filter_map(char::from_u32).collect();
    let strings = [
        String::new(),
        "abc".to_string(),
        "\"\\/\u{8}\u{c}\n\r\t".to_string(),
        every_char,
        "\u{ffff}\u{10000}\u{10ffff}".to_string(),
    ];
    for s in &strings {
        assert_eq!(
            Json::Text(s.clone()).render(),
            serde_json::to_string(&Value::String(s.clone())).unwrap()
        );
    }
    for n in [0i64, 1, -1, 42, -42, 1000000007, i64::MAX, i64::MIN] {
        assert_eq!(Json::Integer(n).render(), serde_json::to_string(&Value::from(n)).unwrap());
    }
    let value = Json::Array(vec![
        Json::Null,
        Json::Bool(true),
        Json::Bool(false),
        Json::Integer(-7),
        Json::Text("a\"b".to_string()),
        Json::Array(Vec::new()),
        Json::Object(vec![
            ("a".to_string(), Json::Integer(1)),
            ("b".to_string(), Json::Array(vec![Json::Object(Vec::new())])),
        ]),
    ]);
    let text = value.render();
    let theirs = serde_json::from_str::<Value>(&text).unwrap();
    assert_eq!(text, serde_json::to_string(&theirs).unwrap());
    assert!(same(&value, &theirs));
}

#[test]
fn text_written_by_serde_json_reads_back() {
    let every_char: String = (0u32..0x300).filter_map(char::from_u32).collect();
    let text = serde_json::to_string(&Value::Array(vec![
        Value::String(every_char.clone()),
        Value::from(u64::MAX),
        Value::from(i64::MIN),
        Value::from(0.1),
        Value::from(1e300),
        Value::from(-2.5e-8),
    ]))
    .unwrap();
    let ours = Json::parse(&text).unwrap();
    assert!(same(&ours, &serde_json::from_str::<Value>(&text).unwrap()));
    assert_eq!(ours.render(), text);
}
