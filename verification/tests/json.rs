use transcoder_core::json::{from_value, number, parse, string, to_value, Json};

#[test]
fn members_are_written_in_order_of_their_keys() {
    let j = parse("{\"b\": [1, 2.5], \"a\": \"x\\n\"}").unwrap();
    assert_eq!(j.render(), "{\"a\":\"x\\n\",\"b\":[1,2.5]}");
    assert!(matches!(j, Json::Object(_)));
}

#[test]
fn every_kind_of_value_reads_back() {
    for text in [
        "null",
        "true",
        "false",
        "0",
        "-7",
        "18446744073709551615",
        "1.5",
        "\"\\\"quoted\\\" \\\\ \\u0001 \u{4e2d}\"",
        "[]",
        "{}",
        "[1,[2,[3,{}]],null]",
        "{\"a\":{\"b\":{\"c\":[]}}}",
    ] {
        let j = parse(text).unwrap();
        assert_eq!(parse(&j.render()).unwrap().render(), j.render());
        assert_eq!(j.render(), text);
    }
}

#[test]
fn what_is_no_json_is_not_read() {
    for text in ["", " ", "{", "{\"a\":}", "tru", "[1,]", "1 2", "'a'"] {
        assert!(parse(text).is_none());
    }
}

#[test]
fn nesting_is_read_up_to_the_limit() {
    let deep = |n: usize| "[".repeat(n) + &"]".repeat(n);
    assert!(parse(&deep(127)).is_some());
    assert!(parse(&deep(128)).is_none());
}

#[test]
fn plain_notation_is_read() {
    let j = parse("{\"type\":\"content_block_start\",\"index\":12,\"content_block\":{\"type\":\"text\",\"text\":\"\"}}").unwrap();
    assert_eq!(j.get_str("type"), Some("content_block_start"));
    assert_eq!(j.get("index").unwrap().render(), "12");
    assert_eq!(j.get("content_block").unwrap().get_str("type"), Some("text"));
    assert_eq!(j.get("content_block").unwrap().get_str("text"), Some(""));
}

#[test]
fn the_later_of_two_members_counts() {
    let j = Json::Object(vec![
        ("k".to_string(), number(1)),
        ("l".to_string(), Json::Null),
        ("k".to_string(), number(2)),
    ]);
    assert_eq!(j.get("k").unwrap().render(), "2");
    assert_eq!(j.render(), "{\"k\":2,\"l\":null}");
    assert!(j.get("m").is_none());
    assert_eq!(parse("{\"k\":1,\"k\":2}").unwrap().render(), "{\"k\":2}");
}

#[test]
fn parts_of_a_value() {
    let j = parse("{\"s\":\"text\",\"a\":[\"x\",\"y\"]}").unwrap();
    assert_eq!(j.get_str("s"), Some("text"));
    assert_eq!(j.get_str("a"), None);
    assert_eq!(j.get("a").unwrap().as_array().unwrap().len(), 2);
    assert!(j.as_array().is_none());
    assert!(j.as_str().is_none());
    assert_eq!(string("s").as_str(), Some("s"));
    assert!(string("s").get("s").is_none());
    assert_eq!(j.clone().render(), j.render());
}

#[test]
fn values_cross_over_and_back() {
    let text = "{\"a\":[1,-2,3.5,\"x\",null,true],\"b\":{\"c\":\"d\"}}";
    let v: serde_json::Value = serde_json::from_str(text).unwrap();
    let j = from_value(v.clone());
    assert_eq!(j.render(), text);
    assert_eq!(to_value(&j), v);
}
