use sbc::json::Json;
use sbc::parse::parse_json;
use sbc::ser::to_text;
use sbc::strip::strip_comments;
use sbc::text::str_chars;

#[test]
fn parses_scalars() {
    assert_eq!(parse_json("null").unwrap(), Json::Null);
    assert_eq!(parse_json("true").unwrap(), Json::Bool(true));
    assert_eq!(parse_json("false").unwrap(), Json::Bool(false));
    assert_eq!(parse_json(" 42 ").unwrap(), Json::num_of("42"));
    assert_eq!(parse_json("-12.5e3").unwrap(), Json::num_of("-12.5e3"));
    assert_eq!(parse_json(r#""hi""#).unwrap(), Json::str_of("hi"));
}

#[test]
fn parses_nested_structures() {
    let v = parse_json(r#"{"a": [1, {"b": null}], "c": "x"}"#).unwrap();
    let expected = Json::Obj(vec![
        (
            str_chars("a"),
            Json::Arr(vec![
                Json::num_of("1"),
                Json::Obj(vec![(str_chars("b"), Json::Null)]),
            ]),
        ),
        (str_chars("c"), Json::str_of("x")),
    ]);
    assert_eq!(v, expected);
}

#[test]
fn decodes_escapes() {
    assert_eq!(
        parse_json(r#""a\n\t\\\"A""#).unwrap(),
        Json::str_of("a\n\t\\\"A")
    );
}

#[test]
fn decodes_unicode_escape() {
    assert_eq!(parse_json(r#""\u0041\u00e9""#).unwrap(), Json::str_of("A\u{e9}"));
}

#[test]
fn decodes_surrogate_pair() {
    assert_eq!(parse_json(r#""\uD83D\uDE00""#).unwrap(), Json::str_of("\u{1F600}"));
}

#[test]
fn rejects_lone_surrogate() {
    assert!(parse_json(r#""\uD83D""#).is_none());
}

#[test]
fn rejects_malformed_documents() {
    assert!(parse_json("").is_none());
    assert!(parse_json("{").is_none());
    assert!(parse_json("[1,]").is_none());
    assert!(parse_json("{\"a\":1,}").is_none());
    assert!(parse_json("01").is_none());
    assert!(parse_json("1 2").is_none());
    assert!(parse_json("\"unterminated").is_none());
    assert!(parse_json("tru").is_none());
    assert!(parse_json("{\"a\" 1}").is_none());
}

#[test]
fn rejects_raw_control_character_in_string() {
    assert!(parse_json("\"a\nb\"").is_none());
}

#[test]
fn keeps_duplicate_keys_in_order() {
    let v = parse_json(r#"{"k": 1, "k": 2}"#).unwrap();
    let expected = Json::Obj(vec![
        (str_chars("k"), Json::num_of("1")),
        (str_chars("k"), Json::num_of("2")),
    ]);
    assert_eq!(v, expected);
}

#[test]
fn serializer_round_trips_through_parser() {
    let text = r#"{"a":[1,true,null,"x\n"],"b":{"c":-2.5e-1},"d":[]}"#;
    let v = parse_json(text).unwrap();
    let out = to_text(&v);
    assert_eq!(parse_json(&out).unwrap(), v);
}

#[test]
fn serializer_escapes_controls() {
    let v = Json::str_of("q\"\\\u{8}\u{c}\n\r\t\u{1}");
    assert_eq!(to_text(&v), r#""q\"\\\b\f\n\r\t\u0001""#);
}

#[test]
fn serializer_agrees_with_reference_implementation() {
    let text = r#"{"a":[1,true,null,"x"],"b":{"c":-2.5}}"#;
    let v = parse_json(text).unwrap();
    let ours = to_text(&v);
    let reference: serde_json::Value = serde_json::from_str(text).unwrap();
    let theirs = serde_json::to_string(&reference).unwrap();
    assert_eq!(ours, theirs);
}

#[test]
fn strip_is_fixed_point_on_comment_free_input() {
    let s = r#"{"a": "no comments here", "b": [1, 2]}"#;
    assert_eq!(strip_comments(s), s);
}

#[test]
fn strip_preserves_comment_lookalikes_inside_strings() {
    let s = r#"{"url": "http://example/*not a comment*/", "p": "a//b"}"#;
    assert_eq!(strip_comments(s), s);
}

#[test]
fn strip_removes_line_and_block_comments() {
    let s = "{\n\"a\": 1, // tail\n\"b\": /* mid */ 2\n}";
    assert_eq!(strip_comments(s), "{\n\"a\": 1, \n\"b\":  2\n}");
}

#[test]
fn strip_consumes_unterminated_block_comment() {
    assert_eq!(strip_comments("{\"a\":1} /* runs off"), "{\"a\":1} ");
}

#[test]
fn strip_respects_escaped_quotes() {
    let s = r#"{"a": "quote \" then // still a string"}"#;
    assert_eq!(strip_comments(s), s);
}
