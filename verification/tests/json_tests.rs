use rslci::json::{parse_json, Json};

#[test]
fn parses_scalars() {
    assert!(matches!(parse_json("null"), Some(Json::Null)));
    assert!(matches!(parse_json("true"), Some(Json::Bool(true))));
    assert!(matches!(parse_json("false"), Some(Json::Bool(false))));
    assert!(matches!(parse_json("42"), Some(Json::Num(42))));
    assert!(matches!(parse_json("  7 "), Some(Json::Num(7))));
}

#[test]
fn parses_strings_with_escapes() {
    match parse_json(r#""a\"b\\c\nd""#) {
        Some(Json::Str(s)) => assert_eq!(s, "a\"b\\c\nd"),
        _ => panic!("expected a string"),
    }
}

#[test]
fn parses_nested_values() {
    let j = parse_json(r#"{"a": [1, {"b": "c"}], "d": null}"#).unwrap();
    match j {
        Json::Obj(ms) => {
            assert_eq!(ms.len(), 2);
            assert_eq!(ms[0].0, "a");
            match &ms[0].1 {
                Json::Arr(a) => {
                    assert_eq!(a.len(), 2);
                    assert!(matches!(a[0], Json::Num(1)));
                },
                _ => panic!("expected array"),
            }
        },
        _ => panic!("expected object"),
    }
}

#[test]
fn rejects_malformed_documents() {
    assert!(parse_json("").is_none());
    assert!(parse_json("{").is_none());
    assert!(parse_json("[1,]").is_none());
    assert!(parse_json(r#"{"a"}"#).is_none());
    assert!(parse_json("1 2").is_none());
    assert!(parse_json("-").is_none());
    assert!(parse_json("1.").is_none());
    assert!(parse_json("1e").is_none());
    assert!(parse_json(".5").is_none());
    assert!(parse_json(r#""unterminated"#).is_none());
}

#[test]
fn number_at_u64_max_still_parses() {
    assert!(matches!(
        parse_json("18446744073709551615"),
        Some(Json::Num(18446744073709551615))
    ));
}

#[test]
fn other_numeric_forms_are_consumed_as_raw_lexemes() {
    match parse_json("-1") {
        Some(Json::NumRaw(s)) => assert_eq!(s, "-1"),
        _ => panic!("expected a raw number"),
    }
    match parse_json("1.5") {
        Some(Json::NumRaw(s)) => assert_eq!(s, "1.5"),
        _ => panic!("expected a raw number"),
    }
    match parse_json("-2.5e-3") {
        Some(Json::NumRaw(s)) => assert_eq!(s, "-2.5e-3"),
        _ => panic!("expected a raw number"),
    }
    match parse_json("1E3") {
        Some(Json::NumRaw(s)) => assert_eq!(s, "1E3"),
        _ => panic!("expected a raw number"),
    }
    match parse_json("18446744073709551616") {
        Some(Json::NumRaw(s)) => assert_eq!(s, "18446744073709551616"),
        _ => panic!("expected a raw number"),
    }
}

#[test]
fn unicode_escapes_decode_to_their_characters() {
    match parse_json(r#""\u0041\u00e5\u00C5""#) {
        Some(Json::Str(s)) => assert_eq!(s, "A\u{e5}\u{c5}"),
        _ => panic!("expected a string"),
    }
}

#[test]
fn surrogate_and_short_unicode_escapes_are_rejected() {
    assert!(parse_json(r#""\uD800""#).is_none());
    assert!(parse_json(r#""\uDFFF""#).is_none());
    assert!(parse_json(r#""\u00g1""#).is_none());
    assert!(parse_json(r#""\u12""#).is_none());
}
