use gemini_fastapi_rs::json::{self, Json};

#[test]
fn values_are_read_and_written() {
    for text in [
        "null",
        "true",
        "-1.5e3",
        "[]",
        "{}",
        "[1,[2,\"x\"],{\"a\":null,\"b\":[]}]",
        "\"quote \\\" slash \\\\ line \\n tab \\t bell \\u0007 图\"",
    ] {
        let library = json::parse(text).unwrap().to_text();
        let outside = serde_json::from_str::<serde_json::Value>(text)
            .unwrap()
            .to_string();
        assert_eq!(library, outside);
    }
}

#[test]
fn every_control_character_is_escaped() {
    for code in 0u32..128 {
        let text = format!("a{}b", char::from_u32(code).unwrap());
        assert_eq!(
            json::string(&text).to_text(),
            serde_json::to_string(&text).unwrap()
        );
    }
}

#[test]
fn what_is_no_json_is_not_read() {
    assert!(json::parse("").is_none());
    assert!(json::parse("{").is_none());
    assert!(json::parse("1 2").is_none());
}

#[test]
fn values_of_the_parser_are_opened() {
    let value = serde_json::from_str::<serde_json::Value>(r#"{"b":[1,true],"a":"x"}"#).unwrap();
    let opened = json::from_value(value);
    assert_eq!(opened.to_text(), r#"{"a":"x","b":[1,true]}"#);
    assert_eq!(opened.get_str("a"), Some("x"));
    assert!(opened.get_str("b").is_none());
    assert!(opened.get("c").is_none());
    assert_eq!(opened.get("b").unwrap().item(1).unwrap().as_bool(), Some(true));
    assert!(opened.get("b").unwrap().item(2).is_none());
}

#[test]
fn numbers_are_written_in_decimal() {
    assert_eq!(json::number(u64::MAX).to_text(), "18446744073709551615");
    assert_eq!(json::integer(i64::MIN).to_text(), "-9223372036854775808");
    assert_eq!(json::integer(-7).to_text(), "-7");
    assert_eq!(json::integer(0).to_text(), "0");
}

#[test]
fn copies_say_the_same() {
    let value = json::parse(r#"{"a":[1,"x",null,{"b":false}]}"#).unwrap();
    assert_eq!(value.copy().to_text(), value.to_text());
    assert!(json::copy_opt(&None).is_none());
    assert!(matches!(json::copy_opt(&Some(Json::Null)), Some(Json::Null)));
}
