use codex_usage_tray::json::{parse_json, Json};

#[test]
fn documents_are_read() {
    let document = parse_json(r#"{"a":1,"b":[true,null,"x"],"c":{"d":-2.5}}"#).unwrap();
    assert_eq!(document.get("a").unwrap().as_i64(), Some(1));
    assert_eq!(document.get("a").unwrap().as_u64(), Some(1));
    assert_eq!(
        document.get("a").unwrap().as_real().map(|d| f64::from_bits(d.bits)),
        Some(1.0)
    );
    assert!(matches!(document.get("b"), Some(Json::List(items)) if items.len() == 3));
    let d = document.get("c").unwrap().get("d").unwrap();
    assert_eq!(d.as_i64(), None);
    assert_eq!(d.as_u64(), None);
    assert_eq!(d.as_real().map(|d| f64::from_bits(d.bits)), Some(-2.5));
    assert_eq!(d.as_str(), None);
    assert!(document.get("missing").is_none());
    assert!(document.get("b").unwrap().get("a").is_none());
}

#[test]
fn numbers_keep_their_range() {
    let big = parse_json("18446744073709551615").unwrap();
    assert_eq!(big.as_i64(), None);
    assert_eq!(big.as_u64(), Some(u64::MAX));
    let negative = parse_json("-5").unwrap();
    assert_eq!(negative.as_i64(), Some(-5));
    assert_eq!(negative.as_u64(), None);
}

#[test]
fn what_is_no_document_is_refused() {
    for text in ["", "{", "{\"a\":}", "nul", "[1,]", "{} {}"] {
        assert!(parse_json(text).is_none(), "{text:?}");
    }
    assert!(matches!(parse_json(" null "), Some(Json::Null)));
}

#[test]
fn the_last_of_two_equal_members_counts() {
    let document = parse_json(r#"{"a":1,"a":2}"#).unwrap();
    assert_eq!(document.get("a").unwrap().as_i64(), Some(2));
}
