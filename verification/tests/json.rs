use fedigents::json::{from_value, to_value, Fields, Json, NESTING};

#[test]
fn text_and_values_agree() {
    let text = r#"{"a":[1,-2,2.5,"x",null,true],"b":{"c":""}}"#;
    let json = Json::from_text(text).unwrap();
    assert_eq!(json.to_text(), text);
    assert_eq!(json.get("b").unwrap().get("c").unwrap().as_str(), Some(""));
    assert_eq!(json.get("a").unwrap().as_array().unwrap().len(), 6);
}

#[test]
fn broken_text_is_no_json() {
    assert!(Json::from_text("{").is_none());
    assert!(Json::from_text("").is_none());
}

#[test]
fn members_are_written_in_the_order_of_their_keys() {
    let json = Fields::new()
        .with("b", Json::count(2))
        .with("a", Json::text("one"))
        .finish();
    assert_eq!(json.to_text(), r#"{"a":"one","b":2}"#);
}

#[test]
fn the_later_of_two_members_counts() {
    let json = Fields::new()
        .with("a", Json::count(1))
        .with("a", Json::count(2))
        .finish();
    assert_eq!(json.to_text(), r#"{"a":2}"#);
    assert!(matches!(json.get("a"), Some(Json::Number(n)) if n.as_u64() == Some(2)));
}

#[test]
fn the_largest_count_is_written_in_full() {
    assert_eq!(Json::count(u64::MAX).to_text(), "18446744073709551615");
}

#[test]
fn without_takes_one_member_out() {
    let json = Json::from_text(r#"{"a":1,"b":2}"#).unwrap();
    assert_eq!(json.without("a").to_text(), r#"{"b":2}"#);
    assert_eq!(Json::text("a").without("a").to_text(), "\"a\"");
}

#[test]
fn other_values_have_no_members() {
    assert!(Json::from_text("[1]").unwrap().get("0").is_none());
    assert!(Json::Null.get("a").is_none());
    assert!(Json::count(1).as_str().is_none());
    assert!(Json::count(1).as_array().is_none());
}

#[test]
fn values_of_the_json_crate_come_and_go() {
    let value: serde_json::Value = serde_json::from_str(r#"{"k":["v",3,false]}"#).unwrap();
    assert_eq!(to_value(&from_value(&value)), value);
    assert_eq!(from_value(&value).copy().to_text(), value.to_string());
}

#[test]
fn optional_texts_are_texts_or_null() {
    assert_eq!(Json::optional_text(&Some("x".to_owned())).to_text(), "\"x\"");
    assert_eq!(Json::optional_text(&None).to_text(), "null");
}

#[test]
fn values_come_back_from_their_text() {
    let nested = |levels: u64| {
        let mut json = Json::text("x");
        for _ in 0..levels {
            json = Json::Array(vec![json]);
        }
        json
    };
    let deepest = nested(NESTING);
    assert!(deepest.comes_back(NESTING));
    assert_eq!(Json::from_text(&deepest.to_text()).unwrap().to_text(), deepest.to_text());
    let too_deep = nested(NESTING + 1);
    assert!(!too_deep.comes_back(NESTING));
    assert!(Json::from_text(&too_deep.to_text()).is_none());

    let comes_back = |text: &str| Json::from_text(text).unwrap().comes_back(NESTING);
    assert!(comes_back(r#"{"a":[1,-2,null,"x"],"b":{"c":true}}"#));
    assert!(!comes_back(r#"{"a":[1,{"b":2.5}]}"#));
    assert!(!comes_back("1e3"));
    let replaced = Fields::new()
        .with("a", Json::from_text("2.5").unwrap())
        .with("a", Json::count(2))
        .finish();
    assert!(replaced.comes_back(1));
    assert!(!replaced.comes_back(0));
}
