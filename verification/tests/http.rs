use fedigents::http::{
    auth_headers, build_headers, content_type, header_map_to_json, http_reply, http_request,
    parse_response_body, HttpBody,
};
use fedigents::json::Json;
use reqwest::header::{HeaderMap, HeaderName, HeaderValue};

fn pairs(list: &[(&str, &str)]) -> Vec<(String, String)> {
    list.iter().map(|(name, value)| (name.to_string(), value.to_string())).collect()
}

#[test]
fn headers_are_set_under_lower_case_names() {
    let headers = build_headers(&pairs(&[("Accept", "text/html"), ("X-Key", "a b")])).unwrap();
    assert_eq!(headers.len(), 2);
    assert_eq!(headers["accept"], "text/html");
    assert_eq!(
        header_map_to_json(&headers).to_text(),
        r#"{"accept":"text/html","x-key":"a b"}"#
    );
}

#[test]
fn the_later_of_two_headers_with_one_name_stays() {
    let headers = build_headers(&pairs(&[("ACCEPT", "one"), ("accept", "two")])).unwrap();
    assert_eq!(header_map_to_json(&headers).to_text(), r#"{"accept":"two"}"#);
}

#[test]
fn one_name_may_be_set_any_number_of_times() {
    let headers = build_headers(&pairs(&[("accept", "x"); 7000])).unwrap();
    assert_eq!(header_map_to_json(&headers).to_text(), r#"{"accept":"x"}"#);
}

#[test]
fn the_first_refused_header_is_named() {
    let refused = build_headers(&pairs(&[("ok", "fine"), ("bad name", "x"), ("", "y")]));
    assert_eq!(refused.unwrap_err(), "Invalid header name: bad name");
    let refused = build_headers(&pairs(&[("X-Key", "line\nbreak")]));
    assert_eq!(refused.unwrap_err(), "Invalid header value for x-key");
    let refused = build_headers(&pairs(&[("", "y")]));
    assert_eq!(refused.unwrap_err(), "Invalid header name: ");
    let long = "n".repeat(65536);
    assert!(build_headers(&vec![(long, "v".to_owned())]).is_err());
    assert!(build_headers(&vec![("n".repeat(65535), "v".to_owned())]).is_ok());
}

#[test]
fn values_may_hold_tabs_and_any_letters() {
    let headers = build_headers(&pairs(&[("a", "x\ty"), ("b", "caf\u{e9}")])).unwrap();
    assert_eq!(
        header_map_to_json(&headers).to_text(),
        r#"{"a":"x\ty","b":"<non-utf8>"}"#
    );
    assert!(build_headers(&pairs(&[("a", "\u{7f}")])).is_err());
}

#[test]
fn several_values_of_a_header_show_the_last() {
    let mut headers = HeaderMap::new();
    headers.append(HeaderName::from_static("x-a"), HeaderValue::from_static("1"));
    headers.append(HeaderName::from_static("x-a"), HeaderValue::from_static("2"));
    assert_eq!(header_map_to_json(&headers).to_text(), r#"{"x-a":"2"}"#);
}

#[test]
fn the_content_type_is_the_first_one_if_it_is_text() {
    let mut headers = HeaderMap::new();
    assert_eq!(content_type(&headers), None);
    let name = HeaderName::from_static("content-type");
    headers.append(name.clone(), HeaderValue::from_static("application/json"));
    headers.append(name.clone(), HeaderValue::from_static("text/plain"));
    assert_eq!(content_type(&headers), Some("application/json".to_owned()));
    headers.insert(name, HeaderValue::from_bytes(&[0xff]).unwrap());
    assert_eq!(content_type(&headers), None);
}

#[test]
fn bodies_are_json_where_the_type_says_so() {
    let json = |kind: &str, text: &str| {
        parse_response_body(&Some(kind.to_owned()), text).to_text()
    };
    assert_eq!(json("application/json; charset=utf-8", "[1]"), "[1]");
    assert_eq!(json("Application/Problem+JSON", "[1]"), "[1]");
    assert_eq!(json("text/plain", "[1]"), "\"[1]\"");
    assert_eq!(json("application/json", "[1"), "\"[1\"");
    assert_eq!(parse_response_body(&None, "[1]").to_text(), "\"[1]\"");
}

#[test]
fn requests_are_planned() {
    let plan = http_request(
        "https://a.example/",
        "POST",
        &pairs(&[("A", "b")]),
        Some(Json::from_text(r#"{"k":1}"#).unwrap()),
    )
    .unwrap();
    assert_eq!(plan.url, "https://a.example/");
    assert_eq!(plan.method, "POST");
    assert_eq!(plan.headers["a"], "b");
    assert!(matches!(plan.body, HttpBody::Json(json) if json.to_text() == r#"{"k":1}"#));
    let plan = http_request("u", "PUT", &vec![], Some(Json::text("as it is"))).unwrap();
    assert!(matches!(plan.body, HttpBody::Text(text) if text == "as it is"));
    let plan = http_request("u", "GET", &vec![], None).unwrap();
    assert!(matches!(plan.body, HttpBody::Empty));
}

#[test]
fn a_bad_method_is_refused_before_any_header() {
    let refused = http_request("u", "NOT OK", &pairs(&[("", "")]), None);
    assert_eq!(refused.unwrap_err(), "Invalid HTTP method: NOT OK");
    assert_eq!(
        http_request("u", "", &vec![], None).unwrap_err(),
        "Invalid HTTP method: "
    );
    assert_eq!(
        http_request("u", "GET", &pairs(&[("", "")]), None).unwrap_err(),
        "Invalid header name: "
    );
    assert!(http_request("u", "BREW", &vec![], None).is_ok());
}

#[test]
fn responses_are_reported() {
    let mut headers = HeaderMap::new();
    headers.insert("content-type", HeaderValue::from_static("application/json"));
    let reply = http_reply("u", "GET", 200, &headers, r#"{"n":1}"#);
    assert_eq!(
        reply.to_text(),
        r#"{"body":{"n":1},"content_type":"application/json","headers":{"content-type":"application/json"},"method":"GET","ok":true,"status":200,"url":"u"}"#
    );
    let reply = http_reply("u", "GET", 404, &HeaderMap::new(), "gone");
    assert_eq!(
        reply.to_text(),
        r#"{"body":"gone","content_type":null,"headers":{},"method":"GET","ok":false,"status":404,"url":"u"}"#
    );
    for (status, ok) in [(199, "false"), (200, "true"), (299, "true"), (300, "false")] {
        let reply = http_reply("u", "GET", status, &HeaderMap::new(), "");
        assert_eq!(reply.get("ok").unwrap().to_text(), ok);
    }
}

#[test]
fn keys_authorize_as_bearers() {
    let headers = auth_headers("sk-1").unwrap();
    assert_eq!(
        header_map_to_json(&headers).to_text(),
        r#"{"authorization":"Bearer sk-1","content-type":"application/json"}"#
    );
    assert_eq!(auth_headers("a\nb").unwrap_err(), "failed to parse header value");
}
