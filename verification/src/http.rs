//! The rules of the tool that makes HTTP requests: which methods and headers it takes, and how it
//! reports a response.
use vstd::prelude::*;
use vstd::utf8::encode_utf8;

use crate::json::{
    count_json, json_reading, member, optional_json, optional_text_json, Fields, Json, JsonView,
};
use crate::text;
use crate::text::{ascii_lower, contains_text, from_chars, same_text};

verus! {

// ── What the contracts speak of ─────────────────────────────────────────

/// Whether `c` may stand in a token, as a method or the name of a header is one.
pub open spec fn token_char(c: char) -> bool {
    ||| '0' <= c && c <= '9'
    ||| 'A' <= c && c <= 'Z'
    ||| 'a' <= c && c <= 'z'
    ||| c == '!' || c == '#' || c == '$' || c == '%' || c == '&' || c == '\''
    ||| c == '*' || c == '+' || c == '-' || c == '.' || c == '^' || c == '_'
    ||| c == '`' || c == '|' || c == '~'
}

/// Whether a text is a token.
pub open spec fn is_token(text: Seq<char>) -> bool {
    text.len() > 0 && forall|i: int| 0 <= i < text.len() ==> token_char(#[trigger] text[i])
}

/// Whether a text can name a header.
pub open spec fn is_header_name(text: Seq<char>) -> bool {
    is_token(text) && text.len() <= 65535
}

/// Whether a text can be the value of a header: no control character but the tab.
pub open spec fn is_header_value(text: Seq<char>) -> bool {
    forall|i: int|
        0 <= i < text.len() ==> {
            ||| (#[trigger] text[i]) == '\t'
            ||| text[i] as u32 >= 32 && text[i] as u32 != 127
        }
}

/// Whether a byte is a visible ASCII character, a space or a tab.
pub open spec fn visible_byte(b: u8) -> bool {
    b == 9 || 32 <= b < 127
}

/// The value of a header as text, which only visible ASCII has.
pub open spec fn header_text(value: Seq<u8>) -> Option<Seq<char>> {
    if forall|i: int| 0 <= i < value.len() ==> visible_byte(#[trigger] value[i]) {
        Some(value.map_values(|b: u8| b as char))
    } else {
        None
    }
}

/// The headers of a request or response: for each name, in lower case, its values in order.
pub type HeaderFields = Map<Seq<char>, Seq<Seq<u8>>>;

/// What a `HeaderMap` holds.
pub uninterp spec fn header_fields(headers: reqwest::header::HeaderMap) -> HeaderFields;

/// The texts of name and value pairs.
pub open spec fn pair_views(pairs: Seq<(String, String)>) -> Seq<(Seq<char>, Seq<char>)> {
    pairs.map_values(|pair: (String, String)| (pair.0@, pair.1@))
}

/// The message that refuses a header, where it is refused.
pub open spec fn header_refusal(name: Seq<char>, value: Seq<char>) -> Option<Seq<char>> {
    if !is_header_name(name) {
        Some("Invalid header name: "@ + name)
    } else if !is_header_value(value) {
        Some("Invalid header value for "@ + ascii_lower(name))
    } else {
        None
    }
}

/// The headers that these pairs set. Of two pairs with one name the later stays.
pub open spec fn set_headers(pairs: Seq<(Seq<char>, Seq<char>)>) -> HeaderFields
    decreases pairs.len(),
{
    if pairs.len() == 0 {
        Map::empty()
    } else {
        set_headers(pairs.drop_last()).insert(
            ascii_lower(pairs.last().0),
            seq![encode_utf8(pairs.last().1)],
        )
    }
}

/// How many different names these headers set.
pub open spec fn names_set(headers: Seq<(String, String)>) -> nat {
    set_headers(pair_views(headers)).dom().len()
}

/// Whether these headers come out as `built`: as the fields that they set, or as the refusal of
/// the first that is refused. A header may be too much for a table that holds 6554 names already.
pub open spec fn headers_built(
    headers: Seq<(String, String)>,
    built: Result<HeaderFields, Seq<char>>,
) -> bool {
    match built {
        Ok(fields) => {
            &&& forall|i: int|
                0 <= i < headers.len() ==> header_refusal(
                    (#[trigger] headers[i]).0@,
                    headers[i].1@,
                ) is None
            &&& fields == set_headers(pair_views(headers))
        },
        Err(message) => {
            ||| exists|i: int|
                {
                    &&& 0 <= i < headers.len()
                    &&& header_refusal((#[trigger] headers[i]).0@, headers[i].1@) == Some(message)
                    &&& forall|j: int|
                        0 <= j < i ==> header_refusal(
                            (#[trigger] headers[j]).0@,
                            headers[j].1@,
                        ) is None
                }
            ||| exists|i: int|
                {
                    &&& 0 <= i < headers.len()
                    &&& #[trigger] names_set(headers.take(i)) >= 6554
                    &&& forall|j: int|
                        0 <= j <= i ==> header_refusal(
                            (#[trigger] headers[j]).0@,
                            headers[j].1@,
                        ) is None
                    &&& message == "size overflows MAX_SIZE"@
                }
        },
    }
}

/// The values that a list of headers has for a name, in order.
pub open spec fn values_of(headers: Seq<(String, Vec<u8>)>, name: Seq<char>) -> Seq<Seq<u8>>
    decreases headers.len(),
{
    if headers.len() == 0 {
        Seq::empty()
    } else if headers.last().0@ == name {
        values_of(headers.drop_last(), name).push(headers.last().1@)
    } else {
        values_of(headers.drop_last(), name)
    }
}

/// The value of a header as a report shows it.
pub open spec fn shown_value(value: Seq<u8>) -> Seq<char> {
    match header_text(value) {
        Some(text) => text,
        None => "<non-utf8>"@,
    }
}

/// Headers as a report shows them: under each name its last value.
pub open spec fn headers_json(fields: HeaderFields) -> JsonView {
    JsonView::Object(
        Map::new(
            |name: Seq<char>| fields.contains_key(name),
            |name: Seq<char>| JsonView::Text(shown_value(fields[name].last())),
        ),
    )
}

/// The content type that headers state: the first value under that name, where it is text.
pub open spec fn content_type_of(fields: HeaderFields) -> Option<Seq<char>> {
    if fields.contains_key("content-type"@) {
        header_text(fields["content-type"@][0])
    } else {
        None
    }
}

/// Whether a content type announces JSON.
pub open spec fn announces_json(content_type: Option<Seq<char>>) -> bool {
    match content_type {
        Some(value) => {
            ||| contains_text(ascii_lower(value), "application/json"@)
            ||| contains_text(ascii_lower(value), "+json"@)
        },
        None => false,
    }
}

/// The body of a response as a report shows it.
pub open spec fn body_json(content_type: Option<Seq<char>>, text: Seq<char>) -> JsonView {
    if announces_json(content_type) && json_reading(text) is Some {
        json_reading(text)->0
    } else {
        JsonView::Text(text)
    }
}

/// The report of a response.
pub open spec fn http_reply_json(
    url: Seq<char>,
    method: Seq<char>,
    status: u16,
    fields: HeaderFields,
    text: Seq<char>,
) -> JsonView {
    JsonView::Object(
        map![
            "url"@ => JsonView::Text(url),
            "method"@ => JsonView::Text(method),
            "status"@ => count_json(status as u64),
            "ok"@ => JsonView::Bool(200 <= status <= 299),
            "content_type"@ => optional_text_json(content_type_of(fields)),
            "headers"@ => headers_json(fields),
            "body"@ => body_json(content_type_of(fields), text),
        ],
    )
}

// ── Calls into reqwest ──────────────────────────────────────────────────

/// `reqwest::header::HeaderMap`, the headers of a request or response.
#[verifier::external_type_specification]
#[verifier::external_body]
#[verifier::reject_recursive_types(T)]
pub struct ExHeaderMap<T>(reqwest::header::HeaderMap<T>);

/// `reqwest::header::HeaderValue`, the value of a header.
#[verifier::external_type_specification]
#[verifier::external_body]
pub struct ExHeaderValue(reqwest::header::HeaderValue);

/// `reqwest::Method::from_bytes` and `as_str`: a method is any token, and keeps its text.
#[verifier::external_body]
fn parse_method(text: &str) -> (method: Option<String>)
    ensures
        match method {
            Some(method) => is_token(text@) && method@ == text@,
            None => !is_token(text@),
        },
{
    reqwest::Method::from_bytes(text.as_bytes()).ok().map(|method| method.as_str().to_owned())
}

/// `HeaderName::from_bytes` and `as_str`: a name is any token of at most 65535 characters, and is
/// kept in lower case.
#[verifier::external_body]
fn parse_header_name(text: &str) -> (name: Option<String>)
    ensures
        match name {
            Some(name) => is_header_name(text@) && name@ == ascii_lower(text@),
            None => !is_header_name(text@),
        },
{
    reqwest::header::HeaderName::from_bytes(text.as_bytes()).ok().map(
        |name| name.as_str().to_owned(),
    )
}

/// `HeaderValue::from_str` and `as_bytes`: a value is any text without control characters other
/// than the tab, and is kept as its bytes.
#[verifier::external_body]
fn parse_header_value(text: &str) -> (value: Option<Vec<u8>>)
    ensures
        match value {
            Some(value) => is_header_value(text@) && value@ == encode_utf8(text@),
            None => !is_header_value(text@),
        },
{
    reqwest::header::HeaderValue::from_str(text).ok().map(|value| value.as_bytes().to_vec())
}

/// `HeaderMap::new`: no headers.
#[verifier::external_body]
fn no_headers() -> (headers: reqwest::header::HeaderMap)
    ensures
        header_fields(headers) == HeaderFields::empty(),
{
    reqwest::header::HeaderMap::new()
}

/// `HeaderMap::try_insert`: the name has exactly this value afterwards, and every other name what
/// it had. The call can fail only on a map that holds 6554 names or more: up to there the table
/// never needs more than the 32768 slots that it may have.
#[verifier::external_body]
fn insert_header(headers: &mut reqwest::header::HeaderMap, name: &str, value: &str) -> (done: bool)
    requires
        is_header_name(name@),
        is_header_value(value@),
    ensures
        done ==> header_fields(*final(headers)) == header_fields(*old(headers)).insert(
            ascii_lower(name@),
            seq![encode_utf8(value@)],
        ),
        !done ==> header_fields(*old(headers)).dom().len() >= 6554,
{
    let name = reqwest::header::HeaderName::from_bytes(name.as_bytes()).unwrap();
    headers.try_insert(name, reqwest::header::HeaderValue::from_str(value).unwrap()).is_ok()
}

/// `HeaderMap::iter`: every name in lower case with each of its values, the values of one name in
/// order. In which order the names come is left open.
#[verifier::external_body]
fn list_headers(headers: &reqwest::header::HeaderMap) -> (list: Vec<(String, Vec<u8>)>)
    ensures
        forall|name: Seq<char>|
            #![trigger values_of(list@, name)]
            #![trigger header_fields(*headers).contains_key(name)]
            {
                &&& header_fields(*headers).contains_key(name) == (values_of(list@, name).len() > 0)
                &&& header_fields(*headers).contains_key(name) ==> header_fields(*headers)[name]
                    == values_of(list@, name)
            },
{
    headers
        .iter()
        .map(|(name, value)| (name.as_str().to_owned(), value.as_bytes().to_vec()))
        .collect()
}

// ── Verified ────────────────────────────────────────────────────────────

/// The value of a header as text, which only visible ASCII has.
fn value_text(value: &Vec<u8>) -> (text: Option<String>)
    ensures
        crate::text::optional_view(text) == header_text(value@),
{
    let mut chars: Vec<char> = Vec::new();
    let mut i: usize = 0;
    while i < value.len()
        invariant
            i <= value@.len(),
            forall|j: int| 0 <= j < i ==> visible_byte(#[trigger] value@[j]),
            chars@ == value@.take(i as int).map_values(|b: u8| b as char),
        decreases value@.len() - i,
    {
        let b: u8 = value[i];
        if !(b == 9 || (32 <= b && b < 127)) {
            assert(!visible_byte(value@[i as int]));
            return None;
        }
        chars.push(b as char);
        assert(chars@ =~= value@.take(i + 1).map_values(|b: u8| b as char));
        i += 1;
    }
    assert(value@.take(i as int) =~= value@);
    Some(from_chars(&chars))
}

/// Puts the headers of a request together, or says which of them is refused.
pub fn build_headers(headers: &Vec<(String, String)>) -> (built: Result<
    reqwest::header::HeaderMap,
    String,
>)
    ensures
        match built {
            Ok(map) => headers_built(headers@, Ok(header_fields(map))),
            Err(message) => headers_built(headers@, Err(message@)),
        },
{
    let mut map = no_headers();
    let mut i: usize = 0;
    while i < headers.len()
        invariant
            i <= headers@.len(),
            header_fields(map) == set_headers(pair_views(headers@.take(i as int))),
            forall|j: int|
                0 <= j < i ==> header_refusal((#[trigger] headers@[j]).0@, headers@[j].1@) is None,
        decreases headers@.len() - i,
    {
        let (name, value) = (headers[i].0.as_str(), headers[i].1.as_str());
        let Some(lower) = parse_header_name(name) else {
            let message = "Invalid header name: ".to_owned().concat(name);
            assert(header_refusal(headers@[i as int].0@, headers@[i as int].1@) == Some(message@));
            return Err(message);
        };
        if parse_header_value(value).is_none() {
            let message = "Invalid header value for ".to_owned().concat(lower.as_str());
            assert(header_refusal(headers@[i as int].0@, headers@[i as int].1@) == Some(message@));
            return Err(message);
        }
        if !insert_header(&mut map, name, value) {
            assert(names_set(headers@.take(i as int)) >= 6554);
            return Err("size overflows MAX_SIZE".to_owned());
        }
        assert(pair_views(headers@.take(i + 1)).drop_last() =~= pair_views(headers@.take(i as int)));
        i += 1;
    }
    assert(headers@.take(i as int) =~= headers@);
    Ok(map)
}

/// The headers of a request that names a content type and an authorization.
pub open spec fn bearer_fields(api_key: Seq<char>) -> HeaderFields {
    map![
        "content-type"@ => seq![encode_utf8("application/json"@)],
        "authorization"@ => seq![encode_utf8("Bearer "@ + api_key)],
    ]
}

/// The headers that authorize a request by an API key.
pub fn auth_headers(api_key: &str) -> (headers: Result<reqwest::header::HeaderMap, String>)
    ensures
        match headers {
            Ok(headers) => is_header_value("Bearer "@ + api_key@) && header_fields(headers)
                == bearer_fields(api_key@),
            Err(message) => !is_header_value("Bearer "@ + api_key@) && message@
                == "failed to parse header value"@,
        },
{
    proof {
        reveal_strlit("content-type");
        reveal_strlit("authorization");
        reveal_strlit("application/json");
        assert(ascii_lower("content-type"@) =~= "content-type"@);
        assert(ascii_lower("authorization"@) =~= "authorization"@);
    }
    let mut headers = no_headers();
    let typed = insert_header(&mut headers, "content-type", "application/json");
    let value = "Bearer ".to_owned().concat(api_key);
    if parse_header_value(value.as_str()).is_none() {
        return Err("failed to parse header value".to_owned());
    }
    let authorized = insert_header(&mut headers, "authorization", value.as_str());
    assert(typed && authorized);
    assert(header_fields(headers) =~= bearer_fields(api_key@));
    Ok(headers)
}

/// Headers as a report shows them: under each name its last value.
pub fn header_map_to_json(headers: &reqwest::header::HeaderMap) -> (json: Json)
    ensures
        json@ == headers_json(header_fields(*headers)),
{
    let list = list_headers(headers);
    let mut fields = Fields::new();
    let mut i: usize = 0;
    while i < list.len()
        invariant
            i <= list@.len(),
            forall|name: Seq<char>| #[trigger]
                fields@.contains_key(name) == (values_of(list@.take(i as int), name).len() > 0),
            forall|name: Seq<char>| #[trigger]
                fields@.contains_key(name) ==> fields@[name] == JsonView::Text(
                    shown_value(values_of(list@.take(i as int), name).last()),
                ),
        decreases list@.len() - i,
    {
        let shown = match value_text(&list[i].1) {
            Some(text) => text,
            None => "<non-utf8>".to_owned(),
        };
        fields = fields.with(list[i].0.as_str(), Json::Text(shown));
        assert(list@.take(i + 1).drop_last() =~= list@.take(i as int));
        i += 1;
    }
    assert(list@.take(i as int) =~= list@);
    assert(fields@ =~= headers_json(header_fields(*headers))->Object_0);
    fields.finish()
}

/// The content type that headers state.
pub fn content_type(headers: &reqwest::header::HeaderMap) -> (content_type: Option<String>)
    ensures
        crate::text::optional_view(content_type) == content_type_of(header_fields(*headers)),
{
    let list = list_headers(headers);
    let ghost name = "content-type"@;
    let mut i: usize = 0;
    #[verifier::loop_isolation(false)]
    while i < list.len()
        invariant
            i <= list@.len(),
            values_of(list@.take(i as int), name).len() == 0,
        decreases list@.len() - i,
    {
        assert(list@.take(i + 1).drop_last() =~= list@.take(i as int));
        if same_text(list[i].0.as_str(), "content-type") {
            proof {
                lemma_first_value(list@, name, i as int);
            }
            return value_text(&list[i].1);
        }
        i += 1;
    }
    assert(list@.take(i as int) =~= list@);
    None
}

proof fn lemma_first_value(list: Seq<(String, Vec<u8>)>, name: Seq<char>, i: int)
    requires
        0 <= i < list.len(),
        values_of(list.take(i), name).len() == 0,
        list[i].0@ == name,
    ensures
        values_of(list, name).len() > 0,
        values_of(list, name)[0] == list[i].1@,
    decreases list.len(),
{
    if i == list.len() - 1 {
        assert(list.drop_last() =~= list.take(i));
    } else {
        assert(list.drop_last().take(i) =~= list.take(i));
        lemma_first_value(list.drop_last(), name, i);
    }
}

/// The body of a response as a report shows it: read as JSON where the content type announces
/// that and the text is JSON, as a text otherwise.
pub fn parse_response_body(content_type: &Option<String>, text: &str) -> (body: Json)
    ensures
        body@ == body_json(crate::text::optional_view(*content_type), text@),
{
    let is_json = match content_type {
        Some(value) => {
            let value = text::to_ascii_lower(value.as_str());
            text::contains(value.as_str(), "application/json") || text::contains(
                value.as_str(),
                "+json",
            )
        },
        None => false,
    };
    if is_json {
        match Json::from_text(text) {
            Some(body) => body,
            None => Json::text(text),
        }
    } else {
        Json::text(text)
    }
}

/// The body of a request.
#[derive(Debug)]
pub enum HttpBody {
    Empty,
    /// Sent as it is.
    Text(String),
    /// Sent as JSON.
    Json(Json),
}

/// A request that the HTTP tool makes.
#[derive(Debug)]
pub struct HttpPlan {
    pub url: String,
    pub method: String,
    pub headers: reqwest::header::HeaderMap,
    pub body: HttpBody,
}

/// Whether `body` is how this value is sent.
pub open spec fn sends(body: HttpBody, value: Option<JsonView>) -> bool {
    match value {
        None => body is Empty,
        Some(JsonView::Text(text)) => body matches HttpBody::Text(sent) && sent@ == text,
        Some(value) => body matches HttpBody::Json(sent) && sent@ == value,
    }
}

/// Whether `plan` is the request that these arguments ask for, or the message that refuses them.
pub open spec fn request_planned(
    url: Seq<char>,
    method: Seq<char>,
    headers: Seq<(String, String)>,
    body: Option<JsonView>,
    plan: Result<HttpPlan, String>,
) -> bool {
    match plan {
        Ok(plan) => {
            &&& is_token(method)
            &&& plan.url@ == url
            &&& plan.method@ == method
            &&& headers_built(headers, Ok(header_fields(plan.headers)))
            &&& sends(plan.body, body)
        },
        Err(message) => if is_token(method) {
            headers_built(headers, Err(message@))
        } else {
            message@ == "Invalid HTTP method: "@ + method
        },
    }
}

/// Puts a request together, or says why it is refused: for its method first, then for the first
/// header that is refused.
pub fn http_request(
    url: &str,
    method: &str,
    headers: &Vec<(String, String)>,
    body: Option<Json>,
) -> (plan: Result<HttpPlan, String>)
    ensures
        request_planned(url@, method@, headers@, optional_json(body), plan),
{
    let Some(method_text) = parse_method(method) else {
        return Err("Invalid HTTP method: ".to_owned().concat(method));
    };
    let headers = match build_headers(headers) {
        Ok(headers) => headers,
        Err(message) => return Err(message),
    };
    let body = match body {
        None => HttpBody::Empty,
        Some(Json::Text(text)) => HttpBody::Text(text),
        Some(other) => HttpBody::Json(other),
    };
    Ok(HttpPlan { url: url.to_owned(), method: method_text, headers, body })
}

/// The report of a response.
pub fn http_reply(
    url: &str,
    method: &str,
    status: u16,
    headers: &reqwest::header::HeaderMap,
    text: &str,
) -> (reply: Json)
    ensures
        reply@ == http_reply_json(url@, method@, status, header_fields(*headers), text@),
{
    let content_type = content_type(headers);
    let body = parse_response_body(&content_type, text);
    let reply = Fields::new()
        .with("url", Json::text(url))
        .with("method", Json::text(method))
        .with("status", Json::count(status as u64))
        .with("ok", Json::Bool(200 <= status && status <= 299))
        .with("content_type", Json::optional_text(&content_type))
        .with("headers", header_map_to_json(headers))
        .with("body", body)
        .finish();
    assert(reply@->Object_0 =~= http_reply_json(
        url@,
        method@,
        status,
        header_fields(*headers),
        text@,
    )->Object_0);
    reply
}

// ── Laws ────────────────────────────────────────────────────────────────

/// Whether a character is visible ASCII, a space or a tab.
pub open spec fn visible_char(c: char) -> bool {
    c == '\t' || (' ' <= c && c <= '~')
}

/// A header that is set is reported under its name in lower case, with its value where that is
/// visible ASCII, unless a later one has the same name in any case.
pub proof fn law_set_headers_are_reported(pairs: Seq<(Seq<char>, Seq<char>)>, i: int)
    requires
        0 <= i < pairs.len(),
        forall|j: int|
            i < j < pairs.len() ==> ascii_lower((#[trigger] pairs[j]).0) != ascii_lower(pairs[i].0),
        forall|k: int|
            0 <= k < pairs[i].1.len() ==> visible_char(#[trigger] pairs[i].1[k]),
    ensures
        headers_json(set_headers(pairs))->Object_0.contains_key(ascii_lower(pairs[i].0)),
        headers_json(set_headers(pairs))->Object_0[ascii_lower(pairs[i].0)] == JsonView::Text(
            pairs[i].1,
        ),
{
    let name = ascii_lower(pairs[i].0);
    let value = pairs[i].1;
    lemma_last_set(pairs, i);
    assert(vstd::utf8::is_ascii_chars(value)) by {
        assert forall|k: int| 0 <= k < value.len() implies '\0' <= #[trigger] value[k]
            <= '\u{7f}' by {
            assert(visible_char(pairs[i].1[k]));
        }
    }
    vstd::utf8::is_ascii_chars_encode_utf8(value);
    let bytes = encode_utf8(value);
    assert forall|k: int| 0 <= k < bytes.len() implies visible_byte(#[trigger] bytes[k]) by {
        assert(visible_char(pairs[i].1[k]));
        assert(value[k] as u8 == bytes[k]);
    }
    assert(bytes.map_values(|b: u8| b as char) =~= value) by {
        assert forall|k: int| 0 <= k < bytes.len() implies (#[trigger] bytes[k]) as char
            == value[k] by {
            assert(visible_char(pairs[i].1[k]));
            assert(value[k] as u8 == bytes[k]);
        }
    }
    assert(set_headers(pairs)[name].last() == bytes);
}

proof fn lemma_last_set(pairs: Seq<(Seq<char>, Seq<char>)>, i: int)
    requires
        0 <= i < pairs.len(),
        forall|j: int|
            i < j < pairs.len() ==> ascii_lower((#[trigger] pairs[j]).0) != ascii_lower(pairs[i].0),
    ensures
        set_headers(pairs).contains_key(ascii_lower(pairs[i].0)),
        set_headers(pairs)[ascii_lower(pairs[i].0)] == seq![encode_utf8(pairs[i].1)],
    decreases pairs.len(),
{
    if i < pairs.len() - 1 {
        assert(pairs.drop_last()[i] == pairs[i]);
        assert(forall|j: int| i < j < pairs.len() - 1 ==> pairs.drop_last()[j] == pairs[j]);
        lemma_last_set(pairs.drop_last(), i);
        assert(ascii_lower(pairs[pairs.len() - 1].0) != ascii_lower(pairs[i].0));
    }
}

/// What may stand in a method or in the name of a header: any visible ASCII character that is no
/// separator.
pub proof fn law_tokens_hold_no_separators(c: char)
    ensures
        token_char(c) <==> '!' <= c && c <= '~' && !(c == '(' || c == ')' || c == '<' || c == '>'
            || c == '@' || c == ',' || c == ';' || c == ':' || c == '\\' || c == '"' || c == '/' || c
            == '[' || c == ']' || c == '?' || c == '=' || c == '{' || c == '}'),
{
}

/// A text is a token exactly where it is not empty and each of its characters may stand in one.
pub proof fn law_tokens_are_checked_throughout(text: Seq<char>, i: int)
    requires
        0 <= i < text.len(),
    ensures
        !token_char(text[i]) ==> !is_token(text) && !is_header_name(text),
        (forall|k: int| 0 <= k < text.len() ==> token_char(#[trigger] text[k])) ==> is_token(text)
            && (text.len() <= 65535 ==> is_header_name(text)),
        !is_token(Seq::empty()),
{
}

/// A header is never split: a value with a line break or any other control character but the tab is
/// refused, and any other value is taken.
pub proof fn law_header_values_hold_no_controls(name: Seq<char>, value: Seq<char>, i: int)
    requires
        is_header_name(name),
    ensures
        0 <= i < value.len() && (value[i] == '\n' || value[i] == '\r' || value[i] == '\0')
            ==> header_refusal(name, value) is Some,
        0 <= i < value.len() && value[i] != '\t' && value[i] < ' ' ==> header_refusal(
            name,
            value,
        ) is Some,
        0 <= i < value.len() && value[i] == '\u{7f}' ==> header_refusal(name, value) is Some,
        (forall|k: int|
            0 <= k < value.len() ==> value[k] == '\t' || (value[k] >= ' ' && (#[trigger] value[k])
                != '\u{7f}')) ==> header_refusal(name, value) is None,
{
    assert forall|k: int| 0 <= k < value.len() implies (value[k] as u32 >= 32 <==> #[trigger] value[k]
        >= ' ') && (value[k] as u32 == 127 <==> value[k] == '\u{7f}') by {
        lemma_code_point(value[k]);
    }
}

proof fn lemma_code_point(c: char)
    ensures
        c as u32 as int == c as int,
{
}

/// A refusal names the header that it refuses: as it was written where the name is wrong, and in
/// lower case where the value is.
pub proof fn law_refusals_name_the_header(name: Seq<char>, value: Seq<char>)
    ensures
        !is_header_name(name) ==> header_refusal(name, value) == Some(
            "Invalid header name: "@ + name,
        ),
        is_header_name(name) ==> (header_refusal(name, value) matches Some(message) ==> ascii_lower(
            name,
        ).is_suffix_of(message)),
{
    if is_header_name(name) {
        if let Some(message) = header_refusal(name, value) {
            let lower = ascii_lower(name);
            assert(message.subrange(message.len() - lower.len(), message.len() as int) =~= lower);
        }
    }
}

/// The headers of a request are those that were given, each under its name in lower case with the
/// bytes of its value; of two with one name the later one. There are no others.
pub proof fn law_headers_are_set_as_given(
    pairs: Seq<(Seq<char>, Seq<char>)>,
    i: int,
    name: Seq<char>,
)
    ensures
        0 <= i < pairs.len() && (forall|j: int|
            i < j < pairs.len() ==> ascii_lower((#[trigger] pairs[j]).0) != ascii_lower(pairs[i].0))
            ==> set_headers(pairs).contains_key(ascii_lower(pairs[i].0)) && set_headers(
            pairs,
        )[ascii_lower(pairs[i].0)] == seq![encode_utf8(pairs[i].1)],
        set_headers(pairs).contains_key(name) ==> exists|k: int|
            0 <= k < pairs.len() && ascii_lower((#[trigger] pairs[k]).0) == name,
{
    if 0 <= i < pairs.len() && (forall|j: int|
        i < j < pairs.len() ==> ascii_lower((#[trigger] pairs[j]).0) != ascii_lower(pairs[i].0)) {
        lemma_last_set(pairs, i);
    }
    if set_headers(pairs).contains_key(name) {
        lemma_set_by_a_pair(pairs, name);
    }
}

proof fn lemma_set_by_a_pair(pairs: Seq<(Seq<char>, Seq<char>)>, name: Seq<char>)
    requires
        set_headers(pairs).contains_key(name),
    ensures
        exists|k: int| 0 <= k < pairs.len() && ascii_lower((#[trigger] pairs[k]).0) == name,
    decreases pairs.len(),
{
    if ascii_lower(pairs.last().0) == name {
        assert(ascii_lower(pairs[pairs.len() - 1].0) == name);
    } else {
        lemma_set_by_a_pair(pairs.drop_last(), name);
        let k = choose|k: int|
            0 <= k < pairs.len() - 1 && ascii_lower((#[trigger] pairs.drop_last()[k]).0) == name;
        assert(ascii_lower(pairs[k].0) == name);
    }
}

/// Headers come out as set only where none of them is refused, and a refusal is that of the first
/// header that is refused, unless there are more names than a table holds.
pub proof fn law_first_refusal_counts(
    headers: Seq<(String, String)>,
    built: Result<HeaderFields, Seq<char>>,
    i: int,
)
    requires
        headers_built(headers, built),
        0 <= i < headers.len(),
    ensures
        header_refusal(headers[i].0@, headers[i].1@) is Some ==> built is Err,
        built matches Ok(fields) ==> fields == set_headers(pair_views(headers)),
        headers.len() < 6554 && header_refusal(headers[i].0@, headers[i].1@) is Some && (forall|
            j: int,
        |
            0 <= j < i ==> header_refusal((#[trigger] headers[j]).0@, headers[j].1@) is None)
            ==> built == Err::<HeaderFields, _>(
            header_refusal(headers[i].0@, headers[i].1@)->0,
        ),
        headers.len() < 6554 && (forall|j: int|
            0 <= j < headers.len() ==> header_refusal(
                (#[trigger] headers[j]).0@,
                headers[j].1@,
            ) is None) ==> built is Ok,
{
    assert forall|k: int| 0 <= k < headers.len() && headers.len() < 6554 implies #[trigger] names_set(
        headers.take(k),
    ) < 6554 by {
        lemma_names_are_few(pair_views(headers.take(k)));
    }
    if built is Err && (forall|j: int|
        0 <= j < i ==> header_refusal((#[trigger] headers[j]).0@, headers[j].1@) is None)
        && header_refusal(headers[i].0@, headers[i].1@) is Some && headers.len() < 6554 {
        let message = built->Err_0;
        let k = choose|k: int|
            {
                &&& 0 <= k < headers.len()
                &&& header_refusal((#[trigger] headers[k]).0@, headers[k].1@) == Some(message)
                &&& forall|j: int|
                    0 <= j < k ==> header_refusal(
                        (#[trigger] headers[j]).0@,
                        headers[j].1@,
                    ) is None
            };
        assert(k == i);
    }
}

proof fn lemma_names_are_few(pairs: Seq<(Seq<char>, Seq<char>)>)
    ensures
        set_headers(pairs).dom().finite(),
        set_headers(pairs).dom().len() <= pairs.len(),
    decreases pairs.len(),
{
    if pairs.len() > 0 {
        lemma_names_are_few(pairs.drop_last());
    }
}

/// A value is shown as its characters where all of them are visible ASCII, blanks or tabs, and
/// otherwise not at all.
pub proof fn law_values_are_shown_where_they_are_text(value: Seq<u8>, i: int)
    requires
        0 <= i < value.len(),
    ensures
        (forall|k: int|
            0 <= k < value.len() ==> value[k] == 9 || (32 <= #[trigger] value[k] && value[k] < 127))
            ==> shown_value(value).len() == value.len() && shown_value(value)[i] as int
            == value[i] as int,
        !(value[i] == 9 || (32 <= value[i] && value[i] < 127)) ==> shown_value(value)
            == "<non-utf8>"@,
        header_text(Seq::empty()) matches Some(text) && text.len() == 0,
{
    if forall|k: int|
        0 <= k < value.len() ==> value[k] == 9 || (32 <= #[trigger] value[k] && value[k] < 127) {
        assert forall|k: int| 0 <= k < value.len() implies visible_byte(#[trigger] value[k]) by {}
    } else if !(value[i] == 9 || (32 <= value[i] && value[i] < 127)) {
        assert(!visible_byte(value[i]));
    }
    assert(Seq::<u8>::empty().map_values(|b: u8| b as char) =~= Seq::<char>::empty());
}

/// A response is reported in full: where it came from, how it was asked for, its status and whether
/// that is a success, its headers, its content type and its body.
pub proof fn law_responses_are_reported(
    url: Seq<char>,
    method: Seq<char>,
    status: u16,
    fields: HeaderFields,
    text: Seq<char>,
    name: Seq<char>,
)
    ensures
        ({
            let report = http_reply_json(url, method, status, fields, text);
            &&& member(report, "url"@) == Some(JsonView::Text(url))
            &&& member(report, "method"@) == Some(JsonView::Text(method))
            &&& member(report, "status"@) == Some(count_json(status as u64))
            &&& member(report, "ok"@) == Some(JsonView::Bool(status / 100 == 2))
            &&& member(report, "content_type"@) == Some(
                match content_type_of(fields) {
                    Some(content_type) => JsonView::Text(content_type),
                    None => JsonView::Null,
                },
            )
            &&& member(report, "body"@) == Some(body_json(content_type_of(fields), text))
            &&& member(report, "headers"@) matches Some(headers) && member(headers, name)
                == if fields.contains_key(name) {
                Some(JsonView::Text(shown_value(fields[name].last())))
            } else {
                None
            }
        }),
{
    reveal_strlit("url");
    reveal_strlit("method");
    reveal_strlit("status");
    reveal_strlit("ok");
    reveal_strlit("content_type");
    reveal_strlit("headers");
    reveal_strlit("body");
    assert("url"@.len() == 3 && "method"@.len() == 6 && "status"@.len() == 6 && "ok"@.len() == 2
        && "content_type"@.len() == 12 && "headers"@.len() == 7 && "body"@.len() == 4);
    assert("method"@[0] != "status"@[0]);
}

/// The body of a response is shown as the value that it is where its content type announces JSON,
/// in any case and with anything around it, and it is JSON. Any other body is shown as its text, to
/// the letter.
pub proof fn law_bodies_are_shown_as_they_are(
    front: Seq<char>,
    back: Seq<char>,
    announced: Option<Seq<char>>,
    text: Seq<char>,
    value: JsonView,
)
    ensures
        json_reading(text) == Some(value) && announced == Some(front + "application/json"@ + back)
            ==> body_json(announced, text) == value,
        json_reading(text) == Some(value) && announced == Some(front + "+json"@ + back)
            ==> body_json(announced, text) == value,
        json_reading(text) == Some(value) && announced == Some("Application/JSON"@) ==> body_json(
            announced,
            text,
        ) == value,
        json_reading(text) is None ==> body_json(announced, text) == JsonView::Text(text),
        announced is None ==> body_json(announced, text) == JsonView::Text(text),
        announced matches Some(kind) ==> (!contains_text(ascii_lower(kind), "json"@) ==> body_json(
            announced,
            text,
        ) == JsonView::Text(text)),
{
    lemma_announced(front, back);
    if let Some(kind) = announced {
        if announces_json(announced) {
            lemma_announcements_hold_json(ascii_lower(kind));
        }
    }
}

/// A content type that holds either name announces JSON, in any case.
proof fn lemma_announced(front: Seq<char>, back: Seq<char>)
    ensures
        announces_json(Some(front + "application/json"@ + back)),
        announces_json(Some(front + "+json"@ + back)),
        announces_json(Some("Application/JSON"@)),
{
    reveal_strlit("application/json");
    reveal_strlit("Application/JSON");
    reveal_strlit("+json");
    let (whole, part) = ("application/json"@, "+json"@);
    assert(ascii_lower(whole) =~= whole);
    assert(ascii_lower(part) =~= part);
    lemma_lower_parts(front, whole, back);
    lemma_lower_parts(front, part, back);
    assert(ascii_lower("Application/JSON"@) =~= whole);
    let none = Seq::<char>::empty();
    crate::text_laws::law_parts_are_held(none, whole, none, none);
    assert(none + whole + none =~= whole);
}

proof fn lemma_lower_parts(front: Seq<char>, kind: Seq<char>, back: Seq<char>)
    requires
        ascii_lower(kind) == kind,
    ensures
        contains_text(ascii_lower(front + kind + back), kind),
{
    assert(ascii_lower(front + kind + back) =~= ascii_lower(front) + ascii_lower(kind) + ascii_lower(
        back,
    ));
    crate::text_laws::law_parts_are_held(ascii_lower(front), kind, ascii_lower(back), kind);
}

proof fn lemma_announcements_hold_json(lower: Seq<char>)
    requires
        contains_text(lower, "application/json"@) || contains_text(lower, "+json"@),
    ensures
        contains_text(lower, "json"@),
{
    reveal_strlit("application/json");
    reveal_strlit("+json");
    reveal_strlit("json");
    if contains_text(lower, "application/json"@) {
        let i = choose|i: int| text::occurs_at(lower, "application/json"@, i);
        assert(lower.subrange(i + 12, i + 16) =~= lower.subrange(i, i + 16).subrange(12, 16));
        assert("application/json"@.subrange(12, 16) =~= "json"@);
        assert(text::occurs_at(lower, "json"@, i + 12));
    } else {
        let i = choose|i: int| text::occurs_at(lower, "+json"@, i);
        assert(lower.subrange(i + 1, i + 5) =~= lower.subrange(i, i + 5).subrange(1, 5));
        assert("+json"@.subrange(1, 5) =~= "json"@);
        assert(text::occurs_at(lower, "json"@, i + 1));
    }
}

/// The content type of a response is the first value under that name, where it is text, and there
/// is none where the name is not set.
pub proof fn law_content_types_are_read_from_the_headers(fields: HeaderFields)
    ensures
        !fields.contains_key("content-type"@) ==> content_type_of(fields) is None,
        fields.contains_key("content-type"@) ==> content_type_of(fields) == header_text(
            fields["content-type"@][0],
        ),
{
}

/// The texts of headers are taken pair by pair, the name as the name and the value as the value.
pub proof fn law_pairs_keep_their_places(pairs: Seq<(String, String)>, i: int)
    requires
        0 <= i < pairs.len(),
    ensures
        pair_views(pairs).len() == pairs.len(),
        pair_views(pairs)[i].0 == pairs[i].0@,
        pair_views(pairs)[i].1 == pairs[i].1@,
{
}

/// The values of a header are all that were listed under its name, in the order in which they were
/// listed.
pub proof fn law_values_come_in_order(
    list: Seq<(String, Vec<u8>)>,
    name: String,
    value: Vec<u8>,
    other: Seq<char>,
)
    ensures
        values_of(list.push((name, value)), name@) == values_of(list, name@).push(value@),
        other != name@ ==> values_of(list.push((name, value)), other) == values_of(list, other),
        values_of(Seq::empty(), other).len() == 0,
{
    assert(list.push((name, value)).drop_last() =~= list);
}

} // verus!
