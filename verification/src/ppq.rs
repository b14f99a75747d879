//! The PPQ service, which the agent's model calls are paid through: what is asked of it and how its
//! answers are read.
use vstd::prelude::*;

use crate::http::{auth_headers, bearer_fields, header_fields, is_header_value};
use crate::json::{
    array_view, json_text, lemma_array_item, lemma_array_len, member, text_of, Fields, Json,
    JsonView,
};
use crate::text::{join, joined, views};

verus! {

/// Where the service is found.
pub const API_BASE: &'static str = "https://api.ppq.ai";

/// An account of the service.
#[derive(Clone, Debug)]
pub struct PpqAccount {
    pub credit_id: String,
    pub api_key: String,
}

/// A top-up that waits to be paid.
#[derive(Clone, Debug)]
pub struct PpqTopup {
    pub invoice: String,
}

/// A message of a chat.
#[derive(Clone, Debug)]
pub struct PpqMessage {
    pub role: String,
    pub content: String,
}

impl PpqAccount {
    /// The same account once more.
    pub fn copy(&self) -> (copy: PpqAccount)
        ensures
            copy == *self,
    {
        PpqAccount { credit_id: self.credit_id.clone(), api_key: self.api_key.clone() }
    }
}

// ── Reading answers ─────────────────────────────────────────────────────

/// The part of an answer that carries its content: the member `data` where there is one.
pub open spec fn unwrapped(body: JsonView) -> JsonView {
    match member(body, "data"@) {
        Some(data) => data,
        None => body,
    }
}

/// The text under the first of these keys that has one.
pub open spec fn first_text(value: JsonView, keys: Seq<Seq<char>>) -> Option<Seq<char>>
    decreases keys.len(),
{
    if keys.len() == 0 {
        None
    } else if text_of(member(value, keys[0])) is Some {
        text_of(member(value, keys[0]))
    } else {
        first_text(value, keys.skip(1))
    }
}

/// The message that none of these keys has a text.
pub open spec fn missing_field(keys: Seq<Seq<char>>) -> Seq<char> {
    "Missing expected PPQ field; looked for one of: "@ + joined(keys, ", "@)
}

/// The texts of several string slices.
pub open spec fn key_views(keys: Seq<&str>) -> Seq<Seq<char>> {
    keys.map_values(|key: &str| key@)
}

/// The keys under which an answer may give the credit id.
pub open spec fn credit_id_keys() -> Seq<Seq<char>> {
    seq!["credit_id"@, "creditId"@]
}

/// The keys under which an answer may give the API key.
pub open spec fn api_key_keys() -> Seq<Seq<char>> {
    seq!["api_key"@, "apiKey"@]
}

/// The keys under which an answer may give an invoice.
pub open spec fn invoice_keys() -> Seq<Seq<char>> {
    seq![
        "invoice"@,
        "bolt11"@,
        "payment_request"@,
        "paymentRequest"@,
        "lightning_invoice"@,
        "lightningInvoice"@,
    ]
}

/// The text of a part of a chat answer: under `text`, or the part itself.
pub open spec fn part_text(part: JsonView) -> Option<Seq<char>> {
    match text_of(member(part, "text"@)) {
        Some(text) => Some(text),
        None => text_of(Some(part)),
    }
}

/// The texts of those parts that have one, in order.
pub open spec fn part_texts(parts: Seq<JsonView>) -> Seq<Seq<char>>
    decreases parts.len(),
{
    if parts.len() == 0 {
        Seq::empty()
    } else {
        match part_text(parts.last()) {
            Some(text) => part_texts(parts.drop_last()).push(text),
            None => part_texts(parts.drop_last()),
        }
    }
}

/// The content of the first choice of a chat answer.
pub open spec fn message_content(body: JsonView) -> Option<JsonView> {
    match member(body, "choices"@) {
        Some(JsonView::Array(choices)) => if choices.len() == 0 {
            None
        } else {
            match member(choices[0], "message"@) {
                Some(message) => member(message, "content"@),
                None => None,
            }
        },
        _ => None,
    }
}

/// What a chat answer says, or the message that it says nothing.
pub open spec fn chat_answer(body: JsonView) -> Result<Seq<char>, Seq<char>> {
    match message_content(body) {
        None => Err("PPQ response did not contain message content"@),
        Some(JsonView::Text(text)) => Ok(text),
        Some(JsonView::Array(parts)) => {
            let text = joined(part_texts(parts), "\n"@);
            if text.len() == 0 {
                Err("PPQ response content array was empty"@)
            } else {
                Ok(text)
            }
        },
        Some(other) => Err("Unsupported PPQ content payload: "@ + json_text(other)),
    }
}

/// The part of an answer that carries its content: the member `data` where there is one.
pub fn unwrap_data(value: &Json) -> (data: &Json)
    ensures
        data@ == unwrapped(value@),
{
    match value.get("data") {
        Some(data) => data,
        None => value,
    }
}

/// Finds the text under the first of these keys that has one.
pub fn get_string<'a>(value: &'a Json, keys: &[&str]) -> (found: Result<&'a str, String>)
    ensures
        match found {
            Ok(text) => first_text(value@, key_views(keys@)) == Some(text@),
            Err(message) => first_text(value@, key_views(keys@)) is None && message@
                == missing_field(key_views(keys@)),
        },
{
    let ghost all = key_views(keys@);
    let mut names: Vec<String> = Vec::new();
    let mut i: usize = 0;
    assert(all.skip(0) =~= all);
    assert(views(names@) =~= all.take(0));
    while i < keys.len()
        invariant
            i <= keys@.len(),
            all == key_views(keys@),
            first_text(value@, all) == first_text(value@, all.skip(i as int)),
            views(names@) == all.take(i as int),
        decreases keys@.len() - i,
    {
        let key = keys[i];
        assert(all[i as int] == key@);
        assert(all.skip(i as int).skip(1) =~= all.skip(i + 1));
        match value.get(key) {
            Some(found) => match found.as_str() {
                Some(text) => return Ok(text),
                None => {},
            },
            None => {},
        }
        let ghost before = names@;
        names.push(key.to_owned());
        assert(views(names@) =~= views(before).push(key@));
        assert(views(names@) =~= all.take(i + 1));
        i += 1;
    }
    assert(all.take(i as int) =~= all);
    Err(
        "Missing expected PPQ field; looked for one of: ".to_owned().concat(
            join(&names, ", ").as_str(),
        ),
    )
}

/// The content of the first choice of a chat answer.
fn find_content(body: &Json) -> (content: Option<&Json>)
    ensures
        match content {
            Some(content) => message_content(body@) == Some(content@),
            None => message_content(body@) is None,
        },
{
    let choices = match body.get("choices") {
        Some(choices) => match choices.as_array() {
            Some(choices) => choices,
            None => return None,
        },
        None => return None,
    };
    proof {
        lemma_array_len(choices@);
    }
    if choices.len() == 0 {
        return None;
    }
    proof {
        lemma_array_item(choices@, 0);
    }
    match choices[0].get("message") {
        Some(message) => message.get("content"),
        None => None,
    }
}

/// The text of a part of a chat answer.
fn read_part(part: &Json) -> (text: Option<&str>)
    ensures
        match text {
            Some(text) => part_text(part@) == Some(text@),
            None => part_text(part@) is None,
        },
{
    match part.get("text") {
        Some(text) => match text.as_str() {
            Some(text) => Some(text),
            None => part.as_str(),
        },
        None => part.as_str(),
    }
}

/// The texts of those parts that have one, in order.
fn read_parts(parts: &Vec<Json>) -> (texts: Vec<String>)
    ensures
        views(texts@) == part_texts(array_view(parts@)),
{
    let mut texts: Vec<String> = Vec::new();
    let mut i: usize = 0;
    assert(views(texts@) =~= part_texts(array_view(parts@.take(0))));
    while i < parts.len()
        invariant
            i <= parts@.len(),
            views(texts@) == part_texts(array_view(parts@.take(i as int))),
        decreases parts@.len() - i,
    {
        assert(parts@.take(i + 1).drop_last() =~= parts@.take(i as int));
        let ghost before = views(texts@);
        assert(array_view(parts@.take(i + 1)).drop_last() =~= array_view(parts@.take(i as int)));
        match read_part(&parts[i]) {
            Some(text) => {
                texts.push(text.to_owned());
                assert(views(texts@) =~= before.push(text@));
            },
            None => {},
        }
        i += 1;
    }
    assert(parts@.take(i as int) =~= parts@);
    texts
}

// ── The client ──────────────────────────────────────────────────────────

/// A request that is sent to the service.
#[derive(Debug)]
pub struct PpqRequest {
    pub url: String,
    pub headers: reqwest::header::HeaderMap,
    pub body: Json,
}

/// The body of a request for a top-up.
pub open spec fn topup_body(amount: JsonView) -> JsonView {
    JsonView::Object(map!["amount"@ => amount, "currency"@ => JsonView::Text("USD"@)])
}

/// A chat message as JSON.
pub open spec fn message_json(message: PpqMessage) -> JsonView {
    JsonView::Object(
        map![
            "role"@ => JsonView::Text(message.role@),
            "content"@ => JsonView::Text(message.content@),
        ],
    )
}

/// The body of a chat request.
pub open spec fn chat_body(messages: Seq<PpqMessage>, temperature: JsonView) -> JsonView {
    JsonView::Object(
        map![
            "model"@ => JsonView::Text("gpt-5-nano"@),
            "messages"@ => JsonView::Array(messages.map_values(|m: PpqMessage| message_json(m))),
            "temperature"@ => temperature,
        ],
    )
}

/// Whether `request` is a request authorized by `api_key`, or the refusal of a key that no header
/// can carry.
pub open spec fn authorized(
    request: Result<PpqRequest, String>,
    url: Seq<char>,
    api_key: Seq<char>,
    body: JsonView,
) -> bool {
    match request {
        Ok(request) => {
            &&& is_header_value("Bearer "@ + api_key)
            &&& request.url@ == url
            &&& header_fields(request.headers) == bearer_fields(api_key)
            &&& request.body@ == body
        },
        Err(message) => {
            &&& !is_header_value("Bearer "@ + api_key)
            &&& message@ == "failed to parse header value"@
        },
    }
}

/// The rules of the service's client.
#[derive(Clone, Copy, Debug)]
pub struct PpqClient {}

impl PpqClient {
    /// A client of the service.
    pub fn new() -> (client: PpqClient)
        ensures
            client == (PpqClient {  }),
    {
        PpqClient {  }
    }

    /// Where an account is created.
    pub fn create_account_url(&self) -> (url: String)
        ensures
            url@ == API_BASE@ + "/accounts/create"@,
    {
        API_BASE.to_owned().concat("/accounts/create")
    }

    /// Reads the account out of the answer to its creation.
    pub fn create_account(&self, body: &Json) -> (account: Result<PpqAccount, String>)
        ensures
            match (
                first_text(unwrapped(body@), credit_id_keys()),
                first_text(unwrapped(body@), api_key_keys()),
            ) {
                (None, _) => account matches Err(message) && message@ == missing_field(
                    credit_id_keys(),
                ),
                (Some(_), None) => account matches Err(message) && message@ == missing_field(
                    api_key_keys(),
                ),
                (Some(credit_id), Some(api_key)) => account matches Ok(account)
                    && account.credit_id@ == credit_id && account.api_key@ == api_key,
            },
    {
        let object = unwrap_data(body);
        let id_keys: [&str; 2] = ["credit_id", "creditId"];
        let key_keys: [&str; 2] = ["api_key", "apiKey"];
        assert(key_views(id_keys@) =~= credit_id_keys());
        assert(key_views(key_keys@) =~= api_key_keys());
        let credit_id = match get_string(object, &id_keys) {
            Ok(credit_id) => credit_id.to_owned(),
            Err(message) => return Err(message),
        };
        let api_key = match get_string(object, &key_keys) {
            Ok(api_key) => api_key.to_owned(),
            Err(message) => return Err(message),
        };
        Ok(PpqAccount { credit_id, api_key })
    }

    /// The request for a top-up that is paid over Lightning.
    pub fn topup_request(&self, account: &PpqAccount, amount_usd: Json) -> (request: Result<
        PpqRequest,
        String,
    >)
        ensures
            authorized(
                request,
                API_BASE@ + "/topup/create/btc-lightning"@,
                account.api_key@,
                topup_body(amount_usd@),
            ),
    {
        let ghost amount = amount_usd@;
        let headers = match auth_headers(account.api_key.as_str()) {
            Ok(headers) => headers,
            Err(message) => return Err(message),
        };
        let body = Fields::new()
            .with("amount", amount_usd)
            .with("currency", Json::text("USD"))
            .finish();
        assert(body@->Object_0 =~= topup_body(amount)->Object_0);
        Ok(
            PpqRequest {
                url: API_BASE.to_owned().concat("/topup/create/btc-lightning"),
                headers,
                body,
            },
        )
    }

    /// Reads the invoice out of the answer to a request for a top-up.
    pub fn create_lightning_topup(&self, body: &Json) -> (topup: Result<PpqTopup, String>)
        ensures
            match first_text(unwrapped(body@), invoice_keys()) {
                None => topup matches Err(message) && message@ == missing_field(invoice_keys()),
                Some(invoice) => topup matches Ok(topup) && topup.invoice@ == invoice,
            },
    {
        let keys: [&str; 6] = [
            "invoice",
            "bolt11",
            "payment_request",
            "paymentRequest",
            "lightning_invoice",
            "lightningInvoice",
        ];
        assert(key_views(keys@) =~= invoice_keys());
        match get_string(unwrap_data(body), &keys) {
            Ok(invoice) => Ok(PpqTopup { invoice: invoice.to_owned() }),
            Err(message) => Err(message),
        }
    }

    /// The request for a chat answer.
    pub fn chat_request(
        &self,
        api_key: &str,
        messages: &Vec<PpqMessage>,
        temperature: Json,
    ) -> (request: Result<PpqRequest, String>)
        ensures
            authorized(
                request,
                API_BASE@ + "/v1/chat/completions"@,
                api_key@,
                chat_body(messages@, temperature@),
            ),
    {
        let ghost warmth = temperature@;
        let headers = match auth_headers(api_key) {
            Ok(headers) => headers,
            Err(message) => return Err(message),
        };
        let body = Fields::new()
            .with("model", Json::text("gpt-5-nano"))
            .with("messages", messages_to_json(messages))
            .with("temperature", temperature)
            .finish();
        assert(body@->Object_0 =~= chat_body(messages@, warmth)->Object_0);
        Ok(
            PpqRequest {
                url: API_BASE.to_owned().concat("/v1/chat/completions"),
                headers,
                body,
            },
        )
    }

    /// Reads what a chat answer says.
    pub fn chat(&self, body: &Json) -> (answer: Result<String, String>)
        ensures
            match (answer, chat_answer(body@)) {
                (Ok(answer), Ok(text)) => answer@ == text,
                (Err(message), Err(text)) => message@ == text,
                _ => false,
            },
    {
        let Some(content) = find_content(body) else {
            return Err("PPQ response did not contain message content".to_owned());
        };
        match content {
            Json::Text(text) => Ok(text.clone()),
            Json::Array(parts) => {
                let text = join(&read_parts(parts), "\n");
                if text.as_str().is_empty() {
                    Err("PPQ response content array was empty".to_owned())
                } else {
                    Ok(text)
                }
            },
            other => Err(
                "Unsupported PPQ content payload: ".to_owned().concat(other.to_text().as_str()),
            ),
        }
    }
}

/// Chat messages as JSON.
fn messages_to_json(messages: &Vec<PpqMessage>) -> (json: Json)
    ensures
        json@ == JsonView::Array(messages@.map_values(|m: PpqMessage| message_json(m))),
{
    let mut items: Vec<Json> = Vec::new();
    let mut i: usize = 0;
    while i < messages.len()
        invariant
            i <= messages@.len(),
            array_view(items@) == messages@.take(i as int).map_values(
                |m: PpqMessage| message_json(m),
            ),
        decreases messages@.len() - i,
    {
        let ghost before = items@;
        let item = Fields::new()
            .with("role", Json::text(messages[i].role.as_str()))
            .with("content", Json::text(messages[i].content.as_str()))
            .finish();
        assert(item@->Object_0 =~= message_json(messages@[i as int])->Object_0);
        items.push(item);
        assert(items@.drop_last() =~= before);
        proof {
            lemma_array_len(before);
        }
        assert(array_view(items@) =~= messages@.take(i + 1).map_values(
            |m: PpqMessage| message_json(m),
        ));
        i += 1;
    }
    assert(messages@.take(i as int) =~= messages@);
    Json::Array(items)
}

// ── Laws ────────────────────────────────────────────────────────────────

/// An answer is read from its member `data` where it has one, and from itself where it has none.
pub proof fn law_answers_are_unwrapped(body: JsonView, data: JsonView)
    ensures
        member(body, "data"@) == Some(data) ==> unwrapped(body) == data,
        member(body, "data"@) is None ==> unwrapped(body) == body,
{
}

/// Of several keys the first that has a text gives it, and where none has one there is none.
pub proof fn law_first_keys_win(value: JsonView, keys: Seq<Seq<char>>, i: int, text: Seq<char>)
    ensures
        0 <= i < keys.len() && member(value, keys[i]) == Some(JsonView::Text(text)) && (forall|
            j: int,
        |
            0 <= j < i ==> !(member(value, #[trigger] keys[j]) matches Some(JsonView::Text(_))))
            ==> first_text(value, keys) == Some(text),
        (forall|j: int|
            0 <= j < keys.len() ==> !(member(value, #[trigger] keys[j]) matches Some(
                JsonView::Text(_),
            ))) ==> first_text(value, keys) is None,
    decreases keys.len(),
{
    if keys.len() > 0 {
        let rest = keys.skip(1);
        law_first_keys_win(value, rest, i - 1, text);
        assert forall|j: int| 0 <= j < rest.len() implies #[trigger] rest[j] == keys[j + 1] by {}
        if forall|j: int|
            0 <= j < keys.len() ==> !(member(value, #[trigger] keys[j]) matches Some(
                JsonView::Text(_),
            )) {
            assert(!(member(value, keys[0]) matches Some(JsonView::Text(_))));
            assert forall|j: int| 0 <= j < rest.len() implies !(member(
                value,
                #[trigger] rest[j],
            ) matches Some(JsonView::Text(_))) by {
                assert(!(member(value, keys[j + 1]) matches Some(JsonView::Text(_))));
            }
        }
        if 0 < i < keys.len() && member(value, keys[i]) == Some(JsonView::Text(text)) && (forall|
            j: int,
        |
            0 <= j < i ==> !(member(value, #[trigger] keys[j]) matches Some(JsonView::Text(_)))) {
            assert(!(member(value, keys[0]) matches Some(JsonView::Text(_))));
            assert forall|j: int| 0 <= j < i - 1 implies !(member(
                value,
                #[trigger] rest[j],
            ) matches Some(JsonView::Text(_))) by {
                assert(!(member(value, keys[j + 1]) matches Some(JsonView::Text(_))));
            }
        }
    }
}

/// An account is read from its credit id and its API key, each under either of its names, and each
/// as the answer has it.
pub proof fn law_accounts_are_read_from_their_fields(answer: JsonView, id: Seq<char>, key: Seq<char>)
    ensures
        member(answer, "credit_id"@) == Some(JsonView::Text(id)) ==> first_text(
            answer,
            credit_id_keys(),
        ) == Some(id),
        member(answer, "credit_id"@) is None && member(answer, "creditId"@) == Some(
            JsonView::Text(id),
        ) ==> first_text(answer, credit_id_keys()) == Some(id),
        member(answer, "api_key"@) == Some(JsonView::Text(key)) ==> first_text(
            answer,
            api_key_keys(),
        ) == Some(key),
        member(answer, "api_key"@) is None && member(answer, "apiKey"@) == Some(
            JsonView::Text(key),
        ) ==> first_text(answer, api_key_keys()) == Some(key),
        member(answer, "credit_id"@) is None && member(answer, "creditId"@) is None ==> first_text(
            answer,
            credit_id_keys(),
        ) is None,
        member(answer, "api_key"@) is None && member(answer, "apiKey"@) is None ==> first_text(
            answer,
            api_key_keys(),
        ) is None,
{
    reveal_with_fuel(first_text, 4);
    assert(credit_id_keys().skip(1)[0] == "creditId"@);
    assert(credit_id_keys().skip(1).skip(1).len() == 0);
    assert(api_key_keys().skip(1)[0] == "apiKey"@);
    assert(api_key_keys().skip(1).skip(1).len() == 0);
}

/// An invoice is read from whichever of its names the answer has, as the answer has it. The names
/// are looked for in this order.
pub proof fn law_invoices_are_read_under_any_name(answer: JsonView, name: int, invoice: Seq<char>)
    requires
        0 <= name < 6,
        forall|j: int|
            0 <= j < 6 && j != name ==> member(answer, #[trigger] invoice_keys()[j]) is None,
        member(answer, invoice_keys()[name]) == Some(JsonView::Text(invoice)),
    ensures
        first_text(answer, invoice_keys()) == Some(invoice),
        invoice_keys().len() == 6,
        invoice_keys()[0] == "invoice"@,
        invoice_keys()[1] == "bolt11"@,
        invoice_keys()[2] == "payment_request"@,
        invoice_keys()[3] == "paymentRequest"@,
        invoice_keys()[4] == "lightning_invoice"@,
        invoice_keys()[5] == "lightningInvoice"@,
{
    law_first_keys_win(answer, invoice_keys(), name, invoice);
}

/// A field that is missing is told by all the names it was looked for under.
pub proof fn law_missing_fields_are_named(keys: Seq<Seq<char>>)
    ensures
        joined(keys, ", "@).is_suffix_of(missing_field(keys)),
{
    let text = missing_field(keys);
    let named = joined(keys, ", "@);
    assert(text.subrange(text.len() - named.len(), text.len() as int) =~= named);
}

/// What a chat answer says is the content of the message of its first choice: a text as it is, and
/// of parts their texts, in order, each on a line of its own.
pub proof fn law_chat_answers_are_the_first_choice(
    body: JsonView,
    choices: Seq<JsonView>,
    message: JsonView,
    text: Seq<char>,
    parts: Seq<JsonView>,
)
    requires
        member(body, "choices"@) == Some(JsonView::Array(choices)),
        choices.len() > 0,
        member(choices[0], "message"@) == Some(message),
    ensures
        member(message, "content"@) == Some(JsonView::Text(text)) ==> chat_answer(body) == Ok::<
            _,
            Seq<char>,
        >(text),
        member(message, "content"@) == Some(JsonView::Array(parts)) && joined(
            part_texts(parts),
            "\n"@,
        ).len() > 0 ==> chat_answer(body) == Ok::<_, Seq<char>>(joined(part_texts(parts), "\n"@)),
        member(message, "content"@) is None ==> chat_answer(body) is Err,
        member(message, "content"@) matches Some(content) ==> (!(content is Text)
            && !(content is Array) ==> chat_answer(body) is Err),
{
}

/// The texts of parts come in the order of the parts, one for each part that has a text: under its
/// member `text`, or as the part itself.
pub proof fn law_parts_give_their_texts(parts: Seq<JsonView>, part: JsonView, text: Seq<char>)
    ensures
        part == JsonView::Text(text) || member(part, "text"@) == Some(JsonView::Text(text))
            ==> part_texts(parts.push(part)) == part_texts(parts).push(text),
        !(part is Text) && !(member(part, "text"@) matches Some(JsonView::Text(_)))
            ==> part_texts(parts.push(part)) == part_texts(parts),
        part_texts(Seq::empty()).len() == 0,
{
    assert(parts.push(part).drop_last() =~= parts);
}

/// A top-up is asked for over the amount that it is to be, in dollars.
pub proof fn law_topups_are_asked_for_in_dollars(amount: JsonView)
    ensures
        member(topup_body(amount), "amount"@) == Some(amount),
        member(topup_body(amount), "currency"@) == Some(JsonView::Text("USD"@)),
{
    reveal_strlit("amount");
    reveal_strlit("currency");
    assert("amount"@.len() == 6 && "currency"@.len() == 8);
}

/// A chat is sent message by message, in order, each with its role and its content.
pub proof fn law_chats_are_sent_in_order(messages: Seq<PpqMessage>, warmth: JsonView, i: int)
    requires
        0 <= i < messages.len(),
    ensures
        member(chat_body(messages, warmth), "messages"@) matches Some(JsonView::Array(sent)) && {
            &&& sent.len() == messages.len()
            &&& member(sent[i], "role"@) == Some(JsonView::Text(messages[i].role@))
            &&& member(sent[i], "content"@) == Some(JsonView::Text(messages[i].content@))
        },
        member(chat_body(messages, warmth), "temperature"@) == Some(warmth),
        member(chat_body(messages, warmth), "model"@) is Some,
{
    reveal_strlit("model");
    reveal_strlit("messages");
    reveal_strlit("temperature");
    reveal_strlit("role");
    reveal_strlit("content");
    assert("model"@.len() == 5 && "messages"@.len() == 8 && "temperature"@.len() == 11 && "role"@.len()
        == 4 && "content"@.len() == 7);
}

/// A request carries the key that it is made with, and no other: its authorization is the word
/// `Bearer`, a blank and the key, and a key that no header can carry makes no request.
pub proof fn law_requests_carry_their_key(
    request: Result<PpqRequest, String>,
    url: Seq<char>,
    api_key: Seq<char>,
    body: JsonView,
)
    requires
        authorized(request, url, api_key, body),
    ensures
        request is Ok <==> is_header_value("Bearer "@ + api_key),
        request matches Ok(sent) ==> {
            &&& sent.url@ == url
            &&& sent.body@ == body
            &&& header_fields(sent.headers).contains_key("authorization"@)
            &&& header_fields(sent.headers)["authorization"@] == seq![
                vstd::utf8::encode_utf8("Bearer "@ + api_key),
            ]
            &&& header_fields(sent.headers).contains_key("content-type"@)
            &&& header_fields(sent.headers)["content-type"@] == seq![
                vstd::utf8::encode_utf8("application/json"@),
            ]
        },
{
    reveal_strlit("authorization");
    reveal_strlit("content-type");
    assert("authorization"@.len() == 13 && "content-type"@.len() == 12);
}

/// An account that was created is read as the answer has it, wrapped in `data` or not, and an
/// answer without one of its fields gives none. So is the invoice of a top-up.
pub proof fn law_created_accounts_are_read(
    client: PpqClient,
    body: Json,
    id: Seq<char>,
    key: Seq<char>,
    account: Result<PpqAccount, String>,
    topup: Result<PpqTopup, String>,
)
    requires
        call_ensures(PpqClient::create_account, (&client, &body), account),
        call_ensures(PpqClient::create_lightning_topup, (&client, &body), topup),
    ensures
        ({
            let answer = match member(body@, "data"@) {
                Some(data) => data,
                None => body@,
            };
            &&& member(answer, "credit_id"@) == Some(JsonView::Text(id)) && member(
                answer,
                "api_key"@,
            ) == Some(JsonView::Text(key)) ==> (account matches Ok(read) && read.credit_id@ == id
                && read.api_key@ == key)
            &&& member(answer, "credit_id"@) is None && member(answer, "creditId"@) is None
                ==> account is Err
            &&& member(answer, "api_key"@) is None && member(answer, "apiKey"@) is None
                ==> account is Err
            &&& member(answer, "invoice"@) == Some(JsonView::Text(id)) ==> (topup matches Ok(read)
                && read.invoice@ == id)
        }),
{
    let answer = unwrapped(body@);
    law_accounts_are_read_from_their_fields(answer, id, key);
    assert(invoice_keys()[0] == "invoice"@);
}

/// Requests go to the service, each to its own address, with the key of the account that they are
/// for.
pub proof fn law_requests_go_to_the_service(
    client: PpqClient,
    account: PpqAccount,
    amount: Json,
    key: &str,
    messages: Vec<PpqMessage>,
    warmth: Json,
    url: String,
    topup: Result<PpqRequest, String>,
    chat: Result<PpqRequest, String>,
)
    requires
        call_ensures(PpqClient::create_account_url, (&client,), url),
        call_ensures(PpqClient::topup_request, (&client, &account, amount), topup),
        call_ensures(PpqClient::chat_request, (&client, key, &messages, warmth), chat),
    ensures
        url@ == "https://api.ppq.ai"@ + "/accounts/create"@,
        topup matches Ok(request) ==> {
            &&& request.url@ == "https://api.ppq.ai"@ + "/topup/create/btc-lightning"@
            &&& member(request.body@, "amount"@) == Some(amount@)
            &&& member(request.body@, "currency"@) == Some(JsonView::Text("USD"@))
            &&& header_fields(request.headers).contains_key("authorization"@)
            &&& header_fields(request.headers)["authorization"@] == seq![
                vstd::utf8::encode_utf8("Bearer "@ + account.api_key@),
            ]
        },
        chat matches Ok(request) ==> {
            &&& request.url@ == "https://api.ppq.ai"@ + "/v1/chat/completions"@
            &&& member(request.body@, "temperature"@) == Some(warmth@)
            &&& header_fields(request.headers).contains_key("authorization"@)
            &&& header_fields(request.headers)["authorization"@] == seq![
                vstd::utf8::encode_utf8("Bearer "@ + key@),
            ]
        },
{
    law_requests_carry_their_key(
        topup,
        API_BASE@ + "/topup/create/btc-lightning"@,
        account.api_key@,
        topup_body(amount@),
    );
    law_requests_carry_their_key(
        chat,
        API_BASE@ + "/v1/chat/completions"@,
        key@,
        chat_body(messages@, warmth@),
    );
    law_topups_are_asked_for_in_dollars(amount@);
    reveal_strlit("model");
    reveal_strlit("messages");
    reveal_strlit("temperature");
    assert("model"@.len() == 5 && "messages"@.len() == 8 && "temperature"@.len() == 11);
}

} // verus!
