//! The rules of the tool that keeps values in the browser's local storage.
use vstd::prelude::*;

use crate::json::{
    array_view, count_json, json_reading, json_text, lemma_array_len, lemma_one_more_level, member,
    optional_json, optional_text_json, reads_back, Fields, Json, JsonView, NESTING,
};
use crate::text::{begins_with, optional_view, same_text, starts_with, to_chars, views};

verus! {

/// What the storage tool is asked to do.
#[derive(Debug)]
pub enum KvRequest {
    Store { key: String, value: Json },
    Get { key: String },
    Delete { key: String },
    List,
}

/// What a `KvRequest` says.
pub enum KvRequestView {
    Store { key: Seq<char>, value: JsonView },
    Get { key: Seq<char> },
    Delete { key: Seq<char> },
    List,
}

impl View for KvRequest {
    type V = KvRequestView;

    open spec fn view(&self) -> KvRequestView {
        match *self {
            KvRequest::Store { key, value } => KvRequestView::Store { key: key@, value: value@ },
            KvRequest::Get { key } => KvRequestView::Get { key: key@ },
            KvRequest::Delete { key } => KvRequestView::Delete { key: key@ },
            KvRequest::List => KvRequestView::List,
        }
    }
}

/// What the arguments of the storage tool ask for, or the message that refuses them.
pub open spec fn kv_asked(
    action: Seq<char>,
    key: Option<Seq<char>>,
    value: Option<JsonView>,
) -> Result<KvRequestView, Seq<char>> {
    if action == "set"@ {
        match (key, value) {
            (None, _) => Err("kv_store set requires a key"@),
            (_, None) => Err("kv_store set requires a value"@),
            (Some(key), Some(value)) => Ok(KvRequestView::Store { key, value }),
        }
    } else if action == "get"@ {
        match key {
            None => Err("kv_store get requires a key"@),
            Some(key) => Ok(KvRequestView::Get { key }),
        }
    } else if action == "delete"@ {
        match key {
            None => Err("kv_store delete requires a key"@),
            Some(key) => Ok(KvRequestView::Delete { key }),
        }
    } else if action == "list"@ {
        Ok(KvRequestView::List)
    } else {
        Err("Unsupported kv_store action: "@ + action + ". Use set, get, delete, or list."@)
    }
}

/// Reads the arguments of the storage tool.
pub fn kv_store(action: &str, key: Option<String>, value: Option<Json>) -> (request: Result<
    KvRequest,
    String,
>)
    ensures
        match (
            request,
            kv_asked(action@, optional_view(key), optional_json(value)),
        ) {
            (Ok(request), Ok(asked)) => request@ == asked,
            (Err(message), Err(text)) => message@ == text,
            _ => false,
        },
{
    if same_text(action, "set") {
        let Some(key) = key else {
            return Err("kv_store set requires a key".to_owned());
        };
        let Some(value) = value else {
            return Err("kv_store set requires a value".to_owned());
        };
        Ok(KvRequest::Store { key, value })
    } else if same_text(action, "get") {
        let Some(key) = key else {
            return Err("kv_store get requires a key".to_owned());
        };
        Ok(KvRequest::Get { key })
    } else if same_text(action, "delete") {
        let Some(key) = key else {
            return Err("kv_store delete requires a key".to_owned());
        };
        Ok(KvRequest::Delete { key })
    } else if same_text(action, "list") {
        Ok(KvRequest::List)
    } else {
        Err(
            "Unsupported kv_store action: ".to_owned().concat(action).concat(
                ". Use set, get, delete, or list.",
            ),
        )
    }
}

// ── Listing keys ────────────────────────────────────────────────────────

/// Whether `a` comes before `b` in the order of code points, or is the same.
pub open spec fn in_order(a: Seq<char>, b: Seq<char>) -> bool
    decreases a.len(),
{
    if a.len() == 0 {
        true
    } else if b.len() == 0 {
        false
    } else if a[0] == b[0] {
        in_order(a.skip(1), b.skip(1))
    } else {
        a[0] < b[0]
    }
}

/// Whether each text is in order with every later one.
pub open spec fn sorted_texts(texts: Seq<Seq<char>>) -> bool {
    forall|i: int, j: int|
        0 <= i <= j < texts.len() ==> in_order(#[trigger] texts[i], #[trigger] texts[j])
}

/// Whether a key is asked for: every key is where there is no prefix.
pub open spec fn has_prefix(key: Seq<char>, prefix: Option<Seq<char>>) -> bool {
    match prefix {
        Some(prefix) => begins_with(key, prefix),
        None => true,
    }
}

/// The keys that are asked for, in the order in which storage has them.
pub open spec fn asked_keys(keys: Seq<Seq<char>>, prefix: Option<Seq<char>>) -> Seq<Seq<char>> {
    keys.filter(|key: Seq<char>| has_prefix(key, prefix))
}

/// The order of texts is total.
pub proof fn lemma_in_order_total(a: Seq<char>, b: Seq<char>)
    ensures
        in_order(a, b) || in_order(b, a),
        in_order(a, b) && in_order(b, a) ==> a == b,
    decreases a.len(),
{
    if a.len() > 0 && b.len() > 0 && a[0] == b[0] {
        lemma_in_order_total(a.skip(1), b.skip(1));
        if in_order(a, b) && in_order(b, a) {
            assert(a =~= seq![a[0]] + a.skip(1));
            assert(b =~= seq![b[0]] + b.skip(1));
        }
    } else if a.len() == 0 && b.len() == 0 {
        assert(a =~= b);
    }
}

/// The order of texts is transitive.
pub proof fn lemma_in_order_transitive(a: Seq<char>, b: Seq<char>, c: Seq<char>)
    requires
        in_order(a, b),
        in_order(b, c),
    ensures
        in_order(a, c),
    decreases a.len(),
{
    if a.len() > 0 && b.len() > 0 && c.len() > 0 && a[0] == b[0] && b[0] == c[0] {
        lemma_in_order_transitive(a.skip(1), b.skip(1), c.skip(1));
    }
}

/// Whether `a` comes before `b` in the order of code points, or is the same.
fn is_in_order(a: &str, b: &str) -> (r: bool)
    ensures
        r == in_order(a@, b@),
{
    let (a, b) = (to_chars(a), to_chars(b));
    let mut i: usize = 0;
    assert(a@.skip(0) =~= a@);
    assert(b@.skip(0) =~= b@);
    while i < a.len() && i < b.len() && a[i] == b[i]
        invariant
            i <= a@.len(),
            i <= b@.len(),
            in_order(a@, b@) == in_order(a@.skip(i as int), b@.skip(i as int)),
        decreases a@.len() - i,
    {
        assert(a@.skip(i as int).skip(1) =~= a@.skip(i + 1));
        assert(b@.skip(i as int).skip(1) =~= b@.skip(i + 1));
        i += 1;
    }
    if i == a.len() {
        true
    } else if i == b.len() {
        false
    } else {
        a[i] < b[i]
    }
}

/// Puts a text into its place among sorted ones.
fn insert_sorted(texts: &mut Vec<String>, text: String)
    requires
        sorted_texts(views(old(texts)@)),
    ensures
        sorted_texts(views(final(texts)@)),
        views(final(texts)@).to_multiset() == views(old(texts)@).to_multiset().insert(text@),
{
    let ghost before = views(texts@);
    let mut at: usize = 0;
    while at < texts.len() && is_in_order(texts[at].as_str(), text.as_str())
        invariant
            at <= texts@.len(),
            before == views(texts@),
            forall|j: int| 0 <= j < at ==> in_order(#[trigger] before[j], text@),
        decreases texts@.len() - at,
    {
        assert(before[at as int] == texts@[at as int]@);
        at += 1;
    }
    let ghost added = text@;
    proof {
        if at < texts@.len() {
            lemma_in_order_total(texts@[at as int]@, added);
            assert forall|j: int| at <= j < before.len() implies in_order(
                added,
                #[trigger] before[j],
            ) by {
                lemma_in_order_transitive(added, before[at as int], before[j]);
            }
        }
        lemma_in_order_total(added, added);
    }
    texts.insert(at, text);
    assert(views(texts@) =~= before.insert(at as int, added));
    proof {
        vstd::seq_lib::to_multiset_insert(before, at as int, added);
    }
}

/// The keys of local storage that begin with the prefix, sorted.
pub fn list_keys(keys: &Vec<String>, prefix: &Option<String>) -> (listed: Vec<String>)
    ensures
        sorted_texts(views(listed@)),
        views(listed@).to_multiset() == asked_keys(
            views(keys@),
            optional_view(*prefix),
        ).to_multiset(),
{
    let ghost prefix_view = optional_view(*prefix);
    let mut listed: Vec<String> = Vec::new();
    let mut i: usize = 0;
    proof {
        reveal(Seq::filter);
        assert(views(listed@) =~= asked_keys(views(keys@.take(0)), prefix_view));
    }
    while i < keys.len()
        invariant
            i <= keys@.len(),
            prefix_view == optional_view(*prefix),
            sorted_texts(views(listed@)),
            views(listed@).to_multiset() == asked_keys(
                views(keys@.take(i as int)),
                prefix_view,
            ).to_multiset(),
        decreases keys@.len() - i,
    {
        let asked = match prefix {
            Some(prefix) => starts_with(keys[i].as_str(), prefix.as_str()),
            None => true,
        };
        proof {
            reveal(Seq::filter);
            assert(views(keys@.take(i + 1)).drop_last() =~= views(keys@.take(i as int)));
            assert(views(keys@.take(i + 1)).last() == keys@[i as int]@);
            vstd::seq_lib::to_multiset_build(
                asked_keys(views(keys@.take(i as int)), prefix_view),
                keys@[i as int]@,
            );
        }
        if asked {
            insert_sorted(&mut listed, keys[i].clone());
        }
        i += 1;
    }
    assert(keys@.take(i as int) =~= keys@);
    listed
}

// ── Replies ─────────────────────────────────────────────────────────────

/// Texts as a JSON array.
pub open spec fn texts_json(texts: Seq<Seq<char>>) -> JsonView {
    JsonView::Array(texts.map_values(|text: Seq<char>| JsonView::Text(text)))
}

/// The reply after a value was stored.
pub open spec fn set_reply_json(key: Seq<char>) -> JsonView {
    JsonView::Object(
        map![
            "action"@ => JsonView::Text("set"@),
            "key"@ => JsonView::Text(key),
            "stored"@ => JsonView::Bool(true),
        ],
    )
}

/// The value of a text that storage keeps, where there is one and it is JSON.
pub open spec fn value_of(text: Option<Seq<char>>) -> Option<JsonView> {
    match text {
        Some(text) => json_reading(text),
        None => None,
    }
}

/// The reply that gives a stored value, or says that there is none.
pub open spec fn get_reply_json(key: Seq<char>, value: Option<JsonView>) -> JsonView {
    JsonView::Object(
        map![
            "action"@ => JsonView::Text("get"@),
            "key"@ => JsonView::Text(key),
            "found"@ => JsonView::Bool(value is Some),
            "value"@ => match value {
                Some(value) => value,
                None => JsonView::Null,
            },
        ],
    )
}

/// The reply after a value was deleted.
pub open spec fn delete_reply_json(key: Seq<char>) -> JsonView {
    JsonView::Object(
        map![
            "action"@ => JsonView::Text("delete"@),
            "key"@ => JsonView::Text(key),
            "deleted"@ => JsonView::Bool(true),
        ],
    )
}

/// The reply that lists keys.
pub open spec fn list_reply_json(prefix: Option<Seq<char>>, keys: Seq<Seq<char>>) -> JsonView {
    JsonView::Object(
        map![
            "action"@ => JsonView::Text("list"@),
            "prefix"@ => optional_text_json(prefix),
            "count"@ => count_json(keys.len() as u64),
            "keys"@ => texts_json(keys),
        ],
    )
}

/// Texts as a JSON array.
pub fn texts_to_json(texts: &Vec<String>) -> (json: Json)
    ensures
        json@ == texts_json(views(texts@)),
{
    let mut items: Vec<Json> = Vec::new();
    let mut i: usize = 0;
    while i < texts.len()
        invariant
            i <= texts@.len(),
            array_view(items@) == texts_json(views(texts@.take(i as int)))->Array_0,
        decreases texts@.len() - i,
    {
        let ghost before = items@;
        items.push(Json::text(texts[i].as_str()));
        assert(items@.drop_last() =~= before);
        proof {
            lemma_array_len(before);
        }
        assert(array_view(items@) =~= texts_json(views(texts@.take(i + 1)))->Array_0);
        i += 1;
    }
    assert(texts@.take(i as int) =~= texts@);
    Json::Array(items)
}

/// The reply after a value was stored.
pub fn set_reply(key: &str) -> (reply: Json)
    ensures
        reply@ == set_reply_json(key@),
{
    let reply = Fields::new()
        .with("action", Json::text("set"))
        .with("key", Json::text(key))
        .with("stored", Json::Bool(true))
        .finish();
    assert(reply@->Object_0 =~= set_reply_json(key@)->Object_0);
    reply
}

/// The reply that gives a stored value, or says that there is none. Storage keeps the JSON text of
/// a value: a text that is no JSON counts as none.
pub fn get_reply(key: &str, text: &Option<String>) -> (reply: Json)
    ensures
        reply@ == get_reply_json(key@, value_of(optional_view(*text))),
{
    let value = match text {
        Some(text) => Json::from_text(text.as_str()),
        None => None,
    };
    let ghost stored = optional_json(value);
    let found = value.is_some();
    let value = match value {
        Some(value) => value,
        None => Json::Null,
    };
    let reply = Fields::new()
        .with("action", Json::text("get"))
        .with("key", Json::text(key))
        .with("found", Json::Bool(found))
        .with("value", value)
        .finish();
    assert(reply@->Object_0 =~= get_reply_json(key@, stored)->Object_0);
    reply
}

/// The reply after a value was deleted.
pub fn delete_reply(key: &str) -> (reply: Json)
    ensures
        reply@ == delete_reply_json(key@),
{
    let reply = Fields::new()
        .with("action", Json::text("delete"))
        .with("key", Json::text(key))
        .with("deleted", Json::Bool(true))
        .finish();
    assert(reply@->Object_0 =~= delete_reply_json(key@)->Object_0);
    reply
}

/// The reply that lists keys.
pub fn list_reply(prefix: &Option<String>, keys: &Vec<String>) -> (reply: Json)
    ensures
        reply@ == list_reply_json(optional_view(*prefix), views(keys@)),
{
    let reply = Fields::new()
        .with("action", Json::text("list"))
        .with("prefix", Json::optional_text(prefix))
        .with("count", Json::count(keys.len() as u64))
        .with("keys", texts_to_json(keys))
        .finish();
    assert(reply@->Object_0 =~= list_reply_json(optional_view(*prefix), views(keys@))->Object_0);
    reply
}

// ── Laws ────────────────────────────────────────────────────────────────

/// What local storage keeps: under each key the JSON text of a value.
pub type Storage = Map<Seq<char>, Seq<char>>;

/// What local storage keeps after a request.
pub open spec fn storage_after(storage: Storage, request: KvRequestView) -> Storage {
    match request {
        KvRequestView::Store { key, value } => storage.insert(key, json_text(value)),
        KvRequestView::Delete { key } => storage.remove(key),
        _ => storage,
    }
}

/// The text that local storage keeps under a key.
pub open spec fn text_at(storage: Storage, key: Seq<char>) -> Option<Seq<char>> {
    if storage.contains_key(key) {
        Some(storage[key])
    } else {
        None
    }
}

/// The reply to a request for the value under a key.
pub open spec fn read_reply(storage: Storage, key: Seq<char>) -> JsonView {
    get_reply_json(key, value_of(text_at(storage, key)))
}

/// What is set under a key is what a later get gives back: the value that its text is read as,
/// which is the value itself wherever a value comes back from its text, as `Json::to_text` promises
/// of values that `reads_back` admits. The reply comes back from its own text too, where the value
/// leaves a level of nesting for it.
pub proof fn law_set_values_are_given_back(storage: Storage, key: Seq<char>, value: JsonView)
    ensures
        kv_asked("set"@, Some(key), Some(value)) == Ok::<_, Seq<char>>(
            KvRequestView::Store { key, value },
        ),
        kv_asked("get"@, Some(key), None) == Ok::<_, Seq<char>>(KvRequestView::Get { key }),
        ({
            let set = storage_after(storage, KvRequestView::Store { key, value });
            let got = read_reply(set, key);
            &&& got == get_reply_json(key, json_reading(json_text(value)))
            &&& json_reading(json_text(value)) == Some(value) ==> got == get_reply_json(
                key,
                Some(value),
            )
            &&& reads_back(value, (NESTING - 1) as nat) ==> reads_back(value, NESTING as nat)
            &&& json_reading(json_text(value)) == Some(value) && reads_back(
                value,
                (NESTING - 1) as nat,
            ) ==> reads_back(got, NESTING as nat)
            &&& storage_after(set, KvRequestView::Get { key }) == set
        }),
{
    lemma_actions_differ();
    let set = storage_after(storage, KvRequestView::Store { key, value });
    assert(text_at(set, key) == Some(json_text(value)));
    if reads_back(value, (NESTING - 1) as nat) {
        lemma_one_more_level(value, (NESTING - 1) as nat);
    }
    if json_reading(json_text(value)) == Some(value) && reads_back(value, (NESTING - 1) as nat) {
        let members = read_reply(set, key)->Object_0;
        assert forall|name: Seq<char>| #[trigger] members.contains_key(name) implies reads_back(
            members[name],
            (NESTING - 1) as nat,
        ) by {
            assert(name == "action"@ || name == "key"@ || name == "found"@ || name == "value"@);
        }
    }
}

/// What is deleted is gone: a later get finds nothing under the key.
pub proof fn law_deleted_values_are_not_found(storage: Storage, key: Seq<char>)
    ensures
        kv_asked("delete"@, Some(key), None) == Ok::<_, Seq<char>>(KvRequestView::Delete { key }),
        read_reply(storage_after(storage, KvRequestView::Delete { key }), key) == get_reply_json(
            key,
            None,
        ),
{
    lemma_actions_differ();
}

/// A request changes nothing under any other key, and only setting and deleting change anything.
pub proof fn law_other_keys_keep_their_values(
    storage: Storage,
    request: KvRequestView,
    other: Seq<char>,
)
    requires
        request matches KvRequestView::Store { key, .. } ==> key != other,
        request matches KvRequestView::Delete { key } ==> key != other,
    ensures
        text_at(storage_after(storage, request), other) == text_at(storage, other),
        read_reply(storage_after(storage, request), other) == read_reply(storage, other),
        request is Get || request is List ==> storage_after(storage, request) == storage,
{
}

proof fn lemma_actions_differ()
    ensures
        "set"@ != "get"@,
        "delete"@ != "set"@,
        "delete"@ != "get"@,
{
    reveal_strlit("set");
    reveal_strlit("get");
    reveal_strlit("delete");
    assert("set"@[0] != "get"@[0]);
    assert("delete"@.len() != "set"@.len());
    assert("delete"@.len() != "get"@.len());
}

/// Texts are put in order by the first character in which they differ, and a text comes before any
/// text that goes on from it.
pub proof fn law_texts_are_ordered_by_their_characters(
    same: Seq<char>,
    less: char,
    more: char,
    a: Seq<char>,
    b: Seq<char>,
)
    requires
        less < more,
    ensures
        in_order(same + seq![less] + a, same + seq![more] + b),
        !in_order(same + seq![more] + b, same + seq![less] + a),
        in_order(same, same + a),
        a.len() > 0 ==> !in_order(same + a, same),
    decreases same.len(),
{
    let (x, y) = (same + seq![less] + a, same + seq![more] + b);
    if same.len() == 0 {
        assert(x[0] == less && y[0] == more);
        assert(same + a =~= a);
    } else {
        let rest = same.skip(1);
        law_texts_are_ordered_by_their_characters(rest, less, more, a, b);
        assert(x.skip(1) =~= rest + seq![less] + a);
        assert(y.skip(1) =~= rest + seq![more] + b);
        assert((same + a).skip(1) =~= rest + a);
        assert(x[0] == same[0] && y[0] == same[0] && (same + a)[0] == same[0]);
    }
}

/// Listed keys come in order: of any two, the one that stands later does not come before the other.
pub proof fn law_listed_keys_come_in_order(listed: Seq<Seq<char>>, i: int, j: int)
    requires
        sorted_texts(listed),
        0 <= i < j < listed.len(),
    ensures
        in_order(listed[i], listed[j]),
        listed[i] != listed[j] ==> !in_order(listed[j], listed[i]),
{
    lemma_in_order_total(listed[i], listed[j]);
}

/// A reply names the action and the key, and says what came of it: that a value was stored or
/// deleted, the value that was found, or the keys with their number and the prefix.
pub proof fn law_replies_say_what_came_of_it(
    key: Seq<char>,
    value: Option<JsonView>,
    prefix: Option<Seq<char>>,
    keys: Seq<Seq<char>>,
)
    ensures
        member(set_reply_json(key), "action"@) == Some(JsonView::Text("set"@)),
        member(set_reply_json(key), "key"@) == Some(JsonView::Text(key)),
        member(set_reply_json(key), "stored"@) == Some(JsonView::Bool(true)),
        member(get_reply_json(key, value), "action"@) == Some(JsonView::Text("get"@)),
        member(get_reply_json(key, value), "key"@) == Some(JsonView::Text(key)),
        member(get_reply_json(key, value), "found"@) == Some(JsonView::Bool(value is Some)),
        member(get_reply_json(key, value), "value"@) == match value {
            Some(value) => Some(value),
            None => Some(JsonView::Null),
        },
        member(delete_reply_json(key), "action"@) == Some(JsonView::Text("delete"@)),
        member(delete_reply_json(key), "key"@) == Some(JsonView::Text(key)),
        member(delete_reply_json(key), "deleted"@) == Some(JsonView::Bool(true)),
        member(list_reply_json(prefix, keys), "action"@) == Some(JsonView::Text("list"@)),
        member(list_reply_json(prefix, keys), "prefix"@) == match prefix {
            Some(prefix) => Some(JsonView::Text(prefix)),
            None => Some(JsonView::Null),
        },
        member(list_reply_json(prefix, keys), "count"@) == Some(count_json(keys.len() as u64)),
        member(list_reply_json(prefix, keys), "keys"@) matches Some(JsonView::Array(listed)) && {
            &&& listed.len() == keys.len()
            &&& forall|i: int|
                0 <= i < keys.len() ==> #[trigger] listed[i] == JsonView::Text(keys[i])
        },
{
    reveal_strlit("action");
    reveal_strlit("key");
    reveal_strlit("stored");
    reveal_strlit("found");
    reveal_strlit("value");
    reveal_strlit("deleted");
    reveal_strlit("prefix");
    reveal_strlit("count");
    reveal_strlit("keys");
    assert("action"@.len() == 6 && "key"@.len() == 3 && "stored"@.len() == 6 && "found"@.len() == 5
        && "value"@.len() == 5 && "deleted"@.len() == 7 && "prefix"@.len() == 6 && "count"@.len()
        == 5 && "keys"@.len() == 4);
    assert("action"@[0] == 'a' && "stored"@[0] == 's' && "found"@[0] == 'f' && "value"@[0] == 'v'
        && "prefix"@[0] == 'p');
}

/// The keys that are listed are those of storage that begin with the prefix, no more and no fewer,
/// in order.
pub proof fn law_listed_keys_are_those_asked_for(
    keys: Vec<String>,
    prefix: Option<String>,
    listed: Vec<String>,
    name: Seq<char>,
    i: int,
    j: int,
)
    requires
        call_ensures(list_keys, (&keys, &prefix), listed),
    ensures
        views(listed@).contains(name) <==> views(keys@).contains(name) && (prefix is None
            || begins_with(name, prefix->0@)),
        0 <= i < j < listed@.len() ==> in_order(listed@[i]@, listed@[j]@),
{
    let kept = |key: Seq<char>| has_prefix(key, optional_view(prefix));
    let asked = asked_keys(views(keys@), optional_view(prefix));
    vstd::seq_lib::to_multiset_contains(asked, name);
    vstd::seq_lib::to_multiset_contains(views(listed@), name);
    if asked.contains(name) {
        views(keys@).lemma_filter_contains_rev(kept, name);
        let k = asked.index_of(name);
        views(keys@).lemma_filter_pred(kept, k);
    }
    if views(keys@).contains(name) && kept(name) {
        let k = views(keys@).index_of(name);
        views(keys@).lemma_filter_contains(kept, k);
    }
    if 0 <= i < j < listed@.len() {
        assert(views(listed@)[i] == listed@[i]@ && views(listed@)[j] == listed@[j]@);
    }
}

/// A get answers with the value whose text storage keeps, as it is read, and says that nothing was
/// found where storage keeps none.
pub proof fn law_gets_answer_with_what_is_kept(
    key: &str,
    text: Option<String>,
    reply: Json,
    value: JsonView,
)
    requires
        call_ensures(get_reply, (key, &text), reply),
    ensures
        member(reply@, "key"@) == Some(JsonView::Text(key@)),
        text matches Some(kept) ==> (json_reading(kept@) == Some(value) ==> member(
            reply@,
            "value"@,
        ) == Some(value) && member(reply@, "found"@) == Some(JsonView::Bool(true))),
        text is None ==> member(reply@, "value"@) == Some(JsonView::Null) && member(
            reply@,
            "found"@,
        ) == Some(JsonView::Bool(false)),
{
    law_replies_say_what_came_of_it(
        key@,
        value_of(optional_view(text)),
        None,
        Seq::<Seq<char>>::empty(),
    );
}

} // verus!
