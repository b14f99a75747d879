//! JSON values, as the wallet's rules read and build them. Reading and printing JSON text is
//! left to `serde_json`.
use vstd::prelude::*;

use crate::text::{optional_view, same_text};

verus! {

/// A JSON value.
#[derive(Debug)]
pub enum Json {
    Null,
    Bool(bool),
    Number(serde_json::Number),
    Text(String),
    Array(Vec<Json>),
    /// Of two entries with one key the later counts.
    Object(Vec<(String, Json)>),
}

/// A JSON value as the contracts see it.
pub enum JsonView {
    Null,
    Bool(bool),
    Number(serde_json::Number),
    Text(Seq<char>),
    Array(Seq<JsonView>),
    Object(Map<Seq<char>, JsonView>),
}

/// `serde_json::Value`, a JSON value of that crate.
#[verifier::external_type_specification]
#[verifier::external_body]
pub struct ExValue(serde_json::Value);

/// `serde_json::Number`, a JSON number of that crate.
#[verifier::external_type_specification]
#[verifier::external_body]
pub struct ExNumber(serde_json::Number);

/// The value that a `Json` stands for.
pub open spec fn json_view(json: Json) -> JsonView
    decreases json,
{
    match json {
        Json::Null => JsonView::Null,
        Json::Bool(b) => JsonView::Bool(b),
        Json::Number(n) => JsonView::Number(n),
        Json::Text(text) => JsonView::Text(text@),
        Json::Array(items) => JsonView::Array(array_view(items@)),
        Json::Object(entries) => JsonView::Object(object_view(entries@)),
    }
}

/// The values that the items of an array stand for.
pub open spec fn array_view(items: Seq<Json>) -> Seq<JsonView>
    decreases items,
{
    if items.len() == 0 {
        Seq::empty()
    } else {
        array_view(items.drop_last()).push(json_view(items.last()))
    }
}

/// The members of an object.
pub open spec fn object_view(entries: Seq<(String, Json)>) -> Map<Seq<char>, JsonView>
    decreases entries,
{
    if entries.len() == 0 {
        Map::empty()
    } else {
        object_view(entries.drop_last()).insert(entries.last().0@, json_view(entries.last().1))
    }
}

impl View for Json {
    type V = JsonView;

    open spec fn view(&self) -> JsonView {
        json_view(*self)
    }
}

/// The value that an optional `Json` stands for.
pub open spec fn optional_json(json: Option<Json>) -> Option<JsonView> {
    match json {
        Some(json) => Some(json@),
        None => None,
    }
}

/// The member of an object under `key`; nothing for any other value.
pub open spec fn member(value: JsonView, key: Seq<char>) -> Option<JsonView> {
    match value {
        JsonView::Object(members) => if members.contains_key(key) {
            Some(members[key])
        } else {
            None
        },
        _ => None,
    }
}

/// An object without the member under `key`; any other value as it is.
pub open spec fn without_member(value: JsonView, key: Seq<char>) -> JsonView {
    match value {
        JsonView::Object(members) => JsonView::Object(members.remove(key)),
        other => other,
    }
}

/// The text of a JSON string; nothing for any other value.
pub open spec fn text_of(value: Option<JsonView>) -> Option<Seq<char>> {
    match value {
        Some(JsonView::Text(text)) => Some(text),
        _ => None,
    }
}

/// The value that a `u64` is written as.
pub open spec fn count_json(n: u64) -> JsonView {
    JsonView::Number(count_number(n))
}

/// The value of an optional text: null where there is none.
pub open spec fn optional_text_json(text: Option<Seq<char>>) -> JsonView {
    match text {
        Some(text) => JsonView::Text(text),
        None => JsonView::Null,
    }
}

/// How many arrays and objects may stand inside each other in a text that is read.
pub const NESTING: u64 = 127;

/// Whether a value comes back as it is when its text is read: it holds no floating point number,
/// and nests arrays and objects at most `levels` deep.
pub open spec fn reads_back(value: JsonView, levels: nat) -> bool
    decreases levels,
{
    match value {
        JsonView::Number(number) => !floating(number),
        JsonView::Array(items) => levels > 0 && forall|i: int|
            0 <= i < items.len() ==> reads_back(#[trigger] items[i], (levels - 1) as nat),
        JsonView::Object(members) => levels > 0 && forall|key: Seq<char>| #[trigger]
            members.contains_key(key) ==> reads_back(members[key], (levels - 1) as nat),
        _ => true,
    }
}

// ── Calls into serde_json ───────────────────────────────────────────────

/// The JSON value that a `serde_json::Value` holds.
pub uninterp spec fn value_view(value: serde_json::Value) -> JsonView;

/// The JSON number of a `u64`.
pub uninterp spec fn count_number(n: u64) -> serde_json::Number;

/// Whether a number is held as a floating point number.
pub uninterp spec fn floating(number: serde_json::Number) -> bool;

/// The compact JSON text of a value.
pub uninterp spec fn json_text(value: JsonView) -> Seq<char>;

/// What a text says when it is read as JSON, or nothing where it is no JSON.
pub uninterp spec fn json_reading(text: Seq<char>) -> Option<JsonView>;

/// One layer of a `serde_json::Value`.
enum Layer<'a> {
    Null,
    Bool(bool),
    Number(&'a serde_json::Number),
    Text(&'a String),
    Array(&'a Vec<serde_json::Value>),
    Object(Vec<(&'a String, &'a serde_json::Value)>),
}

spec fn layer_members(entries: Seq<(&String, &serde_json::Value)>) -> Map<Seq<char>, JsonView>
    decreases entries.len(),
{
    if entries.len() == 0 {
        Map::empty()
    } else {
        layer_members(entries.drop_last()).insert(entries.last().0@, value_view(*entries.last().1))
    }
}

spec fn layer_view(layer: Layer) -> JsonView {
    match layer {
        Layer::Null => JsonView::Null,
        Layer::Bool(b) => JsonView::Bool(b),
        Layer::Number(n) => JsonView::Number(*n),
        Layer::Text(text) => JsonView::Text(text@),
        Layer::Array(items) => JsonView::Array(
            items@.map_values(|item: serde_json::Value| value_view(item)),
        ),
        Layer::Object(entries) => JsonView::Object(layer_members(entries@)),
    }
}

/// `serde_json::Value` taken apart: its variant and what that variant holds. No two entries of an
/// object have the same key.
#[verifier::external_body]
fn layer_of(value: &serde_json::Value) -> (layer: Layer<'_>)
    ensures
        layer_view(layer) == value_view(*value),
        layer matches Layer::Object(entries) ==> forall|i: int, j: int|
            0 <= i < j < entries@.len() ==> (#[trigger] entries@[i]).0@ != (
            #[trigger] entries@[j]).0@,
{
    match value {
        serde_json::Value::Null => Layer::Null,
        serde_json::Value::Bool(b) => Layer::Bool(*b),
        serde_json::Value::Number(number) => Layer::Number(number),
        serde_json::Value::String(text) => Layer::Text(text),
        serde_json::Value::Array(items) => Layer::Array(items),
        serde_json::Value::Object(members) => Layer::Object(members.iter().collect()),
    }
}

/// The parts that a `serde_json::Value` is put together from.
enum Parts {
    Null,
    Bool(bool),
    Number(serde_json::Number),
    Text(String),
    Array(Vec<serde_json::Value>),
    Object(Vec<(String, serde_json::Value)>),
}

spec fn part_members(entries: Seq<(String, serde_json::Value)>) -> Map<Seq<char>, JsonView>
    decreases entries.len(),
{
    if entries.len() == 0 {
        Map::empty()
    } else {
        part_members(entries.drop_last()).insert(entries.last().0@, value_view(entries.last().1))
    }
}

spec fn parts_view(parts: Parts) -> JsonView {
    match parts {
        Parts::Null => JsonView::Null,
        Parts::Bool(b) => JsonView::Bool(b),
        Parts::Number(n) => JsonView::Number(n),
        Parts::Text(text) => JsonView::Text(text@),
        Parts::Array(items) => JsonView::Array(
            items@.map_values(|item: serde_json::Value| value_view(item)),
        ),
        Parts::Object(entries) => JsonView::Object(part_members(entries@)),
    }
}

/// `serde_json::Value` put together: the variant that holds exactly these parts. Entries go into
/// the object in order, so of two with one key the later stays.
#[verifier::external_body]
fn value_from(parts: Parts) -> (value: serde_json::Value)
    ensures
        value_view(value) == parts_view(parts),
{
    match parts {
        Parts::Null => serde_json::Value::Null,
        Parts::Bool(b) => serde_json::Value::Bool(b),
        Parts::Number(number) => serde_json::Value::Number(number),
        Parts::Text(text) => serde_json::Value::String(text),
        Parts::Array(items) => serde_json::Value::Array(items),
        Parts::Object(entries) => serde_json::Value::Object(entries.into_iter().collect()),
    }
}

/// `Display` of `serde_json::Value`: its compact JSON text, a function of the value alone. The
/// crate keeps the members of an object sorted by key here, as its feature `preserve_order` is off.
/// `from_str` reads the text as the same value again, unless a floating point number is in it or
/// more than 127 arrays and objects stand inside each other.
#[verifier::external_body]
fn print_value(value: &serde_json::Value) -> (text: String)
    ensures
        text@ == json_text(value_view(*value)),
        reads_back(value_view(*value), NESTING as nat) ==> json_reading(text@) == Some(
            value_view(*value),
        ),
{
    value.to_string()
}

/// `serde_json::from_str` to a `serde_json::Value`, a function of the text alone.
#[verifier::external_body]
fn parse_value(text: &str) -> (value: Option<serde_json::Value>)
    ensures
        match value {
            Some(value) => json_reading(text@) == Some(value_view(value)),
            None => json_reading(text@) is None,
        },
{
    serde_json::from_str(text).ok()
}

/// `From<u64>` of `serde_json::Number`, a function of the integer alone.
#[verifier::external_body]
fn number_from(n: u64) -> (number: serde_json::Number)
    ensures
        number == count_number(n),
{
    serde_json::Number::from(n)
}

/// `serde_json::Number::is_f64`, a function of the number alone.
#[verifier::external_body]
fn is_floating(number: &serde_json::Number) -> (r: bool)
    ensures
        r == floating(*number),
{
    number.is_f64()
}

/// `Clone` of `serde_json::Number`: the same number.
pub assume_specification[ <serde_json::Number as Clone>::clone ](
    number: &serde_json::Number,
) -> (copy: serde_json::Number)
    ensures
        copy == *number,
;

// ── Verified ────────────────────────────────────────────────────────────

/// The item at `i` of an array stands for the value at `i`.
pub proof fn lemma_array_item(items: Seq<Json>, i: int)
    requires
        0 <= i < items.len(),
    ensures
        array_view(items).len() == items.len(),
        array_view(items)[i] == json_view(items[i]),
    decreases items.len(),
{
    lemma_array_len(items);
    lemma_array_len(items.drop_last());
    if i < items.len() - 1 {
        lemma_array_item(items.drop_last(), i);
    }
}

/// An array stands for as many values as it has items.
pub proof fn lemma_array_len(items: Seq<Json>)
    ensures
        array_view(items).len() == items.len(),
    decreases items.len(),
{
    if items.len() > 0 {
        lemma_array_len(items.drop_last());
    }
}

/// What comes back within some levels of nesting comes back within one more.
pub proof fn lemma_one_more_level(value: JsonView, levels: nat)
    requires
        reads_back(value, levels),
    ensures
        reads_back(value, levels + 1),
    decreases levels,
{
    match value {
        JsonView::Array(items) => {
            assert forall|i: int| 0 <= i < items.len() implies reads_back(
                #[trigger] items[i],
                levels,
            ) by {
                assert(value->Array_0[i] == items[i]);
                lemma_one_more_level(items[i], (levels - 1) as nat);
            }
        },
        JsonView::Object(members) => {
            assert forall|key: Seq<char>| #[trigger] members.contains_key(key) implies reads_back(
                members[key],
                levels,
            ) by {
                assert(value->Object_0.contains_key(key));
                lemma_one_more_level(members[key], (levels - 1) as nat);
            }
        },
        _ => {},
    }
}

proof fn lemma_entry_is_member(entries: Seq<(String, Json)>, i: int)
    requires
        0 <= i < entries.len(),
    ensures
        object_view(entries).contains_key(entries[i].0@),
    decreases entries.len(),
{
    if i < entries.len() - 1 {
        lemma_entry_is_member(entries.drop_last(), i);
        assert(entries.drop_last()[i] == entries[i]);
    }
}

proof fn lemma_member_is_entry(entries: Seq<(String, Json)>, key: Seq<char>)
    requires
        object_view(entries).contains_key(key),
    ensures
        exists|i: int| 0 <= i < entries.len() && (#[trigger] entries[i]).0@ == key,
    decreases entries.len(),
{
    if entries.last().0@ == key {
        assert(entries[entries.len() - 1].0@ == key);
    } else {
        lemma_member_is_entry(entries.drop_last(), key);
        let i = choose|i: int|
            0 <= i < entries.len() - 1 && (#[trigger] entries.drop_last()[i]).0@ == key;
        assert(entries[i].0@ == key);
    }
}

/// The value as one of `serde_json`.
pub fn to_value(json: &Json) -> (value: serde_json::Value)
    ensures
        value_view(value) == json@,
    decreases json,
{
    match json {
        Json::Null => value_from(Parts::Null),
        Json::Bool(b) => value_from(Parts::Bool(*b)),
        Json::Number(n) => value_from(Parts::Number(n.clone())),
        Json::Text(text) => value_from(Parts::Text(text.clone())),
        Json::Array(items) => {
            let mut values: Vec<serde_json::Value> = Vec::new();
            let mut i: usize = 0;
            while i < items.len()
                invariant
                    i <= items@.len(),
                    json == Json::Array(*items),
                    values@.map_values(|item: serde_json::Value| value_view(item)) =~= array_view(
                        items@.take(i as int),
                    ),
                decreases items@.len() - i,
            {
                assert(decreases_to!(*json => json->Array_0));
                values.push(to_value(&items[i]));
                assert(items@.take(i + 1).drop_last() =~= items@.take(i as int));
                i += 1;
            }
            assert(items@.take(i as int) =~= items@);
            value_from(Parts::Array(values))
        },
        Json::Object(entries) => {
            let mut members: Vec<(String, serde_json::Value)> = Vec::new();
            let mut i: usize = 0;
            while i < entries.len()
                invariant
                    i <= entries@.len(),
                    json == Json::Object(*entries),
                    part_members(members@) == object_view(entries@.take(i as int)),
                decreases entries@.len() - i,
            {
                let ghost before = members@;
                assert(decreases_to!(*json => json->Object_0));
                members.push((entries[i].0.clone(), to_value(&entries[i].1)));
                assert(members@.drop_last() =~= before);
                assert(entries@.take(i + 1).drop_last() =~= entries@.take(i as int));
                i += 1;
            }
            assert(entries@.take(i as int) =~= entries@);
            value_from(Parts::Object(members))
        },
    }
}

proof fn lemma_layer_member(entries: Seq<(&String, &serde_json::Value)>, i: int)
    requires
        0 <= i < entries.len(),
        forall|i: int, j: int|
            0 <= i < j < entries.len() ==> (#[trigger] entries[i]).0@ != (
            #[trigger] entries[j]).0@,
    ensures
        layer_members(entries).dom().finite(),
        layer_members(entries).contains_key(entries[i].0@),
        layer_members(entries)[entries[i].0@] == value_view(*entries[i].1),
    decreases entries.len(),
{
    lemma_layer_finite(entries);
    if i < entries.len() - 1 {
        lemma_layer_member(entries.drop_last(), i);
        assert(entries.drop_last()[i] == entries[i]);
    }
}

proof fn lemma_layer_finite(entries: Seq<(&String, &serde_json::Value)>)
    ensures
        layer_members(entries).dom().finite(),
    decreases entries.len(),
{
    if entries.len() > 0 {
        lemma_layer_finite(entries.drop_last());
    }
}

/// A value of `serde_json` as one of this library.
pub fn from_value(value: &serde_json::Value) -> (json: Json)
    ensures
        json@ == value_view(*value),
    decreases value_view(*value),
{
    let layer = layer_of(value);
    match layer {
        Layer::Null => Json::Null,
        Layer::Bool(b) => Json::Bool(b),
        Layer::Number(n) => Json::Number(n.clone()),
        Layer::Text(text) => Json::Text(text.clone()),
        Layer::Array(values) => {
            let ghost views = values@.map_values(|item: serde_json::Value| value_view(item));
            let mut items: Vec<Json> = Vec::new();
            let mut i: usize = 0;
            while i < values.len()
                invariant
                    i <= values@.len(),
                    views == values@.map_values(|item: serde_json::Value| value_view(item)),
                    value_view(*value) == JsonView::Array(views),
                    array_view(items@) == views.take(i as int),
                decreases values@.len() - i,
            {
                assert(views[i as int] == value_view(values@[i as int]));
                assert(decreases_to!(value_view(*value) => value_view(*value)->Array_0));
                let ghost before = items@;
                items.push(from_value(&values[i]));
                assert(items@.drop_last() =~= before);
                i += 1;
                assert(array_view(items@) =~= views.take(i as int));
            }
            assert(views.take(i as int) =~= views);
            Json::Array(items)
        },
        Layer::Object(members) => {
            let ghost view = layer_members(members@);
            let mut entries: Vec<(String, Json)> = Vec::new();
            let mut i: usize = 0;
            while i < members.len()
                invariant
                    i <= members@.len(),
                    view == layer_members(members@),
                    value_view(*value) == JsonView::Object(view),
                    forall|i: int, j: int|
                        0 <= i < j < members@.len() ==> (#[trigger] members@[i]).0@ != (
                        #[trigger] members@[j]).0@,
                    object_view(entries@) == layer_members(members@.take(i as int)),
                decreases members@.len() - i,
            {
                let (key, member) = members[i];
                proof {
                    lemma_layer_member(members@, i as int);
                    assert(decreases_to!(view => view[key@]));
                    assert(decreases_to!(value_view(*value) => value_view(*value)->Object_0));
                }
                let ghost before = entries@;
                entries.push((key.clone(), from_value(member)));
                assert(entries@.drop_last() =~= before);
                assert(members@.take(i + 1).drop_last() =~= members@.take(i as int));
                i += 1;
            }
            assert(members@.take(i as int) =~= members@);
            Json::Object(entries)
        },
    }
}

impl Json {
    /// A whole number.
    pub fn count(n: u64) -> (json: Json)
        ensures
            json@ == count_json(n),
    {
        Json::Number(number_from(n))
    }

    /// A text.
    pub fn text(text: &str) -> (json: Json)
        ensures
            json@ == JsonView::Text(text@),
    {
        Json::Text(text.to_owned())
    }

    /// A text, or null where there is none.
    pub fn optional_text(text: &Option<String>) -> (json: Json)
        ensures
            json@ == optional_text_json(optional_view(*text)),
    {
        match text {
            Some(text) => Json::Text(text.clone()),
            None => Json::Null,
        }
    }

    /// The items of a JSON array.
    pub fn as_array(&self) -> (r: Option<&Vec<Json>>)
        ensures
            match r {
                Some(items) => self@ == JsonView::Array(array_view(items@)),
                None => !(self@ is Array),
            },
    {
        match self {
            Json::Array(items) => Some(items),
            _ => None,
        }
    }

    /// The compact JSON text of a value, which is read as the same value again where it can be.
    pub fn to_text(&self) -> (text: String)
        ensures
            text@ == json_text(self@),
            reads_back(self@, NESTING as nat) ==> json_reading(text@) == Some(self@),
    {
        print_value(&to_value(self))
    }

    /// Whether the value comes back as it is when its text is read, within these many levels of
    /// nesting.
    pub fn comes_back(&self, levels: u64) -> (r: bool)
        ensures
            r == reads_back(self@, levels as nat),
        decreases levels,
    {
        match self {
            Json::Number(number) => !is_floating(number),
            Json::Array(items) => {
                proof {
                    lemma_array_len(items@);
                }
                if levels == 0 {
                    return false;
                }
                let ghost views = array_view(items@);
                let mut i: usize = 0;
                while i < items.len()
                    invariant
                        levels > 0,
                        i <= items@.len(),
                        views == array_view(items@),
                        self@ == JsonView::Array(views),
                        views.len() == items@.len(),
                        forall|j: int|
                            0 <= j < i ==> reads_back(#[trigger] views[j], (levels - 1) as nat),
                    decreases items@.len() - i,
                {
                    proof {
                        lemma_array_item(items@, i as int);
                    }
                    if !items[i].comes_back(levels - 1) {
                        assert(self@->Array_0[i as int] == views[i as int]);
                        return false;
                    }
                    i += 1;
                }
                true
            },
            Json::Object(entries) => {
                if levels == 0 {
                    return false;
                }
                let ghost members = object_view(entries@);
                let mut i: usize = 0;
                while i < entries.len()
                    invariant
                        levels > 0,
                        i <= entries@.len(),
                        members == object_view(entries@),
                        self@ == JsonView::Object(members),
                        forall|j: int|
                            0 <= j < i ==> reads_back(
                                members[(#[trigger] entries@[j]).0@],
                                (levels - 1) as nat,
                            ),
                    decreases entries@.len() - i,
                {
                    proof {
                        lemma_entry_is_member(entries@, i as int);
                    }
                    if let Some(member) = self.get(entries[i].0.as_str()) {
                        if !member.comes_back(levels - 1) {
                            return false;
                        }
                    }
                    i += 1;
                }
                assert forall|key: Seq<char>| #[trigger] members.contains_key(key) implies reads_back(
                    members[key],
                    (levels - 1) as nat,
                ) by {
                    lemma_member_is_entry(entries@, key);
                }
                true
            },
            _ => true,
        }
    }

    /// Reads a text as JSON.
    pub fn from_text(text: &str) -> (json: Option<Json>)
        ensures
            match json {
                Some(json) => json_reading(text@) == Some(json@),
                None => json_reading(text@) is None,
            },
    {
        match parse_value(text) {
            Some(value) => Some(from_value(&value)),
            None => None,
        }
    }

    /// The member of an object under `key`.
    pub fn get(&self, key: &str) -> (r: Option<&Json>)
        ensures
            match r {
                Some(found) => member(self@, key@) == Some(found@),
                None => member(self@, key@) is None,
            },
    {
        match self {
            Json::Object(entries) => {
                let mut i: usize = entries.len();
                assert(entries@.take(i as int) =~= entries@);
                while i > 0
                    invariant
                        i <= entries@.len(),
                        self == Json::Object(*entries),
                        member(self@, key@) == member(
                            JsonView::Object(object_view(entries@.take(i as int))),
                            key@,
                        ),
                    decreases i,
                {
                    i -= 1;
                    assert(entries@.take(i + 1).drop_last() =~= entries@.take(i as int));
                    assert(entries@.take(i + 1).last() == entries@[i as int]);
                    if same_text(entries[i].0.as_str(), key) {
                        return Some(&entries[i].1);
                    }
                }
                None
            },
            _ => None,
        }
    }

    /// The text of a JSON string.
    pub fn as_str(&self) -> (r: Option<&str>)
        ensures
            match r {
                Some(text) => text_of(Some(self@)) == Some(text@),
                None => text_of(Some(self@)) is None,
            },
    {
        match self {
            Json::Text(text) => Some(text.as_str()),
            _ => None,
        }
    }

    /// An object without the member under `key`; any other value as it is.
    pub fn without(self, key: &str) -> (json: Json)
        ensures
            json@ == without_member(self@, key@),
    {
        match self {
            Json::Object(entries) => {
                let mut kept: Vec<(String, Json)> = Vec::new();
                let mut i: usize = 0;
                assert(object_view(kept@) =~= object_view(entries@.take(0)).remove(key@));
                while i < entries.len()
                    invariant
                        i <= entries@.len(),
                        object_view(kept@) == object_view(entries@.take(i as int)).remove(key@),
                    decreases entries@.len() - i,
                {
                    assert(entries@.take(i + 1).drop_last() =~= entries@.take(i as int));
                    let ghost before = kept@;
                    if !same_text(entries[i].0.as_str(), key) {
                        kept.push((entries[i].0.clone(), entries[i].1.copy()));
                        assert(kept@.drop_last() =~= before);
                    }
                    assert(object_view(kept@) =~= object_view(entries@.take(i + 1)).remove(key@));
                    i += 1;
                }
                assert(entries@.take(i as int) =~= entries@);
                Json::Object(kept)
            },
            other => other,
        }
    }

    /// A value that stands for the same.
    pub fn copy(&self) -> (copy: Json)
        ensures
            copy@ == self@,
        decreases self,
    {
        match self {
            Json::Null => Json::Null,
            Json::Bool(b) => Json::Bool(*b),
            Json::Number(n) => Json::Number(n.clone()),
            Json::Text(text) => Json::Text(text.clone()),
            Json::Array(items) => {
                let mut copies: Vec<Json> = Vec::new();
                let mut i: usize = 0;
                while i < items.len()
                    invariant
                        i <= items@.len(),
                        self == Json::Array(*items),
                        array_view(copies@) == array_view(items@.take(i as int)),
                    decreases items@.len() - i,
                {
                    let ghost before = copies@;
                    assert(decreases_to!(*self => self->Array_0));
                    copies.push(items[i].copy());
                    assert(copies@.drop_last() =~= before);
                    assert(items@.take(i + 1).drop_last() =~= items@.take(i as int));
                    i += 1;
                }
                assert(items@.take(i as int) =~= items@);
                Json::Array(copies)
            },
            Json::Object(entries) => {
                let mut copies: Vec<(String, Json)> = Vec::new();
                let mut i: usize = 0;
                while i < entries.len()
                    invariant
                        i <= entries@.len(),
                        self == Json::Object(*entries),
                        object_view(copies@) == object_view(entries@.take(i as int)),
                    decreases entries@.len() - i,
                {
                    let ghost before = copies@;
                    assert(decreases_to!(*self => self->Object_0));
                    copies.push((entries[i].0.clone(), entries[i].1.copy()));
                    assert(copies@.drop_last() =~= before);
                    assert(entries@.take(i + 1).drop_last() =~= entries@.take(i as int));
                    i += 1;
                }
                assert(entries@.take(i as int) =~= entries@);
                Json::Object(copies)
            },
        }
    }
}

/// An object under construction.
pub struct Fields {
    entries: Vec<(String, Json)>,
}

impl View for Fields {
    type V = Map<Seq<char>, JsonView>;

    closed spec fn view(&self) -> Map<Seq<char>, JsonView> {
        object_view(self.entries@)
    }
}

impl Fields {
    /// An object without members.
    pub fn new() -> (fields: Fields)
        ensures
            fields@ == Map::<Seq<char>, JsonView>::empty(),
    {
        Fields { entries: Vec::new() }
    }

    /// The object with `value` under `key`.
    pub fn with(self, key: &str, value: Json) -> (fields: Fields)
        ensures
            fields@ == self@.insert(key@, value@),
    {
        let mut entries = self.entries;
        let ghost before = entries@;
        entries.push((key.to_owned(), value));
        assert(entries@.drop_last() =~= before);
        Fields { entries }
    }

    /// The object as a value.
    pub fn finish(self) -> (json: Json)
        ensures
            json@ == JsonView::Object(self@),
    {
        Json::Object(self.entries)
    }
}

} // verus!
