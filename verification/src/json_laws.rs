//! Laws of JSON values.
use vstd::prelude::*;

use crate::json::{
    array_view, lemma_array_item, lemma_array_len, member, object_view, optional_json,
    optional_text_json, text_of, without_member, Json, JsonView,
};

verus! {

/// An entry that is added to an object is its member under that key, whatever was there before, and
/// every other member stays.
pub proof fn law_later_entries_count(entries: Seq<(String, Json)>, key: String, value: Json, other: Seq<
    char,
>)
    ensures
        member(JsonView::Object(object_view(entries.push((key, value)))), key@) == Some(value@),
        other != key@ ==> member(
            JsonView::Object(object_view(entries.push((key, value)))),
            other,
        ) == member(JsonView::Object(object_view(entries)), other),
        member(JsonView::Object(object_view(Seq::empty())), other) is None,
{
    assert(entries.push((key, value)).drop_last() =~= entries);
}

/// An array stands for the values of its items, one for one and in order.
pub proof fn law_items_keep_their_places(items: Seq<Json>, i: int)
    requires
        0 <= i < items.len(),
    ensures
        array_view(items).len() == items.len(),
        array_view(items)[i] == items[i]@,
{
    lemma_array_len(items);
    lemma_array_item(items, i);
}

/// A value stands for what it holds.
pub proof fn law_values_stand_for_what_they_hold(json: Json)
    ensures
        match json {
            Json::Null => json@ is Null,
            Json::Bool(b) => json@ == JsonView::Bool(b),
            Json::Number(n) => json@ == JsonView::Number(n),
            Json::Text(text) => json@ == JsonView::Text(text@),
            Json::Array(items) => json@ == JsonView::Array(array_view(items@)),
            Json::Object(entries) => json@ == JsonView::Object(object_view(entries@)),
        },
        optional_json(Some(json)) == Some(json@),
        optional_json(None) is None,
{
}

/// Members are found in objects alone, under their own key, and a text only where there is one.
pub proof fn law_members_are_found(members: Map<Seq<char>, JsonView>, value: JsonView, key: Seq<char>)
    ensures
        member(JsonView::Object(members), key) == if members.contains_key(key) {
            Some(members[key])
        } else {
            None
        },
        !(value is Object) ==> member(value, key) is None,
        text_of(Some(value)) is Some <==> value is Text,
        value matches JsonView::Text(text) ==> text_of(Some(value)) == Some(text),
        text_of(None) is None,
        optional_text_json(Some(key)) == JsonView::Text(key),
        optional_text_json(None) is Null,
{
}

/// A member that is taken out is gone, and every other one stays.
pub proof fn law_taken_members_are_gone(value: JsonView, key: Seq<char>, other: Seq<char>)
    ensures
        member(without_member(value, key), key) is None,
        other != key ==> member(without_member(value, key), other) == member(value, other),
        !(value is Object) ==> without_member(value, key) == value,
{
}

} // verus!
