//! The document tree that templates and rendered configurations live in: a
//! JSON-like value (object, array, string, number, boolean, null).
//!
//! A number is carried as its literal token text. Resolution never computes
//! with numbers, so keeping the token avoids any precision loss and keeps
//! floating point out of the library. Object member order is insertion order
//! and is preserved throughout.

use vstd::prelude::*;
use crate::text::str_chars;

verus! {

/// A JSON-like document tree.
#[derive(Debug, PartialEq, Eq)]
pub enum Json {
    Null,
    Bool(bool),
    /// The number's literal token text, e.g. `-12.5e3`.
    Num(Vec<char>),
    Str(Vec<char>),
    Arr(Vec<Json>),
    /// Members in insertion order; keys are not deduplicated.
    Obj(Vec<(Vec<char>, Json)>),
}

/// The mathematical form of a document tree.
pub enum JsonV {
    Null,
    Bool(bool),
    Num(Seq<char>),
    Str(Seq<char>),
    Arr(Seq<JsonV>),
    Obj(Seq<(Seq<char>, JsonV)>),
}

/// The mathematical form of a document tree.
pub open spec fn json_view(j: Json) -> JsonV
    decreases j, 0int,
{
    match j {
        Json::Null => JsonV::Null,
        Json::Bool(b) => JsonV::Bool(b),
        Json::Num(t) => JsonV::Num(t@),
        Json::Str(t) => JsonV::Str(t@),
        Json::Arr(items) => JsonV::Arr(json_view_items(items, 0)),
        Json::Obj(members) => JsonV::Obj(json_view_members(members, 0)),
    }
}

/// The views of the array elements from index `k` on.
pub open spec fn json_view_items(items: Vec<Json>, k: int) -> Seq<JsonV>
    decreases items, items@.len() - k,
    via json_view_items_decreases
{
    if 0 <= k < items@.len() {
        seq![json_view(items@[k])] + json_view_items(items, k + 1)
    } else {
        Seq::empty()
    }
}

#[via_fn]
proof fn json_view_items_decreases(items: Vec<Json>, k: int) {
    if 0 <= k < items@.len() {
        assert(decreases_to!(items => items@));
        assert(decreases_to!(items@ => items@[k]));
    }
}

/// The views of the object members from index `k` on.
pub open spec fn json_view_members(members: Vec<(Vec<char>, Json)>, k: int) -> Seq<
    (Seq<char>, JsonV),
>
    decreases members, members@.len() - k,
    via json_view_members_decreases
{
    if 0 <= k < members@.len() {
        seq![(members@[k].0@, json_view(members@[k].1))] + json_view_members(members, k + 1)
    } else {
        Seq::empty()
    }
}

#[via_fn]
proof fn json_view_members_decreases(members: Vec<(Vec<char>, Json)>, k: int) {
    if 0 <= k < members@.len() {
        assert(decreases_to!(members => members@));
        assert(decreases_to!(members@ => members@[k]));
        assert(decreases_to!(members@[k] => members@[k].1));
    }
}

impl View for Json {
    type V = JsonV;

    open spec fn view(&self) -> JsonV {
        json_view(*self)
    }
}

/// `json_view_items` read off index by index.
pub proof fn lemma_view_items_index(items: Vec<Json>, k: int)
    requires
        0 <= k <= items@.len(),
    ensures
        json_view_items(items, k).len() == items@.len() - k,
        forall|i: int|
            0 <= i < items@.len() - k ==> json_view_items(items, k)[i] == json_view(
                items@[k + i],
            ),
    decreases items@.len() - k,
{
    if k < items@.len() {
        lemma_view_items_index(items, k + 1);
    }
}

/// `json_view_members` read off index by index.
pub proof fn lemma_view_members_index(members: Vec<(Vec<char>, Json)>, k: int)
    requires
        0 <= k <= members@.len(),
    ensures
        json_view_members(members, k).len() == members@.len() - k,
        forall|i: int|
            0 <= i < members@.len() - k ==> json_view_members(members, k)[i] == (
                members@[k + i].0@,
                json_view(members@[k + i].1),
            ),
    decreases members@.len() - k,
{
    if k < members@.len() {
        lemma_view_members_index(members, k + 1);
    }
}

/// Prepending an element prepends its view.
pub proof fn lemma_view_items_cons(whole: Vec<Json>, first: Json, rest: Vec<Json>)
    requires
        whole@ == seq![first] + rest@,
    ensures
        json_view_items(whole, 0) == seq![json_view(first)] + json_view_items(rest, 0),
{
    lemma_view_items_index(whole, 0);
    lemma_view_items_index(rest, 0);
    assert(json_view_items(whole, 0) =~= seq![json_view(first)] + json_view_items(rest, 0));
}

/// Concatenating two vectors concatenates their views.
pub proof fn lemma_view_items_concat(whole: Vec<Json>, a: Vec<Json>, b: Vec<Json>)
    requires
        whole@ == a@ + b@,
    ensures
        json_view_items(whole, 0) == json_view_items(a, 0) + json_view_items(b, 0),
{
    lemma_view_items_index(whole, 0);
    lemma_view_items_index(a, 0);
    lemma_view_items_index(b, 0);
    assert(json_view_items(whole, 0) =~= json_view_items(a, 0) + json_view_items(b, 0));
}

/// Prepending a member prepends its view.
pub proof fn lemma_view_members_cons(
    whole: Vec<(Vec<char>, Json)>,
    first: (Vec<char>, Json),
    rest: Vec<(Vec<char>, Json)>,
)
    requires
        whole@ == seq![first] + rest@,
    ensures
        json_view_members(whole, 0) == seq![(first.0@, json_view(first.1))] + json_view_members(
            rest,
            0,
        ),
{
    lemma_view_members_index(whole, 0);
    lemma_view_members_index(rest, 0);
    assert(json_view_members(whole, 0) =~= seq![(first.0@, json_view(first.1))]
        + json_view_members(rest, 0));
}

impl Json {
    /// A string value holding the given text.
    pub fn str_of(s: &str) -> (r: Json)
        ensures
            r@ == JsonV::Str(s@),
    {
        Json::Str(str_chars(s))
    }

    /// A number value holding the given literal token text.
    pub fn num_of(s: &str) -> (r: Json)
        ensures
            r@ == JsonV::Num(s@),
    {
        Json::Num(str_chars(s))
    }
}

} // verus!
