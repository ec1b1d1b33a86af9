//! JSON text read into a tree of plain values.
//!
//! The reading itself is `serde_json`'s. What it hands back is copied into
//! [`Json`], a type of this library, so that the code that walks the tree is
//! verified against [`JsonView`].

use vstd::prelude::*;

verus! {

/// A JSON value. A number carries no payload: nothing in this library reads
/// one, it only needs to tell a number from the other kinds.
#[derive(Debug, PartialEq, Eq)]
pub enum Json {
    Null,
    Bool(bool),
    Number,
    Text(String),
    Array(Vec<Json>),
    /// The members in the order they are held. Where a name occurs more
    /// than once the first member counts (see [`member`]); in a value read
    /// from a text none does, since of members of one name the reader keeps
    /// the last.
    Object(Vec<(String, Json)>),
}

/// The mathematical value of a [`Json`].
pub enum JsonView {
    Null,
    Bool(bool),
    Number,
    Text(Seq<char>),
    Array(Seq<JsonView>),
    Object(Seq<(Seq<char>, JsonView)>),
}

/// The value of `json`, kind by kind.
pub open spec fn tree(json: Json) -> JsonView
    decreases json,
{
    match json {
        Json::Null => JsonView::Null,
        Json::Bool(b) => JsonView::Bool(b),
        Json::Number => JsonView::Number,
        Json::Text(s) => JsonView::Text(s@),
        Json::Array(items) => JsonView::Array(
            Seq::new(
                items@.len(),
                |i: int|
                    if 0 <= i < items@.len() {
                        tree(items@[i])
                    } else {
                        JsonView::Null
                    },
            ),
        ),
        Json::Object(members) => JsonView::Object(
            Seq::new(
                members@.len(),
                |i: int|
                    if 0 <= i < members@.len() {
                        (members@[i].0@, tree(members@[i].1))
                    } else {
                        (Seq::empty(), JsonView::Null)
                    },
            ),
        ),
    }
}

impl View for Json {
    type V = JsonView;

    open spec fn view(&self) -> JsonView {
        tree(*self)
    }
}

/// The value of the first of `members` that is named `key`, if there is one.
pub open spec fn member(members: Seq<(Seq<char>, JsonView)>, key: Seq<char>) -> Option<JsonView>
    decreases members.len(),
{
    if members.len() == 0 {
        None
    } else if members[0].0 == key {
        Some(members[0].1)
    } else {
        member(members.skip(1), key)
    }
}

/// `member` finds the member at the least index that bears the name, and
/// finds none only where no member bears it.
pub proof fn lemma_member_is_first(members: Seq<(Seq<char>, JsonView)>, key: Seq<char>)
    ensures
        match member(members, key) {
            Some(value) => exists|i: int|
                0 <= i < members.len() && #[trigger] members[i].0 == key && members[i].1 == value
                    && forall|j: int| 0 <= j < i ==> (#[trigger] members[j]).0 != key,
            None => forall|i: int| 0 <= i < members.len() ==> (#[trigger] members[i]).0 != key,
        },
    decreases members.len(),
{
    if members.len() == 0 {
    } else if members[0].0 == key {
        assert(members[0].0 == key && members[0].1 == member(members, key)->0);
    } else {
        let rest = members.skip(1);
        lemma_member_is_first(rest, key);
        assert(forall|i: int| 0 <= i < rest.len() ==> rest[i] == members[i + 1]);
        match member(rest, key) {
            Some(value) => {
                let i = choose|i: int|
                    0 <= i < rest.len() && #[trigger] rest[i].0 == key && rest[i].1 == value
                        && forall|j: int| 0 <= j < i ==> (#[trigger] rest[j]).0 != key;
                assert forall|j: int| 0 <= j < i + 1 implies (#[trigger] members[j]).0 != key by {
                    if j > 0 {
                        assert(rest[j - 1] == members[j]);
                    }
                }
                assert(members[i + 1].0 == key && members[i + 1].1 == value);
            },
            None => {
                assert forall|i: int| 0 <= i < members.len() implies (#[trigger] members[i]).0
                    != key by {
                    if i > 0 {
                        assert(rest[i - 1] == members[i]);
                    }
                }
            },
        }
    }
}

impl Json {
    /// The member named `key` of an object; `None` for a missing member and
    /// for a value that is no object.
    pub fn get(&self, key: &str) -> (res: Option<&Json>)
        ensures
            match self@ {
                JsonView::Object(members) => match member(members, key@) {
                    Some(value) => res matches Some(found) && found@ == value,
                    None => res is None,
                },
                _ => res is None,
            },
    {
        match self {
            Json::Object(members) => {
                let name = key.to_owned();
                let ghost all = self@->Object_0;
                assert(all.skip(0) =~= all);
                let mut i: usize = 0;
                while i < members.len()
                    invariant
                        i <= members.len(),
                        name@ == key@,
                        self@ == JsonView::Object(all),
                        all.len() == members.len(),
                        forall|k: int|
                            0 <= k < all.len() ==> #[trigger] all[k] == (
                                members[k].0@,
                                members[k].1@,
                            ),
                        member(all, key@) == member(all.skip(i as int), key@),
                    decreases members.len() - i,
                {
                    let ghost rest = all.skip(i as int);
                    assert(rest[0] == all[i as int]);
                    assert(rest.skip(1) =~= all.skip(i + 1));
                    if members[i].0 == name {
                        assert(member(rest, key@) == Some(rest[0].1));
                        return Some(&members[i].1);
                    }
                    i += 1;
                }
                None
            },
            _ => None,
        }
    }
}

/// `serde_json::Value`, the tree that `serde_json` reads a text into.
#[verifier::external_type_specification]
#[verifier::external_body]
pub struct ExValue(serde_json::Value);

/// `serde_json::Error`, what `serde_json` says of a text that it rejects.
#[verifier::external_type_specification]
#[verifier::external_body]
pub struct ExError(serde_json::Error);

/// What `serde_json::from_str` makes of `text` when it is asked for a
/// `serde_json::Value`: the tree it reads, `None` where it rejects the text.
pub uninterp spec fn text_tree(text: Seq<char>) -> Option<JsonView>;

/// The tree that a `serde_json::Value` holds: each kind with its payload
/// but for a number, an object's members in the order its map yields them.
pub uninterp spec fn value_tree(value: serde_json::Value) -> JsonView;

/// Calls `serde_json::from_str` for a `serde_json::Value`. The contract
/// claims that the call is a function of the text: it gives the value that
/// [`text_tree`] names, and an error where that is `None`.
#[verifier::external_body]
fn read_value(text: &str) -> (res: Result<serde_json::Value, serde_json::Error>)
    ensures
        match res {
            Ok(value) => text_tree(text@) == Some(value_tree(value)),
            Err(_) => text_tree(text@) is None,
        },
{
    serde_json::from_str::<serde_json::Value>(text)
}

/// Copies a `serde_json::Value` into a [`Json`], variant by variant. The
/// contract claims that the copy holds what the value holds.
#[verifier::external_body]
fn copy_value(value: serde_json::Value) -> (json: Json)
    ensures
        json@ == value_tree(value),
{
    match value {
        serde_json::Value::Null => Json::Null,
        serde_json::Value::Bool(b) => Json::Bool(b),
        serde_json::Value::Number(_) => Json::Number,
        serde_json::Value::String(s) => Json::Text(s),
        serde_json::Value::Array(items) => Json::Array(items.into_iter().map(copy_value).collect()),
        serde_json::Value::Object(map) => Json::Object(
            map.into_iter().map(|(name, value)| (name, copy_value(value))).collect(),
        ),
    }
}

impl Json {
    /// Reads `text` as JSON. Fails, with the reader's words, on a text that
    /// is not one JSON value.
    pub fn parse(text: &str) -> (res: Result<Json, String>)
        ensures
            match text_tree(text@) {
                Some(tree) => res matches Ok(json) && json@ == tree,
                None => res is Err,
            },
    {
        match read_value(text) {
            Ok(value) => Ok(copy_value(value)),
            Err(error) => Err(error.to_string()),
        }
    }
}

} // verus!
