//! JSON documents as plain values.
//!
//! The text of a document is read by `serde_json`. What the document says is kept here as a
//! tree of plain values, on which the rest of the library works.
use crate::double::Double;
use crate::text::{chars_of_option, same_text, text_of_ref};
use vstd::prelude::*;

verus! {

/// A JSON number in each form that it fits: as a signed integer, as an unsigned integer and as
/// a double.
#[derive(Clone, Copy, Debug, PartialEq, Eq, Structural)]
pub struct JsonNumber {
    pub signed: Option<i64>,
    pub unsigned: Option<u64>,
    pub real: Option<Double>,
}

/// A JSON document.
#[derive(Debug)]
pub enum Json {
    Null,
    Bool(bool),
    Number(JsonNumber),
    Text(String),
    List(Vec<Json>),
    Object(Vec<(String, Json)>),
}

/// What a JSON document says.
pub enum JsonView {
    Null,
    Bool(bool),
    Number(JsonNumber),
    Text(Seq<char>),
    List(Seq<JsonView>),
    Object(Seq<(Seq<char>, JsonView)>),
}

/// What `document` says.
pub open spec fn said_by(document: Json) -> JsonView
    decreases document,
{
    match document {
        Json::Null => JsonView::Null,
        Json::Bool(b) => JsonView::Bool(b),
        Json::Number(n) => JsonView::Number(n),
        Json::Text(s) => JsonView::Text(s@),
        Json::List(items) => JsonView::List(
            Seq::new(
                items@.len(),
                |i: int|
                    if 0 <= i < items@.len() {
                        said_by(items@[i])
                    } else {
                        JsonView::Null
                    },
            ),
        ),
        Json::Object(members) => JsonView::Object(
            Seq::new(
                members@.len(),
                |i: int|
                    if 0 <= i < members@.len() {
                        (members@[i].0@, said_by(members@[i].1))
                    } else {
                        (Seq::empty(), JsonView::Null)
                    },
            ),
        ),
    }
}

impl View for Json {
    type V = JsonView;

    open spec fn view(&self) -> JsonView {
        said_by(*self)
    }
}

/// The value of the first member named `key`.
pub open spec fn lookup(members: Seq<(Seq<char>, JsonView)>, key: Seq<char>) -> Option<JsonView>
    decreases members.len(),
{
    if members.len() == 0 {
        None
    } else if members[0].0 == key {
        Some(members[0].1)
    } else {
        lookup(members.skip(1), key)
    }
}

impl JsonView {
    /// The member `key` of an object; nothing else has members.
    pub open spec fn member(self, key: Seq<char>) -> Option<JsonView> {
        match self {
            JsonView::Object(members) => lookup(members, key),
            _ => None,
        }
    }

    /// The text of a string.
    pub open spec fn as_text(self) -> Option<Seq<char>> {
        match self {
            JsonView::Text(s) => Some(s),
            _ => None,
        }
    }

    /// A number as a signed integer, where it is one.
    pub open spec fn as_signed(self) -> Option<i64> {
        match self {
            JsonView::Number(n) => n.signed,
            _ => None,
        }
    }

    /// A number as an unsigned integer, where it is one.
    pub open spec fn as_unsigned(self) -> Option<u64> {
        match self {
            JsonView::Number(n) => n.unsigned,
            _ => None,
        }
    }

    /// A number as a double.
    pub open spec fn as_real(self) -> Option<Double> {
        match self {
            JsonView::Number(n) => n.real,
            _ => None,
        }
    }
}

/// The member `key` of what may be a document.
pub open spec fn member_of(value: Option<JsonView>, key: Seq<char>) -> Option<JsonView> {
    match value {
        Some(v) => v.member(key),
        None => None,
    }
}

/// What a document says, if there is one.
pub open spec fn view_of(value: Option<Json>) -> Option<JsonView> {
    match value {
        Some(v) => Some(v@),
        None => None,
    }
}

/// What a document says, if there is one.
pub open spec fn view_of_ref(value: Option<&Json>) -> Option<JsonView> {
    match value {
        Some(v) => Some(v@),
        None => None,
    }
}

impl Json {
    /// The member `key` of an object; nothing else has members.
    pub fn get(&self, key: &str) -> (value: Option<&Json>)
        ensures
            view_of_ref(value) == self@.member(key@),
    {
        match self {
            Json::Object(members) => {
                let ghost all = self@->Object_0;
                let mut i: usize = 0;
                proof {
                    assert(all.skip(0) =~= all);
                }
                while i < members.len()
                    invariant
                        i <= members@.len(),
                        self@ == JsonView::Object(all),
                        all.len() == members@.len(),
                        forall|j: int|
                            0 <= j < members@.len() ==> #[trigger] all[j] == (
                                members@[j].0@,
                                members@[j].1@,
                            ),
                        lookup(all, key@) == lookup(all.skip(i as int), key@),
                    decreases members@.len() - i,
                {
                    let ghost rest = all.skip(i as int);
                    proof {
                        assert(rest[0] == all[i as int]);
                        assert(rest.skip(1) =~= all.skip(i + 1));
                    }
                    if same_text(members[i].0.as_str(), key) {
                        return Some(&members[i].1);
                    }
                    i += 1;
                }
                None
            },
            _ => None,
        }
    }

    /// The text of a string.
    pub fn as_str(&self) -> (text: Option<&str>)
        ensures
            text_of_ref(text) == self@.as_text(),
    {
        match self {
            Json::Text(s) => Some(s.as_str()),
            _ => None,
        }
    }

    /// A number as a signed integer, where it is one.
    pub fn as_i64(&self) -> (n: Option<i64>)
        ensures
            n == self@.as_signed(),
    {
        match self {
            Json::Number(n) => n.signed,
            _ => None,
        }
    }

    /// A number as an unsigned integer, where it is one.
    pub fn as_u64(&self) -> (n: Option<u64>)
        ensures
            n == self@.as_unsigned(),
    {
        match self {
            Json::Number(n) => n.unsigned,
            _ => None,
        }
    }

    /// A number as a double.
    pub fn as_real(&self) -> (n: Option<Double>)
        ensures
            n == self@.as_real(),
    {
        match self {
            Json::Number(n) => n.real,
            _ => None,
        }
    }
}

/// What `serde_json::from_str` reads from a text: the document, or nothing where the text is
/// not one JSON document.
pub uninterp spec fn json_document(text: Seq<char>) -> Option<JsonView>;

/// A document as `serde_json` holds it.
#[verifier::external_type_specification]
#[verifier::external_body]
pub struct ExValue(serde_json::Value);

/// Moves a `serde_json::Value` into a tree of plain values, variant for variant. Each number is
/// taken in the three forms that `serde_json::Number` offers: `as_i64`, `as_u64` and, as its
/// bit pattern, the double of its third accessor. Nothing is claimed of the tree here;
/// [`parse_json`] names it.
#[verifier::external_body]
fn tree_of(value: serde_json::Value) -> (tree: Json) {
    match value {
        serde_json::Value::Null => Json::Null,
        serde_json::Value::Bool(b) => Json::Bool(b),
        serde_json::Value::Number(n) => Json::Number(JsonNumber {
            signed: n.as_i64(), unsigned: n.as_u64(),
            real: n.as_f64().map(|x| Double { bits: x.to_bits() }),
        }),
        serde_json::Value::String(s) => Json::Text(s),
        serde_json::Value::Array(items) => Json::List(items.into_iter().map(tree_of).collect()),
        serde_json::Value::Object(members) =>
            Json::Object(members.into_iter().map(|(k, v)| (k, tree_of(v))).collect()),
    }
}

/// Reads one JSON document with `serde_json::from_str`. The same text always gives the same
/// document, which [`json_document`] names.
#[verifier::external_body]
fn read_document(text: &str) -> (document: Option<Json>)
    ensures
        view_of(document) == json_document(text@),
{
    serde_json::from_str::<serde_json::Value>(text).ok().map(tree_of)
}

/// The JSON document in `text`, or nothing where `text` is not one.
pub fn parse_json(text: &str) -> (document: Option<Json>)
    ensures
        view_of(document) == json_document(text@),
{
    read_document(text)
}

/// The text that `serde_json` writes for the member `key` of the document in a text.
pub uninterp spec fn json_member_text(text: Seq<char>, key: Seq<char>) -> Option<Seq<char>>;

/// The member `key` of the document in `text` as compact JSON text, written by the `Display`
/// of `serde_json::Value`. The same arguments always give the same text, which
/// [`json_member_text`] names. There is one exactly where the document has that member.
#[verifier::external_body]
pub(crate) fn member_text(text: &str, key: &str) -> (written: Option<String>)
    ensures
        chars_of_option(written) == json_member_text(text@, key@),
        written is Some <==> member_of(json_document(text@), key@) is Some,
{
    let value = serde_json::from_str::<serde_json::Value>(text).ok()?;
    value.get(key).map(|member| member.to_string())
}

/// Whether an object holds `value` under the name `key`.
pub open spec fn holds(object: JsonView, key: Seq<char>, value: JsonView) -> bool {
    match object {
        JsonView::Object(members) => exists|i: int|
            0 <= i < members.len() && #[trigger] members[i] == (key, value) && forall|j: int|
                0 <= j < i ==> (#[trigger] members[j]).0 != key,
        _ => false,
    }
}

/// Whether nothing stands under the name `key`.
pub open spec fn lacks(object: JsonView, key: Seq<char>) -> bool {
    match object {
        JsonView::Object(members) => forall|i: int|
            0 <= i < members.len() ==> (#[trigger] members[i]).0 != key,
        _ => true,
    }
}

proof fn lemma_lookup(members: Seq<(Seq<char>, JsonView)>, key: Seq<char>, i: int)
    requires
        0 <= i <= members.len(),
        forall|j: int| 0 <= j < i ==> (#[trigger] members[j]).0 != key,
        i < members.len() ==> members[i].0 == key,
    ensures
        lookup(members, key) == (if i < members.len() {
            Some(members[i].1)
        } else {
            None
        }),
    decreases members.len(),
{
    if i > 0 {
        assert(members[0].0 != key);
        let rest = members.skip(1);
        assert forall|j: int| 0 <= j < i - 1 implies (#[trigger] rest[j]).0 != key by {
            assert(rest[j] == members[j + 1]);
        }
        if i < members.len() {
            assert(rest[i - 1] == members[i]);
        }
        lemma_lookup(rest, key, i - 1);
    }
}

/// A member is found under its own name and under no other: an object gives for a name the value
/// that it holds under it, and nothing where it holds none.
pub proof fn law_members_are_found_by_name(object: JsonView, key: Seq<char>, value: JsonView)
    ensures
        holds(object, key, value) ==> object.member(key) == Some(value),
        lacks(object, key) ==> object.member(key) is None,
{
    if let JsonView::Object(members) = object {
        if holds(object, key, value) {
            let i = choose|i: int|
                0 <= i < members.len() && #[trigger] members[i] == (key, value) && forall|j: int|
                    0 <= j < i ==> (#[trigger] members[j]).0 != key;
            lemma_lookup(members, key, i);
        }
        if lacks(object, key) {
            lemma_lookup(members, key, members.len() as int);
        }
    }
}

/// What an object gives for a name, it holds under that name; where it gives nothing, it holds
/// nothing.
pub proof fn law_found_members_are_held(object: JsonView, key: Seq<char>)
    ensures
        match object.member(key) {
            Some(value) => holds(object, key, value),
            None => lacks(object, key),
        },
{
    if let JsonView::Object(members) = object {
        lemma_found(members, key);
        if let Some(value) = object.member(key) {
            let i = choose|i: int| is_first(members, key, i);
            lemma_lookup(members, key, i);
            assert(members[i] == (key, value));
        }
    }
}

spec fn is_first(members: Seq<(Seq<char>, JsonView)>, key: Seq<char>, i: int) -> bool {
    0 <= i < members.len() && members[i].0 == key && forall|j: int|
        0 <= j < i ==> (#[trigger] members[j]).0 != key
}

proof fn lemma_found(members: Seq<(Seq<char>, JsonView)>, key: Seq<char>)
    ensures
        lookup(members, key) is Some ==> exists|i: int| is_first(members, key, i),
        lookup(members, key) is None ==> forall|i: int|
            0 <= i < members.len() ==> (#[trigger] members[i]).0 != key,
    decreases members.len(),
{
    if members.len() > 0 {
        if members[0].0 == key {
            assert(is_first(members, key, 0));
        } else {
            let rest = members.skip(1);
            lemma_found(rest, key);
            if lookup(members, key) is Some {
                let i = choose|i: int| is_first(rest, key, i);
                assert forall|j: int| 0 <= j < i + 1 implies (#[trigger] members[j]).0 != key by {
                    if j > 0 {
                        assert(rest[j - 1] == members[j]);
                    }
                }
                assert(rest[i] == members[i + 1]);
                assert(is_first(members, key, i + 1));
            } else {
                assert forall|i: int| 0 <= i < members.len() implies (#[trigger] members[i]).0
                    != key by {
                    if i > 0 {
                        assert(rest[i - 1] == members[i]);
                    }
                }
            }
        }
    }
}

/// A value is read as what it is: a text as that text and as no number, a number in the forms that
/// it has and as no text, and anything else as neither.
pub proof fn law_values_are_read_as_what_they_are(value: JsonView)
    ensures
        match value {
            JsonView::Text(t) => value.as_text() == Some(t) && value.as_signed() is None
                && value.as_unsigned() is None && value.as_real() is None,
            JsonView::Number(n) => value.as_text() is None && value.as_signed() == n.signed
                && value.as_unsigned() == n.unsigned && value.as_real() == n.real,
            _ => value.as_text() is None && value.as_signed() is None && value.as_unsigned() is None
                && value.as_real() is None,
        },
{
}

} // verus!
