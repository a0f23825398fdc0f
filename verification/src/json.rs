//! JSON documents.

use vstd::prelude::*;
use crate::text::same;

verus! {

/// A JSON value.
pub enum Json {
    Null,
    Bool(bool),
    Number(JsonNumber),
    Text(String),
    List(Vec<Json>),
    Object(Vec<JsonField>),
}

/// A JSON number: its value where it is a non-negative integer, and the bits of its
/// double-precision form.
#[derive(Debug, Clone, Copy, PartialEq, Eq, Structural)]
pub struct JsonNumber {
    pub unsigned: Option<u64>,
    pub double_bits: Option<u64>,
}

/// A member of a JSON object.
pub struct JsonField {
    pub name: String,
    pub value: Json,
}

/// What a JSON value holds.
pub enum JsonView {
    Null,
    Bool(bool),
    Number(JsonNumber),
    Text(Seq<char>),
    List(Seq<JsonView>),
    Object(Seq<(Seq<char>, JsonView)>),
}

impl Json {
    /// What the value holds.
    pub open spec fn contents(&self) -> JsonView
        decreases self,
    {
        match self {
            Json::Null => JsonView::Null,
            Json::Bool(b) => JsonView::Bool(*b),
            Json::Number(n) => JsonView::Number(*n),
            Json::Text(s) => JsonView::Text(s@),
            Json::List(v) => JsonView::List(list_contents(v@)),
            Json::Object(v) => JsonView::Object(object_contents(v@)),
        }
    }
}

pub open spec fn list_contents(s: Seq<Json>) -> Seq<JsonView>
    decreases s,
{
    if s.len() == 0 {
        Seq::empty()
    } else {
        list_contents(s.drop_last()).push(s.last().contents())
    }
}

pub open spec fn object_contents(s: Seq<JsonField>) -> Seq<(Seq<char>, JsonView)>
    decreases s,
{
    if s.len() == 0 {
        Seq::empty()
    } else {
        object_contents(s.drop_last()).push((s.last().name@, s.last().value.contents()))
    }
}

pub proof fn lemma_list_contents(s: Seq<Json>)
    ensures
        list_contents(s).len() == s.len(),
        forall|i: int| 0 <= i < s.len() ==> (#[trigger] list_contents(s)[i]) == s[i].contents(),
    decreases s.len(),
{
    if s.len() > 0 {
        lemma_list_contents(s.drop_last());
    }
}

pub proof fn lemma_object_contents(s: Seq<JsonField>)
    ensures
        object_contents(s).len() == s.len(),
        forall|i: int|
            0 <= i < s.len() ==> (#[trigger] object_contents(s)[i]) == (
                s[i].name@,
                s[i].value.contents(),
            ),
    decreases s.len(),
{
    if s.len() > 0 {
        lemma_object_contents(s.drop_last());
    }
}

/// The first member called `key`.
pub open spec fn first_member(fields: Seq<(Seq<char>, JsonView)>, key: Seq<char>) -> Option<
    JsonView,
>
    decreases fields.len(),
{
    if fields.len() == 0 {
        None
    } else if fields[0].0 == key {
        Some(fields[0].1)
    } else {
        first_member(fields.skip(1), key)
    }
}

impl JsonView {
    /// The member of an object called `key`; other values have none.
    pub open spec fn member(self, key: Seq<char>) -> Option<JsonView> {
        match self {
            JsonView::Object(fields) => first_member(fields, key),
            _ => None,
        }
    }

    /// The elements of an array.
    pub open spec fn list(self) -> Option<Seq<JsonView>> {
        match self {
            JsonView::List(items) => Some(items),
            _ => None,
        }
    }

    /// A text value.
    pub open spec fn text(self) -> Option<Seq<char>> {
        match self {
            JsonView::Text(s) => Some(s),
            _ => None,
        }
    }

    /// A number that is a non-negative integer.
    pub open spec fn unsigned(self) -> Option<u64> {
        match self {
            JsonView::Number(n) => n.unsigned,
            _ => None,
        }
    }

    /// The double-precision bits of a number.
    pub open spec fn double_bits(self) -> Option<u64> {
        match self {
            JsonView::Number(n) => n.double_bits,
            _ => None,
        }
    }
}

/// `member` of a value that may be absent.
pub open spec fn opt_member(v: Option<JsonView>, key: Seq<char>) -> Option<JsonView> {
    match v {
        Some(j) => j.member(key),
        None => None,
    }
}

/// What an optional reference to a value holds.
pub open spec fn opt_contents(v: Option<&Json>) -> Option<JsonView> {
    match v {
        Some(j) => Some(j.contents()),
        None => None,
    }
}

impl Json {
    /// The member of an object called `key`.
    pub fn member(&self, key: &str) -> (r: Option<&Json>)
        ensures
            opt_contents(r) == self.contents().member(key@),
    {
        match self {
            Json::Object(fields) => {
                let ghost all = object_contents(fields@);
                proof {
                    lemma_object_contents(fields@);
                    assert(all.skip(0) == all);
                }
                let mut i: usize = 0;
                while i < fields.len()
                    invariant
                        i <= fields@.len(),
                        all == object_contents(fields@),
                        all.len() == fields@.len(),
                        forall|k: int|
                            0 <= k < fields@.len() ==> (#[trigger] all[k]) == (
                                fields@[k].name@,
                                fields@[k].value.contents(),
                            ),
                        first_member(all, key@) == first_member(all.skip(i as int), key@),
                        self.contents().member(key@) == first_member(all, key@),
                    decreases fields@.len() - i,
                {
                    assert(all.skip(i as int)[0] == all[i as int]);
                    assert(all.skip(i as int).skip(1) == all.skip(i + 1));
                    if same(&fields[i].name, key) {
                        return Some(&fields[i].value);
                    }
                    i += 1;
                }
                None
            },
            _ => None,
        }
    }

    /// The elements of an array.
    pub fn list(&self) -> (r: Option<&Vec<Json>>)
        ensures
            r is Some <==> self.contents().list() is Some,
            r matches Some(v) ==> self.contents().list() == Some(list_contents(v@)),
    {
        match self {
            Json::List(v) => Some(v),
            _ => None,
        }
    }

    /// A text value.
    pub fn text(&self) -> (r: Option<&String>)
        ensures
            r.deep_view() == self.contents().text(),
    {
        match self {
            Json::Text(s) => Some(s),
            _ => None,
        }
    }

    /// A number that is a non-negative integer.
    pub fn unsigned(&self) -> (r: Option<u64>)
        ensures
            r == self.contents().unsigned(),
    {
        match self {
            Json::Number(n) => n.unsigned,
            _ => None,
        }
    }

    /// The double-precision bits of a number.
    pub fn double_bits(&self) -> (r: Option<u64>)
        ensures
            r == self.contents().double_bits(),
    {
        match self {
            Json::Number(n) => n.double_bits,
            _ => None,
        }
    }
}

/// The member of a value that may be absent.
pub fn member_of<'a>(v: Option<&'a Json>, key: &str) -> (r: Option<&'a Json>)
    ensures
        opt_contents(r) == opt_member(opt_contents(v), key@),
{
    match v {
        Some(j) => j.member(key),
        None => None,
    }
}

/// `serde_json::Value`, carried from the parser to the conversion below.
#[verifier::external_type_specification]
#[verifier::external_body]
pub struct ExValue(serde_json::Value);

/// What a parsed document holds: `serde_json::Value` is a tree of texts, numbers, lists and
/// objects.
pub uninterp spec fn value_contents(v: serde_json::Value) -> JsonView;

/// What `serde_json::from_slice` makes of a document: its contents, or the text of the error.
pub uninterp spec fn json_parsed(bytes: Seq<u8>) -> Result<JsonView, Seq<char>>;

/// `serde_json::from_slice` on a document, with the error as its text. What a document holds is
/// named and not spelled out: the grammar is that crate's.
#[verifier::external_body]
fn parse_value(bytes: &[u8]) -> (r: Result<serde_json::Value, String>)
    ensures
        json_parsed(bytes@) == match r {
            Ok(v) => Ok(value_contents(v)),
            Err(e) => Err(e@),
        },
{
    serde_json::from_slice(bytes).map_err(|e| e.to_string())
}

/// A `serde_json::Value` as a value of this library, variant for variant and member for member.
#[verifier::external_body]
fn value_to_json(v: serde_json::Value) -> (r: Json)
    ensures
        r.contents() == value_contents(v),
{
    match v {
        serde_json::Value::Null => Json::Null,
        serde_json::Value::Bool(b) => Json::Bool(b),
        serde_json::Value::Number(n) => Json::Number(JsonNumber {
            unsigned: n.as_u64(),
            double_bits: n.as_f64().map(|x| x.to_bits()),
        }),
        serde_json::Value::String(s) => Json::Text(s),
        serde_json::Value::Array(a) => Json::List(a.into_iter().map(value_to_json).collect()),
        serde_json::Value::Object(o) => Json::Object(
            o.into_iter().map(|(name, v)| JsonField { name, value: value_to_json(v) }).collect()),
    }
}

/// Parses a JSON document.
pub fn parse_json(bytes: &[u8]) -> (r: Result<Json, String>)
    ensures
        json_parsed(bytes@) == match r {
            Ok(v) => Ok(v.contents()),
            Err(e) => Err(e@),
        },
{
    match parse_value(bytes) {
        Ok(v) => Ok(value_to_json(v)),
        Err(e) => Err(e),
    }
}

/// A field that no earlier one shares its name with is what an object holds under that name.
pub proof fn law_first_field_of_a_name_counts(
    fields: Seq<(Seq<char>, JsonView)>,
    key: Seq<char>,
    i: int,
)
    requires
        0 <= i < fields.len(),
        fields[i].0 == key,
        forall|j: int| 0 <= j < i ==> (#[trigger] fields[j]).0 != key,
    ensures
        JsonView::Object(fields).member(key) == Some(fields[i].1),
    decreases i,
{
    if i > 0 {
        let rest = fields.skip(1);
        assert(fields[0].0 != key);
        assert forall|j: int| 0 <= j < i - 1 implies (#[trigger] rest[j]).0 != key by {
            assert(rest[j] == fields[j + 1]);
        }
        law_first_field_of_a_name_counts(rest, key, i - 1);
    }
}

/// An object holds nothing under a name that no field has.
pub proof fn law_missing_field(fields: Seq<(Seq<char>, JsonView)>, key: Seq<char>)
    requires
        forall|j: int| 0 <= j < fields.len() ==> (#[trigger] fields[j]).0 != key,
    ensures
        JsonView::Object(fields).member(key) is None,
    decreases fields.len(),
{
    if fields.len() > 0 {
        let rest = fields.skip(1);
        assert(fields[0].0 != key);
        assert forall|j: int| 0 <= j < rest.len() implies (#[trigger] rest[j]).0 != key by {
            assert(rest[j] == fields[j + 1]);
        }
        law_missing_field(rest, key);
    }
}

} // verus!
