//! JSON documents as plain values.

use crate::text;
use vstd::prelude::*;

verus! {

/// A JSON document.
#[derive(Debug)]
pub enum Json {
    Null,
    Bool(bool),
    /// An integer that is not negative.
    Unsigned(u64),
    /// A negative integer.
    Negative(i64),
    /// Any other number.
    Fraction,
    Text(String),
    Array(Vec<Json>),
    /// The members, no name twice.
    Object(Vec<(String, Json)>),
}

/// A JSON document as a mathematical value.
pub enum JsonView {
    Null,
    Bool(bool),
    Unsigned(u64),
    Negative(i64),
    Fraction,
    Text(Seq<char>),
    Array(Seq<JsonView>),
    Object(Seq<(Seq<char>, JsonView)>),
}

impl View for Json {
    type V = JsonView;

    open spec fn view(&self) -> JsonView
        decreases self,
    {
        match self {
            Json::Null => JsonView::Null,
            Json::Bool(b) => JsonView::Bool(*b),
            Json::Unsigned(n) => JsonView::Unsigned(*n),
            Json::Negative(n) => JsonView::Negative(*n),
            Json::Fraction => JsonView::Fraction,
            Json::Text(s) => JsonView::Text(s@),
            Json::Array(items) => JsonView::Array(
                Seq::new(
                    items@.len(),
                    |i: int|
                        if 0 <= i < items@.len() {
                            items@[i].view()
                        } else {
                            JsonView::Null
                        },
                ),
            ),
            Json::Object(members) => JsonView::Object(
                Seq::new(
                    members@.len(),
                    |i: int|
                        if 0 <= i < members@.len() {
                            (members@[i].0@, members@[i].1.view())
                        } else {
                            (Seq::empty(), JsonView::Null)
                        },
                ),
            ),
        }
    }
}

/// The member of that name, where the document is an object that has one.
pub open spec fn json_field(v: JsonView, name: Seq<char>) -> Option<JsonView> {
    match v {
        JsonView::Object(members) => member(members, name),
        _ => None,
    }
}

/// The text of the member of that name, where there is one and it is a text.
pub open spec fn field_text(v: JsonView, name: Seq<char>) -> Option<Seq<char>> {
    match json_field(v, name) {
        Some(JsonView::Text(s)) => Some(s),
        _ => None,
    }
}

/// The value of the first member of that name.
pub open spec fn member(members: Seq<(Seq<char>, JsonView)>, name: Seq<char>) -> Option<JsonView>
    decreases members.len(),
{
    if members.len() == 0 {
        None
    } else if members[0].0 == name {
        Some(members[0].1)
    } else {
        member(members.drop_first(), name)
    }
}

/// Where no name occurs twice, each name gives its own value.
pub proof fn lemma_member_at(members: Seq<(Seq<char>, JsonView)>, i: int)
    requires
        0 <= i < members.len(),
        forall|a: int, b: int|
            0 <= a < b < members.len() ==> (#[trigger] members[a]).0 != (#[trigger] members[b]).0,
    ensures
        member(members, members[i].0) == Some(members[i].1),
    decreases members.len(),
{
    if i > 0 {
        assert(members[0].0 != members[i].0);
        let rest = members.drop_first();
        assert forall|a: int, b: int| 0 <= a < b < rest.len() implies (#[trigger] rest[a]).0 != (
        #[trigger] rest[b]).0 by {
            assert(rest[a] == members[a + 1]);
            assert(rest[b] == members[b + 1]);
        }
        lemma_member_at(rest, i - 1);
        assert(rest[i - 1] == members[i]);
    }
}

/// A name that does not occur gives nothing.
pub proof fn lemma_member_absent(members: Seq<(Seq<char>, JsonView)>, name: Seq<char>)
    requires
        forall|a: int| 0 <= a < members.len() ==> (#[trigger] members[a]).0 != name,
    ensures
        member(members, name) is None,
    decreases members.len(),
{
    if members.len() > 0 {
        assert(members[0].0 != name);
        let rest = members.drop_first();
        assert forall|a: int| 0 <= a < rest.len() implies (#[trigger] rest[a]).0 != name by {
            assert(rest[a] == members[a + 1]);
        }
        lemma_member_absent(rest, name);
    }
}

impl Json {
    /// The member of that name, where the document is an object that has one.
    pub fn field(&self, name: &str) -> (r: Option<&Json>)
        ensures
            r matches Some(v) ==> json_field(self@, name@) == Some(v@),
            r is None ==> json_field(self@, name@) is None,
    {
        match self {
            Json::Object(members) => {
                let ghost all = self@->Object_0;
                let mut i: usize = 0;
                proof {
                    reveal_with_fuel(<Json as View>::view, 2);
                }
                assert(all.skip(0) =~= all);
                while i < members.len()
                    invariant
                        i <= members@.len(),
                        all == self@->Object_0,
                        *self == Json::Object(*members),
                        all.len() == members@.len(),
                        member(all, name@) == member(all.skip(i as int), name@),
                    decreases members@.len() - i,
                {
                    assert(all[i as int] == (members@[i as int].0@, members@[i as int].1@)) by {
                        reveal_with_fuel(<Json as View>::view, 2);
                    }
                    assert(all.skip(i as int)[0] == all[i as int]);
                    assert(all.skip(i as int).drop_first() =~= all.skip(i as int + 1));
                    if text::str_eq(members[i].0.as_str(), name) {
                        return Some(&members[i].1);
                    }
                    i = i + 1;
                }
                None
            },
            _ => None,
        }
    }

    /// The text, where the document is one.
    pub fn as_str(&self) -> (r: Option<&str>)
        ensures
            r matches Some(s) ==> self@ == JsonView::Text(s@),
            r is None ==> !(self@ is Text),
    {
        match self {
            Json::Text(s) => Some(s.as_str()),
            _ => None,
        }
    }

    /// The text of the member of that name, where there is one and it is a
    /// text.
    pub fn field_str(&self, name: &str) -> (r: Option<&str>)
        ensures
            match r {
                Some(s) => field_text(self@, name@) == Some(s@),
                None => field_text(self@, name@) is None,
            },
    {
        match self.field(name) {
            Some(v) => v.as_str(),
            None => None,
        }
    }

    /// The items, where the document is an array.
    pub fn as_array(&self) -> (r: Option<&Vec<Json>>)
        ensures
            r matches Some(items) ==> self@ is Array && self@->Array_0.len() == items@.len() && (
            forall|i: int| 0 <= i < items@.len() ==> self@->Array_0[i] == (#[trigger] items@[i])@),
            r is None ==> !(self@ is Array),
    {
        match self {
            Json::Array(items) => {
                proof {
                    reveal_with_fuel(<Json as View>::view, 2);
                }
                Some(items)
            },
            _ => None,
        }
    }

    /// The truth value, where the document is one.
    pub fn as_bool(&self) -> (r: Option<bool>)
        ensures
            r == (match self@ {
                JsonView::Bool(b) => Some(b),
                _ => None,
            }),
    {
        match self {
            Json::Bool(b) => Some(*b),
            _ => None,
        }
    }

    /// The integer, where the document is one that is not negative.
    pub fn as_u64(&self) -> (r: Option<u64>)
        ensures
            r == (match self@ {
                JsonView::Unsigned(n) => Some(n),
                _ => None,
            }),
    {
        match self {
            Json::Unsigned(n) => Some(*n),
            _ => None,
        }
    }
}

/// The `Value` of the `serde_json` crate.
#[verifier::external_type_specification]
#[verifier::external_body]
pub struct ExValue(serde_json::Value);

/// The document that a `Value` holds.
pub uninterp spec fn value_view(v: serde_json::Value) -> JsonView;

/// The outermost layer of a document, its parts still `Value`s.
pub enum Layer<'a> {
    Null,
    Bool(bool),
    Unsigned(u64),
    Negative(i64),
    Fraction,
    Text(String),
    Array(Vec<&'a serde_json::Value>),
    Object(Vec<(String, &'a serde_json::Value)>),
}

/// Which variant a `Value` is and what it holds, through `Value`'s variants and
/// the methods `as_u64` and `as_i64` of its `Number`. A map has no key twice.
#[verifier::external_body]
pub(crate) fn outer_layer<'a>(v: &'a serde_json::Value) -> (l: Layer<'a>)
    ensures
        match l {
            Layer::Null => value_view(*v) == JsonView::Null,
            Layer::Bool(b) => value_view(*v) == JsonView::Bool(b),
            Layer::Unsigned(n) => value_view(*v) == JsonView::Unsigned(n),
            Layer::Negative(n) => value_view(*v) == JsonView::Negative(n),
            Layer::Fraction => value_view(*v) == JsonView::Fraction,
            Layer::Text(s) => value_view(*v) == JsonView::Text(s@),
            Layer::Array(items) => value_view(*v) == JsonView::Array(
                items@.map_values(|i: &'a serde_json::Value| value_view(*i)),
            ),
            Layer::Object(members) => value_view(*v) == JsonView::Object(
                members@.map_values(|m: (String, &'a serde_json::Value)| (m.0@, value_view(*m.1))),
            ),
        },
{
    match v {
        serde_json::Value::Null => Layer::Null,
        serde_json::Value::Bool(b) => Layer::Bool(*b),
        serde_json::Value::Number(n) => match (n.as_u64(), n.as_i64()) {
            (Some(u), _) => Layer::Unsigned(u),
            (None, Some(i)) => Layer::Negative(i),
            (None, None) => Layer::Fraction,
        },
        serde_json::Value::String(s) => Layer::Text(s.clone()),
        serde_json::Value::Array(a) => Layer::Array(a.iter().collect()),
        serde_json::Value::Object(m) => Layer::Object(m.iter().map(|(k, v)| (k.clone(), v)).collect()),
    }
}

/// The document that a `Value` holds, as a plain value.
pub(crate) fn json_of(v: &serde_json::Value) -> (j: Json)
    ensures
        j@ == value_view(*v),
    decreases value_view(*v),
{
    match outer_layer(v) {
        Layer::Null => Json::Null,
        Layer::Bool(b) => Json::Bool(b),
        Layer::Unsigned(n) => Json::Unsigned(n),
        Layer::Negative(n) => Json::Negative(n),
        Layer::Fraction => Json::Fraction,
        Layer::Text(s) => Json::Text(s),
        Layer::Array(items) => {
            let ghost parts = value_view(*v)->Array_0;
            let mut out: Vec<Json> = Vec::new();
            let mut i: usize = 0;
            while i < items.len()
                invariant
                    i <= items@.len(),
                    out@.len() == i,
                    value_view(*v) == JsonView::Array(parts),
                    parts == items@.map_values(|i: &serde_json::Value| value_view(*i)),
                    forall|k: int| 0 <= k < i ==> (#[trigger] out@[k])@ == parts[k],
                decreases items@.len() - i,
            {
                assert(parts[i as int] == value_view(*items@[i as int]));
                assert(decreases_to!(value_view(*v) => value_view(*v)->Array_0));
                assert(decreases_to!(value_view(*v)->Array_0 => value_view(*v)->Array_0[i as int]));
                let part = json_of(items[i]);
                out.push(part);
                i = i + 1;
            }
            let j = Json::Array(out);
            assert(j@->Array_0 =~= parts);
            j
        },
        Layer::Object(members) => {
            let ghost parts = value_view(*v)->Object_0;
            let mut out: Vec<(String, Json)> = Vec::new();
            let mut i: usize = 0;
            while i < members.len()
                invariant
                    i <= members@.len(),
                    out@.len() == i,
                    value_view(*v) == JsonView::Object(parts),
                    parts == members@.map_values(
                        |m: (String, &serde_json::Value)| (m.0@, value_view(*m.1)),
                    ),
                    forall|k: int|
                        0 <= k < i ==> ((#[trigger] out@[k]).0@, out@[k].1@) == parts[k],
                decreases members@.len() - i,
            {
                assert(parts[i as int].1 == value_view(*members@[i as int].1));
                assert(decreases_to!(value_view(*v) => value_view(*v)->Object_0));
                assert(decreases_to!(value_view(*v)->Object_0 => value_view(*v)->Object_0[i as int]));
                assert(decreases_to!(value_view(*v)->Object_0[i as int] => value_view(*v)->Object_0[i as int].1));
                let part = json_of(members[i].1);
                out.push((members[i].0.clone(), part));
                i = i + 1;
            }
            let j = Json::Object(out);
            assert(j@->Object_0 =~= parts);
            j
        },
    }
}

/// The document that `text` denotes, where it is JSON.
pub uninterp spec fn json_parsed(text: Seq<char>) -> Option<JsonView>;

/// `serde_json::from_str` for a `Value`. The document is named; an error stands
/// for a text that is not JSON.
#[verifier::external_body]
pub(crate) fn parse_value(text: &str) -> (r: Option<serde_json::Value>)
    ensures
        r matches Some(v) ==> json_parsed(text@) == Some(value_view(v)),
        r is None ==> json_parsed(text@) is None,
{
    serde_json::from_str::<serde_json::Value>(text).ok()
}

/// The document that `text` denotes, or `None` where it is not JSON.
pub fn parse(text: &str) -> (r: Option<Json>)
    ensures
        r matches Some(j) ==> json_parsed(text@) == Some(j@),
        r is None ==> json_parsed(text@) is None,
{
    match parse_value(text) {
        Some(v) => Some(json_of(&v)),
        None => None,
    }
}

} // verus!
