//! A JSON value as the library holds it: tool-call arguments, tool results
//! and the Cedar request context are all values of this type.

use vstd::prelude::*;

verus! {

/// A JSON value. Numbers keep the three shapes that a JSON parser produces:
/// non-negative integers, negative integers, and numbers with a fraction or
/// exponent (kept as text).
#[derive(Debug, PartialEq)]
pub enum JsonValue {
    Null,
    Bool(bool),
    /// An integer `>= 0`.
    PosInt(u64),
    /// An integer `< 0`.
    NegInt(i64),
    /// A number with a fraction or an exponent, as text: as written when
    /// the value is built by hand, as the parser renders it when it comes
    /// from `parse_json`.
    Float(String),
    Str(String),
    Array(Vec<JsonValue>),
    /// Members in the order held: as given when the value is built by hand,
    /// in the parser's map order when it comes from `parse_json`.
    Object(Vec<(String, JsonValue)>),
}

/// The mathematical content of a JSON value.
pub enum JsonView {
    Null,
    Bool(bool),
    Int(int),
    Float(Seq<char>),
    Str(Seq<char>),
    Array(Seq<JsonView>),
    Object(Seq<(Seq<char>, JsonView)>),
}

/// The content of a JSON value.
pub open spec fn json_view(v: JsonValue) -> JsonView
    decreases v,
{
    match v {
        JsonValue::Null => JsonView::Null,
        JsonValue::Bool(b) => JsonView::Bool(b),
        JsonValue::PosInt(n) => JsonView::Int(n as int),
        JsonValue::NegInt(n) => JsonView::Int(n as int),
        JsonValue::Float(t) => JsonView::Float(t@),
        JsonValue::Str(s) => JsonView::Str(s@),
        JsonValue::Array(xs) => JsonView::Array(
            Seq::new(xs@.len(), |i: int| if 0 <= i < xs@.len() { json_view(xs@[i]) } else { JsonView::Null }),
        ),
        JsonValue::Object(es) => JsonView::Object(
            Seq::new(es@.len(), |i: int| if 0 <= i < es@.len() { (es@[i].0@, json_view(es@[i].1)) } else { (Seq::empty(), JsonView::Null) }),
        ),
    }
}

impl View for JsonValue {
    type V = JsonView;

    open spec fn view(&self) -> JsonView {
        json_view(*self)
    }
}

/// Deep copy of a JSON value.
pub fn clone_json(v: &JsonValue) -> (res: JsonValue)
    ensures
        res@ == v@,
    decreases v,
{
    match v {
        JsonValue::Null => JsonValue::Null,
        JsonValue::Bool(b) => JsonValue::Bool(*b),
        JsonValue::PosInt(n) => JsonValue::PosInt(*n),
        JsonValue::NegInt(n) => JsonValue::NegInt(*n),
        JsonValue::Float(t) => JsonValue::Float(t.clone()),
        JsonValue::Str(s) => JsonValue::Str(s.clone()),
        JsonValue::Array(xs) => {
            let mut out: Vec<JsonValue> = Vec::new();
            let mut i: usize = 0;
            while i < xs.len()
                invariant
                    *v == JsonValue::Array(*xs),
                    i <= xs@.len(),
                    out@.len() == i,
                    forall|j: int| 0 <= j < i ==> out@[j]@ == xs@[j]@,
                decreases xs@.len() - i,
            {
                proof {
                    assert(decreases_to!(*v => v->Array_0));
                    assert(decreases_to!(*xs => xs@));
                    assert(decreases_to!(xs@ => xs@[i as int]));
                }
                let c = clone_json(&xs[i]);
                out.push(c);
                i = i + 1;
            }
            proof {
                let a = json_view(JsonValue::Array(out))->Array_0;
                let b = json_view(*v)->Array_0;
                assert forall|j: int| 0 <= j < a.len() implies a[j] == b[j] by {
                    assert(a[j] == json_view(out@[j]));
                    assert(b[j] == json_view(xs@[j]));
                }
                assert(a =~= b);
            }
            JsonValue::Array(out)
        },
        JsonValue::Object(es) => {
            let mut out: Vec<(String, JsonValue)> = Vec::new();
            let mut i: usize = 0;
            while i < es.len()
                invariant
                    *v == JsonValue::Object(*es),
                    i <= es@.len(),
                    out@.len() == i,
                    forall|j: int| 0 <= j < i ==> out@[j].0@ == es@[j].0@ && out@[j].1@ == es@[j].1@,
                decreases es@.len() - i,
            {
                proof {
                    assert(decreases_to!(*v => v->Object_0));
                    assert(decreases_to!(*es => es@));
                    assert(decreases_to!(es@ => es@[i as int]));
                    assert(decreases_to!(es@[i as int] => es@[i as int].1));
                }
                let k = es[i].0.clone();
                let c = clone_json(&es[i].1);
                out.push((k, c));
                i = i + 1;
            }
            proof {
                let a = json_view(JsonValue::Object(out))->Object_0;
                let b = json_view(*v)->Object_0;
                assert forall|j: int| 0 <= j < a.len() implies a[j] == b[j] by {
                    assert(a[j] == (out@[j].0@, json_view(out@[j].1)));
                    assert(b[j] == (es@[j].0@, json_view(es@[j].1)));
                }
                assert(a =~= b);
            }
            JsonValue::Object(out)
        },
    }
}

impl Clone for JsonValue {
    fn clone(&self) -> (res: Self)
        ensures
            res@ == self@,
    {
        clone_json(self)
    }
}

/// The JSON value that `text` parses to with `serde_json`, if it parses.
pub uninterp spec fn spec_parse_json(text: Seq<char>) -> Option<JsonView>;

/// A value of the `serde_json` parser.
#[verifier::external_type_specification]
#[verifier::external_body]
pub struct ExSerdeJsonValue(serde_json::Value);

/// Converts a parsed `serde_json::Value` into a [`JsonValue`], variant by
/// variant (numbers by `as_u64`, then `as_i64`, else their text).
#[verifier::external_body]
fn from_serde(v: serde_json::Value) -> JsonValue {
    match v {
        serde_json::Value::Null => JsonValue::Null,
        serde_json::Value::Bool(b) => JsonValue::Bool(b),
        serde_json::Value::Number(n) => match (n.as_u64(), n.as_i64()) {
            (Some(u), _) => JsonValue::PosInt(u),
            (None, Some(i)) => JsonValue::NegInt(i),
            _ => JsonValue::Float(n.to_string()),
        },
        serde_json::Value::String(s) => JsonValue::Str(s),
        serde_json::Value::Array(xs) => JsonValue::Array(xs.into_iter().map(from_serde).collect()),
        serde_json::Value::Object(m) => JsonValue::Object(m.into_iter().map(|(k, x)| (k, from_serde(x))).collect()),
    }
}

/// `serde_json::from_str`: parses `text` as JSON.
/// Trusted: the result is the named parse of the text, `None` exactly when
/// it does not parse.
#[verifier::external_body]
pub(crate) fn parse_json(text: &str) -> (res: Option<JsonValue>)
    ensures
        match res {
            Some(v) => spec_parse_json(text@) == Some(v@),
            None => spec_parse_json(text@) is None,
        },
{
    serde_json::from_str::<serde_json::Value>(text).ok().map(from_serde)
}

} // verus!
