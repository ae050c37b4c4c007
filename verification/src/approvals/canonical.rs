//! The `sha256:` hash of approval arguments over their RFC 8785 canonical
//! form (as `serde_jcs` writes it), and the ordered member lists it rests on.
//!
//! Numbers with a fraction or exponent are rejected at the boundary: their
//! text form is not stable across implementations, and approval arguments
//! must hash identically across processes.

use vstd::prelude::*;
use crate::json::{JsonValue, JsonView};
use crate::numfmt::{decimal_digits, push_decimal};
use crate::text::{push_char, to_chars, char_code};
use crate::digest::{sha256, spec_sha256, hex_encode, spec_hex_lower, is_sha256_text, lemma_sha256_text};

verus! {

/// Why a value has no canonical hash.
#[derive(Debug)]
pub enum CanonicalError {
    /// A number with a fraction or exponent, at the given path (`a[0].b`).
    FloatNotAllowed { path: String },
    /// The canonical serializer failed.
    Jcs(String),
}

// ---------------------------------------------------------------------------
// Specification
// ---------------------------------------------------------------------------

/// Strict lexicographic order on character sequences (by code point, which
/// is also the byte order of their UTF-8 encodings).
pub open spec fn lex_lt(a: Seq<char>, b: Seq<char>) -> bool
    decreases a.len(),
{
    if a.len() == 0 {
        b.len() > 0
    } else if b.len() == 0 {
        false
    } else if a[0] != b[0] {
        (a[0] as int) < (b[0] as int)
    } else {
        lex_lt(a.drop_first(), b.drop_first())
    }
}

/// Inserts member `(k, v)` into a list ordered by key: it replaces a member
/// with the same key, or goes before the first member with a greater key.
pub open spec fn insert_sorted<V>(es: Seq<(Seq<char>, V)>, k: Seq<char>, v: V) -> Seq<(Seq<char>, V)>
    decreases es.len(),
{
    if es.len() == 0 {
        seq![(k, v)]
    } else if es[0].0 == k {
        seq![(k, v)] + es.drop_first()
    } else if lex_lt(k, es[0].0) {
        seq![(k, v)] + es
    } else {
        seq![es[0]] + insert_sorted(es.drop_first(), k, v)
    }
}

/// Members inserted one after another into an ordered list.
pub open spec fn fold_sorted<V>(es: Seq<(Seq<char>, V)>) -> Seq<(Seq<char>, V)>
    decreases es.len(),
{
    if es.len() == 0 {
        Seq::empty()
    } else {
        insert_sorted(fold_sorted(es.drop_last()), es.last().0, es.last().1)
    }
}

/// A JSON value with the members of every object in key order, a later
/// member with a key seen before replacing the earlier one.
pub open spec fn normalize(v: JsonView) -> JsonView
    decreases v, 1nat,
{
    match v {
        JsonView::Array(xs) => JsonView::Array(normalize_items(xs)),
        JsonView::Object(es) => JsonView::Object(fold_sorted(normalize_members(es))),
        _ => v,
    }
}

/// The array elements, normalized.
pub open spec fn normalize_items(xs: Seq<JsonView>) -> Seq<JsonView>
    decreases xs, 0nat,
{
    Seq::new(xs.len(), |i: int| if 0 <= i < xs.len() { normalize(xs[i]) } else { JsonView::Null })
}

/// The object members with normalized values, in their given order.
pub open spec fn normalize_members(es: Seq<(Seq<char>, JsonView)>) -> Seq<(Seq<char>, JsonView)>
    decreases es, 0nat,
{
    Seq::new(
        es.len(),
        |i: int| if 0 <= i < es.len() { (es[i].0, normalize(es[i].1)) } else { (Seq::empty(), JsonView::Null) },
    )
}

/// Path of an array element below `path`.
pub open spec fn item_path(path: Seq<char>, i: nat) -> Seq<char> {
    path + seq!['['] + decimal_digits(i) + seq![']']
}

/// Path of an object member below `path`.
pub open spec fn member_path(path: Seq<char>, key: Seq<char>) -> Seq<char> {
    if path.len() == 0 {
        key
    } else {
        path + seq!['.'] + key
    }
}

/// The first `Some` in `s` at or after index `i`.
pub open spec fn first_some<X>(s: Seq<Option<X>>, i: int) -> Option<X>
    decreases s.len() - i,
{
    if i < 0 || i >= s.len() {
        None
    } else if s[i] is Some {
        s[i]
    } else {
        first_some(s, i + 1)
    }
}

/// Path of the first number with a fraction or exponent, visiting array
/// elements in order and object members in their given order.
pub open spec fn float_path(v: JsonView, path: Seq<char>) -> Option<Seq<char>>
    decreases v, 1nat,
{
    match v {
        JsonView::Float(_) => Some(path),
        JsonView::Array(xs) => first_some(float_items(xs, path), 0),
        JsonView::Object(es) => first_some(float_members(es, path), 0),
        _ => None,
    }
}

/// For each array element, the path of its first float.
pub open spec fn float_items(xs: Seq<JsonView>, path: Seq<char>) -> Seq<Option<Seq<char>>>
    decreases xs, 0nat,
{
    Seq::new(
        xs.len(),
        |i: int| if 0 <= i < xs.len() { float_path(xs[i], item_path(path, i as nat)) } else { None },
    )
}

/// For each object member, the path of its first float.
pub open spec fn float_members(es: Seq<(Seq<char>, JsonView)>, path: Seq<char>) -> Seq<Option<Seq<char>>>
    decreases es, 0nat,
{
    Seq::new(
        es.len(),
        |i: int| if 0 <= i < es.len() { float_path(es[i].1, member_path(path, es[i].0)) } else { None },
    )
}

/// `sha256:` followed by the lowercase hex SHA-256 of `bytes`.
pub open spec fn hash_bytes(bytes: Seq<u8>) -> Seq<char> {
    seq!['s', 'h', 'a', '2', '5', '6', ':'] + spec_hex_lower(spec_sha256(bytes))
}

/// The UTF-8 bytes of the RFC 8785 text that `serde_jcs::to_vec` writes for
/// a JSON value.
pub uninterp spec fn spec_jcs(v: JsonView) -> Seq<u8>;

// ---------------------------------------------------------------------------
// Implementation
// ---------------------------------------------------------------------------

proof fn lemma_lex_lt_skip(a: Seq<char>, b: Seq<char>, i: int)
    requires
        0 <= i <= a.len(),
        i <= b.len(),
        forall|j: int| 0 <= j < i ==> a[j] == b[j],
    ensures
        lex_lt(a, b) == lex_lt(a.skip(i), b.skip(i)),
    decreases i,
{
    if i > 0 {
        assert(a.len() > 0 && b.len() > 0);
        assert(a[0] == b[0]);
        lemma_lex_lt_skip(a.drop_first(), b.drop_first(), i - 1);
        assert(a.drop_first().skip(i - 1) =~= a.skip(i));
        assert(b.drop_first().skip(i - 1) =~= b.skip(i));
    } else {
        assert(a.skip(0) =~= a);
        assert(b.skip(0) =~= b);
    }
}

/// `a` orders strictly before `b` (by code point).
pub fn lex_less(a: &str, b: &str) -> (res: bool)
    ensures
        res == lex_lt(a@, b@),
{
    let x = to_chars(a);
    let y = to_chars(b);
    let mut i: usize = 0;
    while i < x.len() && i < y.len()
        invariant
            x@ == a@,
            y@ == b@,
            i <= x@.len(),
            i <= y@.len(),
            forall|j: int| 0 <= j < i ==> x@[j] == y@[j],
        decreases x@.len() - i,
    {
        let cx = x[i];
        let cy = y[i];
        if cx != cy {
            let ux = char_code(cx);
            let uy = char_code(cy);
            proof {
                lemma_lex_lt_skip(x@, y@, i as int);
                assert(x@.skip(i as int)[0] == x@[i as int]);
                assert(y@.skip(i as int)[0] == y@[i as int]);
                assert(lex_lt(x@.skip(i as int), y@.skip(i as int)) == ((x@[i as int] as int) < (y@[i as int] as int)));
            }
            return ux < uy;
        }
        i = i + 1;
    }
    proof {
        lemma_lex_lt_skip(x@, y@, i as int);
    }
    i == x.len() && i < y.len()
}

/// The view of an ordered member list.
pub open spec fn members_view(acc: Seq<(String, String)>) -> Seq<(Seq<char>, Seq<char>)> {
    Seq::new(acc.len(), |i: int| (acc[i].0@, acc[i].1@))
}

proof fn lemma_insert_sorted_skip<V>(es: Seq<(Seq<char>, V)>, k: Seq<char>, v: V, j: int)
    requires
        0 <= j <= es.len(),
        forall|l: int| 0 <= l < j ==> es[l].0 != k && !lex_lt(k, es[l].0),
    ensures
        insert_sorted(es, k, v) == es.take(j) + insert_sorted(es.skip(j), k, v),
    decreases j,
{
    if j == 0 {
        assert(es.take(0) + insert_sorted(es.skip(0), k, v) =~= insert_sorted(es, k, v)) by {
            assert(es.skip(0) =~= es);
        }
    } else {
        let d = es.drop_first();
        assert forall|l: int| 0 <= l < j - 1 implies d[l].0 != k && !lex_lt(k, d[l].0) by {
            assert(d[l] == es[l + 1]);
        }
        lemma_insert_sorted_skip(d, k, v, j - 1);
        assert(d.skip(j - 1) =~= es.skip(j));
        assert(es.take(j) =~= seq![es[0]] + d.take(j - 1));
        assert(insert_sorted(es, k, v) == seq![es[0]] + insert_sorted(d, k, v));
        assert(insert_sorted(es, k, v) =~= es.take(j) + insert_sorted(es.skip(j), k, v));
    }
}

/// Inserts member `(k, v)` into an ordered member list (replacing a member
/// with the same key).
pub fn insert_member(acc: &mut Vec<(String, String)>, k: String, v: String)
    ensures
        members_view(final(acc)@) == insert_sorted(members_view(old(acc)@), k@, v@),
{
    let ghost es = members_view(acc@);
    let mut j: usize = 0;
    while j < acc.len()
        invariant
            j <= acc@.len(),
            es == members_view(acc@),
            forall|l: int| 0 <= l < j ==> es[l].0 != k@ && !lex_lt(k@, es[l].0),
        ensures
            j <= acc@.len(),
            es == members_view(acc@),
            forall|l: int| 0 <= l < j ==> es[l].0 != k@ && !lex_lt(k@, es[l].0),
            j < acc@.len() ==> (es[j as int].0 == k@ || lex_lt(k@, es[j as int].0)),
        decreases acc@.len() - j,
    {
        let same = acc[j].0 == k;
        if same {
            break;
        }
        if lex_less(k.as_str(), acc[j].0.as_str()) {
            break;
        }
        j = j + 1;
    }
    proof {
        lemma_insert_sorted_skip(es, k@, v@, j as int);
    }
    let ghost k_view = k@;
    let ghost v_view = v@;
    if j == acc.len() {
        acc.push((k, v));
        proof {
            assert(es.skip(j as int) =~= Seq::<(Seq<char>, Seq<char>)>::empty());
            assert(es.take(j as int) =~= es);
            assert(members_view(acc@) =~= insert_sorted(es, k_view, v_view));
        }
    } else if acc[j].0 == k {
        proof {
            let r = es.skip(j as int);
            assert(r[0] == es[j as int]);
            assert(r.drop_first() =~= es.skip(j as int + 1));
        }
        acc.set(j, (k, v));
        proof {
            assert(members_view(acc@) =~= insert_sorted(es, k_view, v_view));
        }
    } else {
        proof {
            let r = es.skip(j as int);
            assert(r[0] == es[j as int]);
        }
        acc.insert(j, (k, v));
        proof {
            assert(members_view(acc@) =~= insert_sorted(es, k_view, v_view));
        }
    }
}


/// The path of the first number with a fraction or exponent in `v`, below
/// `path`, or `None` when there is none.
pub fn find_float(v: &JsonValue, path: &String) -> (res: Option<String>)
    ensures
        match res {
            Some(p) => float_path(v@, path@) == Some(p@),
            None => float_path(v@, path@) is None,
        },
    decreases v,
{
    match v {
        JsonValue::Float(_) => Some(path.clone()),
        JsonValue::Array(xs) => {
            let ghost inner = v@->Array_0;
            let ghost found = float_items(inner, path@);
            let mut i: usize = 0;
            while i < xs.len()
                invariant
                    *v == JsonValue::Array(*xs),
                    inner == v@->Array_0,
                    inner.len() == xs@.len(),
                    forall|j: int| 0 <= j < inner.len() ==> #[trigger] inner[j] == xs@[j]@,
                    found == float_items(inner, path@),
                    i <= xs@.len(),
                    first_some(found, 0) == first_some(found, i as int),
                decreases xs@.len() - i,
            {
                proof {
                    assert(decreases_to!(*v => v->Array_0));
                    assert(decreases_to!(*xs => xs@));
                    assert(decreases_to!(xs@ => xs@[i as int]));
                }
                let mut child = path.clone();
                push_char(&mut child, '[');
                push_decimal(&mut child, i as u64);
                push_char(&mut child, ']');
                proof {
                    assert(child@ =~= item_path(path@, i as nat));
                    assert(found[i as int] == float_path(xs@[i as int]@, child@));
                }
                let r = find_float(&xs[i], &child);
                if r.is_some() {
                    return r;
                }
                i = i + 1;
            }
            None
        },
        JsonValue::Object(es) => {
            let ghost inner = v@->Object_0;
            let ghost found = float_members(inner, path@);
            let mut i: usize = 0;
            while i < es.len()
                invariant
                    *v == JsonValue::Object(*es),
                    inner == v@->Object_0,
                    inner.len() == es@.len(),
                    forall|j: int| 0 <= j < inner.len() ==> #[trigger] inner[j] == (es@[j].0@, es@[j].1@),
                    found == float_members(inner, path@),
                    i <= es@.len(),
                    first_some(found, 0) == first_some(found, i as int),
                decreases es@.len() - i,
            {
                proof {
                    assert(decreases_to!(*v => v->Object_0));
                    assert(decreases_to!(*es => es@));
                    assert(decreases_to!(es@ => es@[i as int]));
                    assert(decreases_to!(es@[i as int] => es@[i as int].1));
                }
                let child = if path.as_str().unicode_len() == 0 {
                    es[i].0.clone()
                } else {
                    let mut c = path.clone();
                    push_char(&mut c, '.');
                    c.append(es[i].0.as_str());
                    c
                };
                proof {
                    assert(child@ =~= member_path(path@, es@[i as int].0@));
                    assert(found[i as int] == float_path(es@[i as int].1@, child@));
                }
                let r = find_float(&es[i].1, &child);
                if r.is_some() {
                    return r;
                }
                i = i + 1;
            }
            None
        },
        _ => None,
    }
}

/// Rejects numbers with a fraction or exponent anywhere in `v`, reporting
/// the path of the first one.
pub fn reject_floats(v: &JsonValue, path: &String) -> (res: Result<(), CanonicalError>)
    ensures
        match res {
            Ok(()) => float_path(v@, path@) is None,
            Err(CanonicalError::FloatNotAllowed { path: p }) => float_path(v@, path@) == Some(p@),
            Err(CanonicalError::Jcs(_)) => false,
        },
{
    match find_float(v, path) {
        Some(p) => Err(CanonicalError::FloatNotAllowed { path: p }),
        None => Ok(()),
    }
}

/// A `serde_json::Value` with the same content, variant by variant.
#[verifier::external_body]
fn to_serde(v: &JsonValue) -> serde_json::Value {
    match v {
        JsonValue::Null => serde_json::Value::Null,
        JsonValue::Bool(b) => serde_json::Value::Bool(*b),
        JsonValue::PosInt(n) => serde_json::Value::from(*n),
        JsonValue::NegInt(n) => serde_json::Value::from(*n),
        JsonValue::Float(t) => t.parse::<serde_json::Number>().map(serde_json::Value::Number).unwrap_or_default(),
        JsonValue::Str(s) => serde_json::Value::String(s.clone()),
        JsonValue::Array(xs) => serde_json::Value::Array(xs.iter().map(to_serde).collect()),
        JsonValue::Object(es) => serde_json::Value::Object(es.iter().map(|(k, x)| (k.clone(), to_serde(x))).collect()),
    }
}

/// `serde_jcs::to_vec` on the value (made a `serde_json::Value` by
/// [`to_serde`]). Claims that it succeeds on a value without numbers with a
/// fraction or exponent (the source fails only on non-finite floats and on
/// an object key written outside an object), and that the bytes are the
/// named text of the normalized value: `serde_jcs` orders every object's
/// members by key, and `serde_json`'s map keeps the last of duplicate keys,
/// so the text depends on the value only through its normal form.
#[verifier::external_body]
fn jcs_bytes(v: &JsonValue) -> (res: Result<Vec<u8>, String>)
    requires
        float_path(v@, Seq::empty()) is None,
    ensures
        res is Ok,
        res->Ok_0@ == spec_jcs(normalize(v@)),
{
    serde_jcs::to_vec(&to_serde(v)).map_err(|e| e.to_string())
}

/// The text `serde_json::to_string_pretty` renders a value as.
pub uninterp spec fn spec_pretty_json(v: JsonView) -> Seq<char>;

/// `serde_json::to_string_pretty` on the value (made a `serde_json::Value`
/// by [`to_serde`]). Claims that the text is the named rendering of the
/// value: the conversion depends on the value's content only, and the
/// rendering of a `serde_json::Value` never fails (its map keys are
/// strings and it writes to memory), so the empty fallback is never taken.
#[verifier::external_body]
pub(crate) fn pretty_json(v: &JsonValue) -> (res: String)
    ensures
        res@ == spec_pretty_json(v@),
{
    serde_json::to_string_pretty(&to_serde(v)).unwrap_or_default()
}

/// The hash of a value's canonical form, `None` when it holds a number with
/// a fraction or exponent.
pub open spec fn canonical_hash_spec(v: JsonView) -> Option<Seq<char>> {
    if float_path(v, Seq::empty()) is Some {
        None
    } else {
        Some(hash_bytes(spec_jcs(normalize(v))))
    }
}

/// Canonical hash of approval arguments: rejects numbers with a fraction or
/// exponent (reporting the first one's path), then hashes the RFC 8785 text.
pub fn canonical_hash(value: &JsonValue) -> (res: Result<String, CanonicalError>)
    ensures
        match res {
            Ok(h) => canonical_hash_spec(value@) == Some(h@) && is_sha256_text(h@),
            Err(CanonicalError::FloatNotAllowed { path }) => float_path(value@, Seq::empty()) == Some(path@),
            Err(CanonicalError::Jcs(_)) => false,
        },
{
    let root = String::new();
    match reject_floats(value, &root) {
        Ok(()) => {},
        Err(e) => {
            return Err(e);
        },
    }
    let bytes = match jcs_bytes(value) {
        Ok(b) => b,
        Err(e) => {
            return Err(CanonicalError::Jcs(e));
        },
    };
    let digest = sha256(bytes.as_slice());
    let hex = hex_encode(digest.as_slice());
    let mut out = String::new();
    push_char(&mut out, 's');
    push_char(&mut out, 'h');
    push_char(&mut out, 'a');
    push_char(&mut out, '2');
    push_char(&mut out, '5');
    push_char(&mut out, '6');
    push_char(&mut out, ':');
    out.append(hex.as_str());
    proof {
        assert(out@ =~= hash_bytes(spec_jcs(normalize(value@))));
        lemma_sha256_text(digest@);
        assert(out@ =~= seq!['s', 'h', 'a', '2', '5', '6', ':'] + spec_hex_lower(digest@));
    }
    Ok(out)
}

} // verus!
