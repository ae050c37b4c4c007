//! Why the canonical hash does not depend on the order of object members:
//! members are kept in a list ordered strictly by key, and such a list is
//! determined by the members it holds.

use vstd::prelude::*;
use crate::approvals::canonical::{
    canonical_hash_spec, first_some, float_members, float_path, fold_sorted, insert_sorted, lex_lt, member_path,
    float_items, item_path, normalize, normalize_items, normalize_members,
};
use crate::approvals::correlation::correlation_key_spec;
use crate::json::JsonView;

verus! {

// ---------------------------------------------------------------------------
// The order on keys
// ---------------------------------------------------------------------------

/// No key orders before itself.
pub proof fn lemma_lex_irreflexive(a: Seq<char>)
    ensures
        !lex_lt(a, a),
    decreases a.len(),
{
    if a.len() > 0 {
        lemma_lex_irreflexive(a.drop_first());
    }
}

/// Two keys never order before each other.
pub proof fn lemma_lex_asymmetric(a: Seq<char>, b: Seq<char>)
    requires
        lex_lt(a, b),
    ensures
        !lex_lt(b, a),
    decreases a.len(),
{
    if a.len() > 0 && b.len() > 0 && a[0] == b[0] {
        lemma_lex_asymmetric(a.drop_first(), b.drop_first());
    }
}

/// The key order is transitive.
pub proof fn lemma_lex_transitive(a: Seq<char>, b: Seq<char>, c: Seq<char>)
    requires
        lex_lt(a, b),
        lex_lt(b, c),
    ensures
        lex_lt(a, c),
    decreases a.len(),
{
    if a.len() > 0 {
        if a[0] == b[0] && b[0] == c[0] {
            lemma_lex_transitive(a.drop_first(), b.drop_first(), c.drop_first());
        }
    }
}

proof fn lemma_seq_front(a: Seq<char>, b: Seq<char>)
    requires
        a.len() > 0,
        b.len() > 0,
        a[0] == b[0],
        a.drop_first() == b.drop_first(),
    ensures
        a == b,
{
    assert(a.drop_first().len() == a.len() - 1);
    assert(b.drop_first().len() == b.len() - 1);
    assert(a.len() == b.len());
    assert forall|i: int| 0 <= i < a.len() implies a[i] == b[i] by {
        if i > 0 {
            assert(a[i] == a.drop_first()[i - 1]);
            assert(b[i] == b.drop_first()[i - 1]);
        }
    }
    assert(a =~= b);
}

/// Of two distinct keys, one orders before the other.
pub proof fn lemma_lex_total(a: Seq<char>, b: Seq<char>)
    requires
        a != b,
    ensures
        lex_lt(a, b) || lex_lt(b, a),
    decreases a.len(),
{
    if a.len() == 0 {
        assert(b.len() > 0) by {
            if b.len() == 0 {
                assert(a =~= b);
            }
        }
    } else if b.len() == 0 {
    } else if a[0] == b[0] {
        if a.drop_first() == b.drop_first() {
            lemma_seq_front(a, b);
        }
        lemma_lex_total(a.drop_first(), b.drop_first());
    }
}

// ---------------------------------------------------------------------------
// Ordered member lists
// ---------------------------------------------------------------------------

/// Keys strictly increase along the list.
pub open spec fn keys_sorted<V>(es: Seq<(Seq<char>, V)>) -> bool {
    forall|i: int, j: int| 0 <= i < j < es.len() ==> lex_lt(#[trigger] es[i].0, #[trigger] es[j].0)
}

/// The value of the first member with key `k`.
pub open spec fn value_of<V>(es: Seq<(Seq<char>, V)>, k: Seq<char>) -> Option<V>
    decreases es.len(),
{
    if es.len() == 0 {
        None
    } else if es[0].0 == k {
        Some(es[0].1)
    } else {
        value_of(es.drop_first(), k)
    }
}

/// The value of the last member with key `k`.
pub open spec fn last_value<V>(es: Seq<(Seq<char>, V)>, k: Seq<char>) -> Option<V>
    decreases es.len(),
{
    if es.len() == 0 {
        None
    } else if es.last().0 == k {
        Some(es.last().1)
    } else {
        last_value(es.drop_last(), k)
    }
}

/// `value_of` finds a member with the key, or there is none.
pub proof fn lemma_value_of<V>(es: Seq<(Seq<char>, V)>, k: Seq<char>)
    ensures
        match value_of(es, k) {
            Some(v) => exists|j: int| 0 <= j < es.len() && es[j].0 == k && es[j].1 == v,
            None => forall|j: int| 0 <= j < es.len() ==> es[j].0 != k,
        },
    decreases es.len(),
{
    if es.len() > 0 && es[0].0 != k {
        let d = es.drop_first();
        lemma_value_of(d, k);
        match value_of(d, k) {
            Some(v) => {
                let j = choose|j: int| 0 <= j < d.len() && d[j].0 == k && d[j].1 == v;
                assert(es[j + 1] == d[j]);
            },
            None => {
                assert forall|j: int| 0 <= j < es.len() implies es[j].0 != k by {
                    if j > 0 {
                        assert(es[j] == d[j - 1]);
                    }
                }
            },
        }
    }
}

proof fn lemma_last_value<V>(es: Seq<(Seq<char>, V)>, k: Seq<char>)
    ensures
        match last_value(es, k) {
            Some(v) => exists|j: int| 0 <= j < es.len() && es[j].0 == k && es[j].1 == v,
            None => forall|j: int| 0 <= j < es.len() ==> es[j].0 != k,
        },
    decreases es.len(),
{
    if es.len() > 0 && es.last().0 != k {
        let d = es.drop_last();
        lemma_last_value(d, k);
        match last_value(d, k) {
            Some(v) => {
                let j = choose|j: int| 0 <= j < d.len() && d[j].0 == k && d[j].1 == v;
                assert(es[j] == d[j]);
            },
            None => {
                assert forall|j: int| 0 <= j < es.len() implies es[j].0 != k by {
                    if j < es.len() - 1 {
                        assert(es[j] == d[j]);
                    }
                }
            },
        }
    }
}

/// In an ordered list, the value of each member's key is that member's value.
pub proof fn lemma_value_of_index<V>(es: Seq<(Seq<char>, V)>, j: int)
    requires
        keys_sorted(es),
        0 <= j < es.len(),
    ensures
        value_of(es, es[j].0) == Some(es[j].1),
    decreases j,
{
    if j > 0 {
        let d = es.drop_first();
        assert(lex_lt(es[0].0, es[j].0));
        lemma_lex_irreflexive(es[j].0);
        assert(es[0].0 != es[j].0);
        assert forall|a: int, b: int| 0 <= a < b < d.len() implies lex_lt(#[trigger] d[a].0, #[trigger] d[b].0) by {
            assert(d[a] == es[a + 1]);
            assert(d[b] == es[b + 1]);
        }
        assert(d[j - 1] == es[j]);
        lemma_value_of_index(d, j - 1);
    }
}

/// Inserting keeps the list ordered and sets the value of key `k`.
#[verifier::spinoff_prover]
#[verifier::rlimit(50)]
pub proof fn lemma_insert_sorted<V>(es: Seq<(Seq<char>, V)>, k: Seq<char>, v: V)
    requires
        keys_sorted(es),
    ensures
        keys_sorted(insert_sorted(es, k, v)),
        forall|i: int| 0 <= i < insert_sorted(es, k, v).len() ==> (#[trigger] insert_sorted(es, k, v)[i]).0 == k
            || exists|j: int| 0 <= j < es.len() && es[j].0 == insert_sorted(es, k, v)[i].0,
        forall|k2: Seq<char>| #[trigger] value_of(insert_sorted(es, k, v), k2) == if k2 == k {
            Some(v)
        } else {
            value_of(es, k2)
        },
    decreases es.len(),
{
    let r = insert_sorted(es, k, v);
    if es.len() == 0 {
        assert(r == seq![(k, v)]);
        assert(r.len() == 1);
        assert(r[0] == (k, v));
        assert forall|k2: Seq<char>| #[trigger] value_of(r, k2) == if k2 == k { Some(v) } else { value_of(es, k2) } by {
            assert(r.drop_first().len() == 0);
            assert(value_of(r.drop_first(), k2) is None);
            assert(value_of(es, k2) is None);
        }
    } else if es[0].0 == k {
        let d = es.drop_first();
        assert(r == seq![(k, v)] + d);
        assert(r.drop_first() =~= d);
        assert forall|a: int, b: int| 0 <= a < b < r.len() implies lex_lt(#[trigger] r[a].0, #[trigger] r[b].0) by {
            if a == 0 {
                assert(r[b] == es[b]);
                assert(lex_lt(es[0].0, es[b].0));
            } else {
                assert(r[a] == es[a]);
                assert(r[b] == es[b]);
            }
        }
        assert forall|i: int| 0 <= i < r.len() implies (#[trigger] r[i]).0 == k || exists|j: int|
            0 <= j < es.len() && es[j].0 == r[i].0 by {
            if i > 0 {
                assert(r[i] == es[i]);
            }
        }
        assert forall|k2: Seq<char>| #[trigger] value_of(r, k2) == if k2 == k { Some(v) } else { value_of(es, k2) } by {
            if k2 != k {
                assert(value_of(r, k2) == value_of(d, k2));
                assert(value_of(es, k2) == value_of(d, k2));
            }
        }
    } else if lex_lt(k, es[0].0) {
        assert(r == seq![(k, v)] + es);
        assert(r.drop_first() =~= es);
        assert forall|a: int, b: int| 0 <= a < b < r.len() implies lex_lt(#[trigger] r[a].0, #[trigger] r[b].0) by {
            if a == 0 {
                assert(r[b] == es[b - 1]);
                if b - 1 > 0 {
                    assert(lex_lt(es[0].0, es[b - 1].0));
                    lemma_lex_transitive(k, es[0].0, es[b - 1].0);
                }
            } else {
                assert(r[a] == es[a - 1]);
                assert(r[b] == es[b - 1]);
            }
        }
        assert forall|i: int| 0 <= i < r.len() implies (#[trigger] r[i]).0 == k || exists|j: int|
            0 <= j < es.len() && es[j].0 == r[i].0 by {
            if i > 0 {
                assert(r[i] == es[i - 1]);
            }
        }
        assert forall|k2: Seq<char>| #[trigger] value_of(r, k2) == if k2 == k { Some(v) } else { value_of(es, k2) } by {
        }
    } else {
        let d = es.drop_first();
        assert forall|a: int, b: int| 0 <= a < b < d.len() implies lex_lt(#[trigger] d[a].0, #[trigger] d[b].0) by {
            assert(d[a] == es[a + 1]);
            assert(d[b] == es[b + 1]);
        }
        lemma_insert_sorted(d, k, v);
        let rr = insert_sorted(d, k, v);
        assert(r == seq![es[0]] + rr);
        assert(r.drop_first() =~= rr);
        lemma_lex_total(k, es[0].0);
        assert(lex_lt(es[0].0, k));
        assert forall|a: int, b: int| 0 <= a < b < r.len() implies lex_lt(#[trigger] r[a].0, #[trigger] r[b].0) by {
            if a == 0 {
                assert(r[b] == rr[b - 1]);
                if rr[b - 1].0 != k {
                    let j = choose|j: int| 0 <= j < d.len() && d[j].0 == rr[b - 1].0;
                    assert(d[j] == es[j + 1]);
                    assert(lex_lt(es[0].0, es[j + 1].0));
                }
            } else {
                assert(r[a] == rr[a - 1]);
                assert(r[b] == rr[b - 1]);
            }
        }
        assert forall|i: int| 0 <= i < r.len() implies (#[trigger] r[i]).0 == k || exists|j: int|
            0 <= j < es.len() && es[j].0 == r[i].0 by {
            if i > 0 {
                assert(r[i] == rr[i - 1]);
                if rr[i - 1].0 != k {
                    let j = choose|j: int| 0 <= j < d.len() && d[j].0 == rr[i - 1].0;
                    assert(d[j] == es[j + 1]);
                }
            }
        }
        assert forall|k2: Seq<char>| #[trigger] value_of(r, k2) == if k2 == k { Some(v) } else { value_of(es, k2) } by {
            if k2 != es[0].0 {
                assert(value_of(r, k2) == value_of(rr, k2));
            }
        }
    }
}

/// Inserting members one by one gives an ordered list holding, for each
/// key, the value of the last member with that key.
pub proof fn lemma_fold_sorted<V>(ms: Seq<(Seq<char>, V)>)
    ensures
        keys_sorted(fold_sorted(ms)),
        forall|k: Seq<char>| #[trigger] value_of(fold_sorted(ms), k) == last_value(ms, k),
    decreases ms.len(),
{
    if ms.len() > 0 {
        let d = ms.drop_last();
        lemma_fold_sorted(d);
        lemma_insert_sorted(fold_sorted(d), ms.last().0, ms.last().1);
        assert forall|k: Seq<char>| #[trigger] value_of(fold_sorted(ms), k) == last_value(ms, k) by {
            assert(value_of(fold_sorted(d), k) == last_value(d, k));
        }
    }
}

proof fn lemma_sorted_absent<V>(es: Seq<(Seq<char>, V)>, k: Seq<char>)
    requires
        keys_sorted(es),
        es.len() > 0,
        lex_lt(k, es[0].0) || k == es[0].0,
    ensures
        value_of(es.drop_first(), k) is None,
{
    let d = es.drop_first();
    lemma_value_of(d, k);
    if value_of(d, k) is Some {
        let v = value_of(d, k)->Some_0;
        let j = choose|j: int| 0 <= j < d.len() && d[j].0 == k && d[j].1 == v;
        assert(d[j] == es[j + 1]);
        assert(lex_lt(es[0].0, es[j + 1].0));
        if k == es[0].0 {
            lemma_lex_irreflexive(k);
        } else {
            lemma_lex_asymmetric(k, es[0].0);
            lemma_lex_transitive(k, es[0].0, k);
            lemma_lex_irreflexive(k);
        }
    }
}

/// Two ordered lists with the same values for every key are equal.
pub proof fn lemma_sorted_unique<V>(a: Seq<(Seq<char>, V)>, b: Seq<(Seq<char>, V)>)
    requires
        keys_sorted(a),
        keys_sorted(b),
        forall|k: Seq<char>| #[trigger] value_of(a, k) == value_of(b, k),
    ensures
        a == b,
    decreases a.len() + b.len(),
{
    if a.len() == 0 {
        if b.len() > 0 {
            assert(value_of(b, b[0].0) is Some);
            assert(value_of(a, b[0].0) is None);
        }
        assert(a =~= b);
    } else if b.len() == 0 {
        assert(value_of(a, a[0].0) is Some);
        assert(value_of(b, a[0].0) is None);
    } else {
        let ka = a[0].0;
        let kb = b[0].0;
        assert(value_of(a, ka) == Some(a[0].1));
        assert(value_of(b, kb) == Some(b[0].1));
        lemma_value_of(b, ka);
        lemma_value_of(a, kb);
        if ka != kb {
            let j = choose|j: int| 0 <= j < b.len() && b[j].0 == ka && b[j].1 == a[0].1;
            let i = choose|i: int| 0 <= i < a.len() && a[i].0 == kb && a[i].1 == b[0].1;
            assert(j > 0);
            assert(i > 0);
            assert(lex_lt(b[0].0, b[j].0));
            assert(lex_lt(a[0].0, a[i].0));
            lemma_lex_asymmetric(ka, kb);
        }
        assert(ka == kb);
        assert(a[0] == b[0]);
        let da = a.drop_first();
        let db = b.drop_first();
        assert forall|x: int, y: int| 0 <= x < y < da.len() implies lex_lt(#[trigger] da[x].0, #[trigger] da[y].0) by {
            assert(da[x] == a[x + 1]);
            assert(da[y] == a[y + 1]);
        }
        assert forall|x: int, y: int| 0 <= x < y < db.len() implies lex_lt(#[trigger] db[x].0, #[trigger] db[y].0) by {
            assert(db[x] == b[x + 1]);
            assert(db[y] == b[y + 1]);
        }
        assert forall|k: Seq<char>| #[trigger] value_of(da, k) == value_of(db, k) by {
            if k == ka {
                lemma_sorted_absent(a, k);
                lemma_sorted_absent(b, k);
            } else {
                assert(value_of(a, k) == value_of(da, k));
                assert(value_of(b, k) == value_of(db, k));
            }
        }
        lemma_sorted_unique(da, db);
        assert forall|i: int| 0 <= i < a.len() implies a[i] == b[i] by {
            if i > 0 {
                assert(a[i] == da[i - 1]);
                assert(b[i] == db[i - 1]);
            }
        }
        assert(a =~= b);
    }
}

// ---------------------------------------------------------------------------
// Object members
// ---------------------------------------------------------------------------

/// No two members share a key.
pub open spec fn distinct_member_keys(es: Seq<(Seq<char>, JsonView)>) -> bool {
    forall|i: int, j: int| 0 <= i < es.len() && 0 <= j < es.len() && i != j ==> es[i].0 != es[j].0
}

/// The two member lists hold the same members.
pub open spec fn same_members(a: Seq<(Seq<char>, JsonView)>, b: Seq<(Seq<char>, JsonView)>) -> bool {
    forall|m: (Seq<char>, JsonView)| a.contains(m) <==> b.contains(m)
}

proof fn lemma_same_last_values(es1: Seq<(Seq<char>, JsonView)>, es2: Seq<(Seq<char>, JsonView)>, k: Seq<char>)
    requires
        distinct_member_keys(es1),
        distinct_member_keys(es2),
        same_members(es1, es2),
    ensures
        last_value(normalize_members(es1), k) == last_value(normalize_members(es2), k),
{
    let c1 = normalize_members(es1);
    let c2 = normalize_members(es2);
    lemma_last_value(c1, k);
    lemma_last_value(c2, k);
    match (last_value(c1, k), last_value(c2, k)) {
        (Some(t1), Some(t2)) => {
            let i1 = choose|j: int| 0 <= j < c1.len() && c1[j].0 == k && c1[j].1 == t1;
            let i2 = choose|j: int| 0 <= j < c2.len() && c2[j].0 == k && c2[j].1 == t2;
            assert(c1[i1] == (es1[i1].0, normalize(es1[i1].1)));
            assert(c2[i2] == (es2[i2].0, normalize(es2[i2].1)));
            assert(es1.contains(es1[i1]));
            assert(es2.contains(es1[i1]));
            let p = choose|p: int| 0 <= p < es2.len() && es2[p] == es1[i1];
            assert(p == i2);
        },
        (Some(t1), None) => {
            let i1 = choose|j: int| 0 <= j < c1.len() && c1[j].0 == k && c1[j].1 == t1;
            assert(c1[i1] == (es1[i1].0, normalize(es1[i1].1)));
            assert(es1.contains(es1[i1]));
            let p = choose|p: int| 0 <= p < es2.len() && es2[p] == es1[i1];
            assert(c2[p] == (es2[p].0, normalize(es2[p].1)));
        },
        (None, Some(t2)) => {
            let i2 = choose|j: int| 0 <= j < c2.len() && c2[j].0 == k && c2[j].1 == t2;
            assert(c2[i2] == (es2[i2].0, normalize(es2[i2].1)));
            assert(es2.contains(es2[i2]));
            let p = choose|p: int| 0 <= p < es1.len() && es1[p] == es2[i2];
            assert(c1[p] == (es1[p].0, normalize(es1[p].1)));
        },
        (None, None) => {},
    }
}

/// The normal form of an object does not depend on the order of its
/// members (when no key occurs twice).
pub proof fn lemma_normalize_member_order(es1: Seq<(Seq<char>, JsonView)>, es2: Seq<(Seq<char>, JsonView)>)
    requires
        distinct_member_keys(es1),
        distinct_member_keys(es2),
        same_members(es1, es2),
    ensures
        normalize(JsonView::Object(es1)) == normalize(JsonView::Object(es2)),
{
    let f1 = fold_sorted(normalize_members(es1));
    let f2 = fold_sorted(normalize_members(es2));
    lemma_fold_sorted(normalize_members(es1));
    lemma_fold_sorted(normalize_members(es2));
    assert forall|k: Seq<char>| #[trigger] value_of(f1, k) == value_of(f2, k) by {
        lemma_same_last_values(es1, es2, k);
        assert(value_of(f1, k) == last_value(normalize_members(es1), k));
        assert(value_of(f2, k) == last_value(normalize_members(es2), k));
    }
    lemma_sorted_unique(f1, f2);
}

// ---------------------------------------------------------------------------
// Whether a value holds a float does not depend on where it sits
// ---------------------------------------------------------------------------

proof fn lemma_first_some<X>(s: Seq<Option<X>>, i: int)
    requires
        0 <= i,
    ensures
        first_some(s, i) is Some <==> exists|j: int| i <= j < s.len() && #[trigger] s[j] is Some,
    decreases s.len() - i,
{
    if i < s.len() {
        lemma_first_some(s, i + 1);
        if s[i] is None {
            assert forall|j: int| i <= j < s.len() && #[trigger] s[j] is Some implies i + 1 <= j by {}
        }
    }
}

/// Whether `float_path` finds a float does not depend on the path it
/// starts from.
pub proof fn lemma_float_found_anywhere(v: JsonView, p: Seq<char>, q: Seq<char>)
    ensures
        float_path(v, p) is Some == float_path(v, q) is Some,
    decreases v,
{
    match v {
        JsonView::Array(xs) => {
            let a = float_items(xs, p);
            let b = float_items(xs, q);
            lemma_first_some(a, 0);
            lemma_first_some(b, 0);
            assert forall|j: int| 0 <= j < xs.len() implies (#[trigger] a[j] is Some) == (b[j] is Some) by {
                assert(decreases_to!(v => xs[j]));
                lemma_float_found_anywhere(xs[j], item_path(p, j as nat), item_path(q, j as nat));
            }
            if first_some(a, 0) is Some {
                let j = choose|j: int| 0 <= j < a.len() && #[trigger] a[j] is Some;
                assert(b[j] is Some);
            }
            if first_some(b, 0) is Some {
                let j = choose|j: int| 0 <= j < b.len() && #[trigger] b[j] is Some;
                assert(a[j] is Some);
            }
        },
        JsonView::Object(es) => {
            let a = float_members(es, p);
            let b = float_members(es, q);
            lemma_first_some(a, 0);
            lemma_first_some(b, 0);
            assert forall|j: int| 0 <= j < es.len() implies (#[trigger] a[j] is Some) == (b[j] is Some) by {
                assert(decreases_to!(v => es[j].1));
                lemma_float_found_anywhere(es[j].1, member_path(p, es[j].0), member_path(q, es[j].0));
            }
            if first_some(a, 0) is Some {
                let j = choose|j: int| 0 <= j < a.len() && #[trigger] a[j] is Some;
                assert(b[j] is Some);
            }
            if first_some(b, 0) is Some {
                let j = choose|j: int| 0 <= j < b.len() && #[trigger] b[j] is Some;
                assert(a[j] is Some);
            }
        },
        _ => {},
    }
}

proof fn lemma_float_in_object(es: Seq<(Seq<char>, JsonView)>)
    ensures
        float_path(JsonView::Object(es), Seq::empty()) is Some <==> exists|j: int| 0 <= j < es.len()
            && #[trigger] float_path(es[j].1, Seq::empty()) is Some,
{
    let a = float_members(es, Seq::empty());
    lemma_first_some(a, 0);
    assert forall|j: int| 0 <= j < es.len() implies (#[trigger] a[j] is Some) == (float_path(
        es[j].1,
        Seq::empty(),
    ) is Some) by {
        lemma_float_found_anywhere(es[j].1, member_path(Seq::empty(), es[j].0), Seq::empty());
    }
    if first_some(a, 0) is Some {
        let j = choose|j: int| 0 <= j < a.len() && #[trigger] a[j] is Some;
        assert(float_path(es[j].1, Seq::empty()) is Some);
    }
    if exists|j: int| 0 <= j < es.len() && #[trigger] float_path(es[j].1, Seq::empty()) is Some {
        let j = choose|j: int| 0 <= j < es.len() && #[trigger] float_path(es[j].1, Seq::empty()) is Some;
        assert(a[j] is Some);
    }
}

/// The canonical hash of an object does not depend on the order of its
/// members (when no key occurs twice): reordering neither changes the
/// normal form that is hashed nor whether a float is refused.
pub proof fn lemma_canonical_hash_member_order(es1: Seq<(Seq<char>, JsonView)>, es2: Seq<(Seq<char>, JsonView)>)
    requires
        distinct_member_keys(es1),
        distinct_member_keys(es2),
        same_members(es1, es2),
    ensures
        canonical_hash_spec(JsonView::Object(es1)) == canonical_hash_spec(JsonView::Object(es2)),
{
    lemma_normalize_member_order(es1, es2);
    lemma_float_in_object(es1);
    lemma_float_in_object(es2);
    if exists|j: int| 0 <= j < es1.len() && #[trigger] float_path(es1[j].1, Seq::empty()) is Some {
        let j = choose|j: int| 0 <= j < es1.len() && #[trigger] float_path(es1[j].1, Seq::empty()) is Some;
        assert(es1.contains(es1[j]));
        let p = choose|p: int| 0 <= p < es2.len() && es2[p] == es1[j];
        assert(float_path(es2[p].1, Seq::empty()) is Some);
    }
    if exists|j: int| 0 <= j < es2.len() && #[trigger] float_path(es2[j].1, Seq::empty()) is Some {
        let j = choose|j: int| 0 <= j < es2.len() && #[trigger] float_path(es2[j].1, Seq::empty()) is Some;
        assert(es2.contains(es2[j]));
        let p = choose|p: int| 0 <= p < es1.len() && es1[p] == es2[j];
        assert(float_path(es1[p].1, Seq::empty()) is Some);
    }
}

/// The idempotence key of a request does not depend on the order of the
/// members of its argument object.
pub proof fn lemma_correlation_key_member_order(
    session: Seq<char>,
    action_kind: Seq<char>,
    es1: Seq<(Seq<char>, JsonView)>,
    es2: Seq<(Seq<char>, JsonView)>,
)
    requires
        distinct_member_keys(es1),
        distinct_member_keys(es2),
        same_members(es1, es2),
    ensures
        correlation_key_spec(session, action_kind, JsonView::Object(es1)) == correlation_key_spec(
            session,
            action_kind,
            JsonView::Object(es2),
        ),
{
    lemma_canonical_hash_member_order(es1, es2);
}

// ---------------------------------------------------------------------------
// Member order at every depth
// ---------------------------------------------------------------------------

/// Two JSON values are equal up to the order of object members, at every
/// depth, and no object of either holds a key twice.
pub open spec fn same_json(a: JsonView, b: JsonView) -> bool
    decreases a,
{
    match a {
        JsonView::Array(xs) => match b {
            JsonView::Array(ys) => xs.len() == ys.len() && forall|i: int|
                #![trigger xs[i]] 0 <= i < xs.len() ==> same_json(xs[i], ys[i]),
            _ => false,
        },
        JsonView::Object(es) => match b {
            JsonView::Object(fs) => {
                &&& distinct_member_keys(es)
                &&& distinct_member_keys(fs)
                &&& forall|i: int| #![trigger es[i]] 0 <= i < es.len() ==> exists|j: int|
                    #![trigger fs[j]] 0 <= j < fs.len() && fs[j].0 == es[i].0 && same_json(es[i].1, fs[j].1)
                &&& forall|j: int| #![trigger fs[j]] 0 <= j < fs.len() ==> exists|i: int| 0 <= i < es.len() && #[trigger] es[i].0 == fs[j].0
            },
            _ => false,
        },
        _ => a == b,
    }
}

/// With distinct keys, the last value of a key is the value of its one member.
proof fn lemma_last_value_distinct(es: Seq<(Seq<char>, JsonView)>, i: int)
    requires
        distinct_member_keys(es),
        0 <= i < es.len(),
    ensures
        last_value(normalize_members(es), es[i].0) == Some(normalize(es[i].1)),
{
    let c = normalize_members(es);
    lemma_last_value(c, es[i].0);
    assert(c[i] == (es[i].0, normalize(es[i].1)));
    let t = last_value(c, es[i].0);
    assert(t is Some);
    let j = choose|j: int| 0 <= j < c.len() && c[j].0 == es[i].0 && c[j].1 == t->Some_0;
    assert(c[j] == (es[j].0, normalize(es[j].1)));
    assert(j == i);
}

/// Values equal up to member order at every depth have the same normal form.
pub proof fn lemma_normalize_same_json(a: JsonView, b: JsonView)
    requires
        same_json(a, b),
    ensures
        normalize(a) == normalize(b),
    decreases a,
{
    match a {
        JsonView::Array(xs) => {
            assert(b is Array);
            let ys = b->Array_0;
            assert(xs.len() == ys.len());
            assert forall|i: int| 0 <= i < xs.len() implies normalize(xs[i]) == normalize(ys[i]) by {
                assert(same_json(xs[i], ys[i]));
                lemma_normalize_same_json(xs[i], ys[i]);
            }
            assert(normalize_items(xs) =~= normalize_items(ys));
        },
        JsonView::Object(es) => {
            let fs = b->Object_0;
            let c1 = normalize_members(es);
            let c2 = normalize_members(fs);
            assert forall|k: Seq<char>| #[trigger] last_value(c1, k) == last_value(c2, k) by {
                lemma_last_value(c1, k);
                lemma_last_value(c2, k);
                if exists|i: int| 0 <= i < es.len() && es[i].0 == k {
                    let i = choose|i: int| 0 <= i < es.len() && es[i].0 == k;
                    let j = choose|j: int| #![trigger fs[j]] 0 <= j < fs.len() && fs[j].0 == es[i].0 && same_json(es[i].1, fs[j].1);
                    lemma_normalize_same_json(es[i].1, fs[j].1);
                    lemma_last_value_distinct(es, i);
                    lemma_last_value_distinct(fs, j);
                } else if exists|j: int| 0 <= j < fs.len() && fs[j].0 == k {
                    let j = choose|j: int| 0 <= j < fs.len() && fs[j].0 == k;
                    let i = choose|i: int| 0 <= i < es.len() && #[trigger] es[i].0 == fs[j].0;
                    assert(false);
                } else {
                    if last_value(c1, k) is Some {
                        let i = choose|i: int| 0 <= i < c1.len() && c1[i].0 == k && c1[i].1 == last_value(c1, k)->Some_0;
                        assert(c1[i].0 == es[i].0);
                    }
                    if last_value(c2, k) is Some {
                        let j = choose|j: int| 0 <= j < c2.len() && c2[j].0 == k && c2[j].1 == last_value(c2, k)->Some_0;
                        assert(c2[j].0 == fs[j].0);
                    }
                }
            }
            let f1 = fold_sorted(c1);
            let f2 = fold_sorted(c2);
            lemma_fold_sorted(c1);
            lemma_fold_sorted(c2);
            assert forall|k: Seq<char>| #[trigger] value_of(f1, k) == value_of(f2, k) by {
                assert(last_value(c1, k) == last_value(c2, k));
            }
            lemma_sorted_unique(f1, f2);
        },
        _ => {},
    }
}

/// Values equal up to member order at every depth hold a float alike.
pub proof fn lemma_float_same_json(a: JsonView, b: JsonView, p: Seq<char>, q: Seq<char>)
    requires
        same_json(a, b),
    ensures
        float_path(a, p) is Some == float_path(b, q) is Some,
    decreases a,
{
    match a {
        JsonView::Array(xs) => {
            let ys = b->Array_0;
            let fa = float_items(xs, p);
            let fb = float_items(ys, q);
            lemma_first_some(fa, 0);
            lemma_first_some(fb, 0);
            assert forall|j: int| 0 <= j < xs.len() implies (#[trigger] fa[j] is Some) == (fb[j] is Some) by {
                assert(same_json(xs[j], ys[j]));
                lemma_float_same_json(xs[j], ys[j], item_path(p, j as nat), item_path(q, j as nat));
            }
            if first_some(fa, 0) is Some {
                let j = choose|j: int| 0 <= j < fa.len() && #[trigger] fa[j] is Some;
                assert(fb[j] is Some);
            }
            if first_some(fb, 0) is Some {
                let j = choose|j: int| 0 <= j < fb.len() && #[trigger] fb[j] is Some;
                assert(fa[j] is Some);
            }
        },
        JsonView::Object(es) => {
            let fs = b->Object_0;
            let fa = float_members(es, p);
            let fb = float_members(fs, q);
            lemma_first_some(fa, 0);
            lemma_first_some(fb, 0);
            if first_some(fa, 0) is Some {
                let i = choose|i: int| 0 <= i < fa.len() && #[trigger] fa[i] is Some;
                let j = choose|j: int| #![trigger fs[j]] 0 <= j < fs.len() && fs[j].0 == es[i].0 && same_json(es[i].1, fs[j].1);
                lemma_float_same_json(es[i].1, fs[j].1, member_path(p, es[i].0), member_path(q, fs[j].0));
                assert(fb[j] is Some);
            }
            if first_some(fb, 0) is Some {
                let j = choose|j: int| 0 <= j < fb.len() && #[trigger] fb[j] is Some;
                let i = choose|i: int| 0 <= i < es.len() && #[trigger] es[i].0 == fs[j].0;
                let j2 = choose|j2: int| #![trigger fs[j2]] 0 <= j2 < fs.len() && fs[j2].0 == es[i].0 && same_json(es[i].1, fs[j2].1);
                assert(j2 == j);
                lemma_float_same_json(es[i].1, fs[j].1, member_path(p, es[i].0), member_path(q, fs[j].0));
                assert(fa[i] is Some);
            }
        },
        _ => {},
    }
}

/// The canonical hash of JSON values equal up to member order at every
/// depth is the same (refused alike when either holds a float).
pub proof fn lemma_canonical_hash_same_json(a: JsonView, b: JsonView)
    requires
        same_json(a, b),
    ensures
        canonical_hash_spec(a) == canonical_hash_spec(b),
{
    lemma_normalize_same_json(a, b);
    lemma_float_same_json(a, b, Seq::empty(), Seq::empty());
}

/// The idempotence key of a request is the same for arguments equal up to
/// member order at every depth.
pub proof fn lemma_correlation_key_same_json(session: Seq<char>, action_kind: Seq<char>, a: JsonView, b: JsonView)
    requires
        same_json(a, b),
    ensures
        correlation_key_spec(session, action_kind, a) == correlation_key_spec(session, action_kind, b),
{
    lemma_canonical_hash_same_json(a, b);
}

} // verus!
