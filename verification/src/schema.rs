//! JSON values as the library holds them, and the compaction of tool
//! argument schemas: keywords that cost tokens without helping the model
//! are stripped, and single-object `allOf` wrappers are collapsed.

use vstd::prelude::*;
use crate::text::{owned, str_eq};

verus! {

/// What a JSON value is, as spec code reads it.
pub enum JsonView {
    Null,
    Bool(bool),
    Number(Seq<char>),
    Str(Seq<char>),
    Array(Seq<JsonView>),
    Object(Seq<(Seq<char>, JsonView)>),
}

/// A JSON value; an object is its entries in order, with distinct keys
/// when it comes from a parsed document.
#[derive(Debug, PartialEq)]
pub enum Json {
    Null,
    Bool(bool),
    /// A number, as its JSON text.
    Number(String),
    Str(String),
    Array(Vec<Json>),
    Object(Vec<(String, Json)>),
}

/// What a JSON value is.
pub open spec fn jview(j: Json) -> JsonView
    decreases j,
{
    match j {
        Json::Null => JsonView::Null,
        Json::Bool(b) => JsonView::Bool(b),
        Json::Number(n) => JsonView::Number(n@),
        Json::Str(s) => JsonView::Str(s@),
        Json::Array(v) => {
            proof {
                assert forall|i: int| 0 <= i < v@.len() implies decreases_to!(j => v@[i]) by {
                    assert(decreases_to!(j => v));
                    assert(decreases_to!(v => v@));
                    assert(decreases_to!(v@ => v@[i]));
                }
            }
            JsonView::Array(Seq::new(v@.len(), |i: int| if 0 <= i < v@.len() { jview(v@[i]) } else { JsonView::Null }))
        },
        Json::Object(es) => {
            proof {
                assert forall|i: int| 0 <= i < es@.len() implies decreases_to!(j => es@[i].1) by {
                    assert(decreases_to!(j => es));
                    assert(decreases_to!(es => es@));
                    assert(decreases_to!(es@ => es@[i]));
                    assert(decreases_to!(es@[i] => es@[i].1));
                }
            }
            JsonView::Object(Seq::new(es@.len(), |i: int| if 0 <= i < es@.len() { (es@[i].0@, jview(es@[i].1)) } else { (Seq::empty(), JsonView::Null) }))
        },
    }
}

/// What the values of an array are.
pub open spec fn values_view(v: Seq<Json>) -> Seq<JsonView> {
    Seq::new(v.len(), |i: int| if 0 <= i < v.len() { jview(v[i]) } else { JsonView::Null })
}

/// What the entries of an object are.
pub open spec fn entries_view(es: Seq<(String, Json)>) -> Seq<(Seq<char>, JsonView)> {
    Seq::new(es.len(), |i: int| if 0 <= i < es.len() { (es[i].0@, jview(es[i].1)) } else { (Seq::empty(), JsonView::Null) })
}

/// Whether some entry of an object is keyed `k`.
pub open spec fn has_key(es: Seq<(Seq<char>, JsonView)>, k: Seq<char>) -> bool {
    exists|i: int| 0 <= i < es.len() && (#[trigger] es[i]).0 == k
}

/// The entries of an object without those keyed `k`.
pub open spec fn without_key(es: Seq<(Seq<char>, JsonView)>, k: Seq<char>) -> Seq<(Seq<char>, JsonView)>
    decreases es.len(),
{
    if es.len() == 0 {
        es
    } else if es.last().0 == k {
        without_key(es.drop_last(), k)
    } else {
        without_key(es.drop_last(), k).push(es.last())
    }
}

/// The value of the first entry keyed `k`.
pub open spec fn lookup(es: Seq<(Seq<char>, JsonView)>, k: Seq<char>) -> Option<JsonView>
    decreases es.len(),
{
    if es.len() == 0 {
        None
    } else {
        match lookup(es.drop_last(), k) {
            Some(v) => Some(v),
            None => if es.last().0 == k { Some(es.last().1) } else { None },
        }
    }
}

/// `es`, then each entry of `inner` whose key is not there yet, in order.
pub open spec fn merge_missing(es: Seq<(Seq<char>, JsonView)>, inner: Seq<(Seq<char>, JsonView)>) -> Seq<(Seq<char>, JsonView)>
    decreases inner.len(),
{
    if inner.len() == 0 {
        es
    } else {
        let m = merge_missing(es, inner.drop_last());
        if has_key(m, inner.last().0) { m } else { m.push(inner.last()) }
    }
}

/// The entries of the one object an array holds, when it holds exactly
/// one value and that value is an object.
pub open spec fn single_object(v: JsonView) -> Option<Seq<(Seq<char>, JsonView)>> {
    match v {
        JsonView::Array(items) => if items.len() == 1 {
            match items[0] {
                JsonView::Object(inner) => Some(inner),
                _ => None,
            }
        } else {
            None
        },
        _ => None,
    }
}

/// An object's entries without `format`, `title` and `$schema`, and
/// without `description` when it is the empty string.
pub open spec fn stripped(es: Seq<(Seq<char>, JsonView)>) -> Seq<(Seq<char>, JsonView)> {
    let a = without_key(without_key(without_key(es, "format"@), "title"@), "$schema"@);
    if lookup(a, "description"@) == Some(JsonView::Str(Seq::empty())) { without_key(a, "description"@) } else { a }
}

/// An object's entries stripped, then with a one-object `allOf` collapsed
/// into them: the `allOf` entry goes and the inner object's entries join
/// where their keys are not taken.
pub open spec fn tidied(es: Seq<(Seq<char>, JsonView)>) -> Seq<(Seq<char>, JsonView)> {
    let b = stripped(es);
    match lookup(b, "allOf"@) {
        Some(v) => match single_object(v) {
            Some(inner) => merge_missing(without_key(b, "allOf"@), inner),
            None => b,
        },
        None => b,
    }
}

/// Every entry of `without_key(es, k)` is an entry of `es`.
proof fn lemma_without_from(es: Seq<(Seq<char>, JsonView)>, k: Seq<char>)
    ensures
        forall|i: int| 0 <= i < without_key(es, k).len() ==> exists|m: int| 0 <= m < es.len() && #[trigger] without_key(es, k)[i] == es[m],
    decreases es.len(),
{
    if es.len() > 0 {
        lemma_without_from(es.drop_last(), k);
        let rest = without_key(es.drop_last(), k);
        assert forall|i: int| 0 <= i < without_key(es, k).len() implies exists|m: int| 0 <= m < es.len() && #[trigger] without_key(es, k)[i] == es[m] by {
            if i < rest.len() {
                let m = choose|m: int| 0 <= m < es.drop_last().len() && rest[i] == es.drop_last()[m];
                assert(es.drop_last()[m] == es[m]);
            } else {
                assert(without_key(es, k)[i] == es[es.len() - 1]);
            }
        }
    }
}

proof fn lemma_lookup_from(es: Seq<(Seq<char>, JsonView)>, k: Seq<char>)
    ensures
        lookup(es, k) matches Some(v) ==> exists|m: int| 0 <= m < es.len() && (#[trigger] es[m]).1 == v,
    decreases es.len(),
{
    if es.len() > 0 {
        lemma_lookup_from(es.drop_last(), k);
        if let Some(v) = lookup(es.drop_last(), k) {
            let m = choose|m: int| 0 <= m < es.drop_last().len() && (#[trigger] es.drop_last()[m]).1 == v;
            assert(es[m] == es.drop_last()[m]);
        } else if es.last().0 == k {
            assert(es[es.len() - 1].1 == es.last().1);
        }
    }
}

/// Whether `x` is one of the entries `es`.
pub open spec fn entry_of(x: (Seq<char>, JsonView), es: Seq<(Seq<char>, JsonView)>) -> bool {
    exists|m: int| 0 <= m < es.len() && es[m] == x
}

proof fn lemma_merge_from(es: Seq<(Seq<char>, JsonView)>, inner: Seq<(Seq<char>, JsonView)>)
    ensures
        forall|i: int| 0 <= i < merge_missing(es, inner).len() ==>
            entry_of(#[trigger] merge_missing(es, inner)[i], es) || entry_of(merge_missing(es, inner)[i], inner),
    decreases inner.len(),
{
    if inner.len() > 0 {
        lemma_merge_from(es, inner.drop_last());
        let m0 = merge_missing(es, inner.drop_last());
        assert forall|i: int| 0 <= i < merge_missing(es, inner).len() implies
            entry_of(#[trigger] merge_missing(es, inner)[i], es) || entry_of(merge_missing(es, inner)[i], inner) by {
            let x = merge_missing(es, inner)[i];
            if i < m0.len() {
                assert(x == m0[i]);
                if entry_of(x, inner.drop_last()) {
                    let n = choose|n: int| 0 <= n < inner.drop_last().len() && inner.drop_last()[n] == x;
                    assert(inner[n] == x);
                }
            } else {
                assert(inner[inner.len() - 1] == x);
            }
        }
    } else {
        assert forall|i: int| 0 <= i < merge_missing(es, inner).len() implies
            entry_of(#[trigger] merge_missing(es, inner)[i], es) || entry_of(merge_missing(es, inner)[i], inner) by {
            assert(es[i] == merge_missing(es, inner)[i]);
        }
    }
}

/// Every value `tidied` keeps or merges lies inside the object it came
/// from (what makes `compact` terminate).
pub proof fn lemma_tidied_smaller(j: JsonView)
    requires
        j is Object,
    ensures
        forall|i: int| 0 <= i < tidied(j->Object_0).len() ==> decreases_to!(j => (#[trigger] tidied(j->Object_0)[i]).1),
{
    let es = j->Object_0;
    let a1 = without_key(es, "format"@);
    let a2 = without_key(a1, "title"@);
    let a = without_key(a2, "$schema"@);
    lemma_without_from(es, "format"@);
    lemma_without_from(a1, "title"@);
    lemma_without_from(a2, "$schema"@);
    lemma_without_from(a, "description"@);
    let b = stripped(es);
    // every entry of b is an entry of es
    assert forall|i: int| 0 <= i < b.len() implies exists|m: int| 0 <= m < es.len() && #[trigger] b[i] == es[m] by {
        let x = if lookup(a, "description"@) == Some(JsonView::Str(Seq::empty())) {
            let p = choose|p: int| 0 <= p < a.len() && without_key(a, "description"@)[i] == a[p];
            p
        } else {
            i
        };
        let y = choose|q: int| 0 <= q < a2.len() && a[x] == a2[q];
        let z = choose|q: int| 0 <= q < a1.len() && a2[y] == a1[q];
        let w = choose|q: int| 0 <= q < es.len() && a1[z] == es[q];
    }
    assert forall|m: int| 0 <= m < es.len() implies decreases_to!(j => (#[trigger] es[m]).1) by {
        assert(decreases_to!(j => es));
        assert(decreases_to!(es => es[m]));
        assert(decreases_to!(es[m] => es[m].1));
    }
    lemma_lookup_from(b, "allOf"@);
    let t = tidied(es);
    match lookup(b, "allOf"@) {
        Some(v) => match single_object(v) {
            Some(inner) => {
                let c = without_key(b, "allOf"@);
                lemma_without_from(b, "allOf"@);
                lemma_merge_from(c, inner);
                let mv = choose|m: int| 0 <= m < b.len() && (#[trigger] b[m]).1 == v;
                let me = choose|q: int| 0 <= q < es.len() && b[mv] == es[q];
                assert(decreases_to!(j => v));
                let items = v->Array_0;
                assert forall|n: int| 0 <= n < inner.len() implies decreases_to!(j => (#[trigger] inner[n]).1) by {
                    assert(decreases_to!(v => items));
                    assert(decreases_to!(items => items[0]));
                    assert(decreases_to!(items[0] => inner));
                    assert(decreases_to!(inner => inner[n]));
                    assert(decreases_to!(inner[n] => inner[n].1));
                }
                assert forall|i: int| 0 <= i < t.len() implies decreases_to!(j => (#[trigger] t[i]).1) by {
                    if entry_of(t[i], c) {
                        let m = choose|m: int| 0 <= m < c.len() && c[m] == t[i];
                        let q = choose|q: int| 0 <= q < b.len() && c[m] == b[q];
                        let r = choose|r: int| 0 <= r < es.len() && b[q] == es[r];
                    } else {
                        let n = choose|n: int| 0 <= n < inner.len() && inner[n] == t[i];
                    }
                }
            },
            None => {
                assert forall|i: int| 0 <= i < t.len() implies decreases_to!(j => (#[trigger] t[i]).1) by {
                    let r = choose|r: int| 0 <= r < es.len() && b[i] == es[r];
                }
            },
        },
        None => {
            assert forall|i: int| 0 <= i < t.len() implies decreases_to!(j => (#[trigger] t[i]).1) by {
                let r = choose|r: int| 0 <= r < es.len() && b[i] == es[r];
            }
        },
    }
}

/// A schema with every object tidied and every value compacted, at every
/// depth.
pub open spec fn compact(j: JsonView) -> JsonView
    decreases j,
{
    match j {
        JsonView::Array(items) => {
            proof {
                assert forall|i: int| 0 <= i < items.len() implies decreases_to!(j => items[i]) by {
                    assert(decreases_to!(j => items));
                    assert(decreases_to!(items => items[i]));
                }
            }
            JsonView::Array(Seq::new(items.len(), |i: int| if 0 <= i < items.len() { compact(items[i]) } else { JsonView::Null }))
        },
        JsonView::Object(es) => {
            proof {
                lemma_tidied_smaller(j);
            }
            let t = tidied(es);
            JsonView::Object(Seq::new(t.len(), |i: int| if 0 <= i < t.len() { (t[i].0, compact(t[i].1)) } else { (Seq::empty(), JsonView::Null) }))
        },
        _ => j,
    }
}

proof fn lemma_jview_array(v: Vec<Json>)
    ensures
        jview(Json::Array(v)) == JsonView::Array(values_view(v@)),
{
    assert(jview(Json::Array(v))->Array_0 =~= values_view(v@));
}

proof fn lemma_jview_object(es: Vec<(String, Json)>)
    ensures
        jview(Json::Object(es)) == JsonView::Object(entries_view(es@)),
{
    assert(jview(Json::Object(es))->Object_0 =~= entries_view(es@));
}

proof fn lemma_entries_view_push(es: Seq<(String, Json)>, e: (String, Json))
    ensures
        entries_view(es.push(e)) == entries_view(es).push((e.0@, jview(e.1))),
{
    assert(entries_view(es.push(e)) =~= entries_view(es).push((e.0@, jview(e.1))));
}

fn key_is(e: &(String, Json), k: &str) -> (r: bool)
    ensures
        r == (e.0@ == k@),
{
    str_eq(e.0.as_str(), k)
}

/// `es` without the entries keyed `k`.
fn drop_key(es: Vec<(String, Json)>, k: &str) -> (r: Vec<(String, Json)>)
    ensures
        entries_view(r@) == without_key(entries_view(es@), k@),
{
    let ghost orig = es@;
    let mut rest = es;
    let mut out: Vec<(String, Json)> = Vec::new();
    let total = rest.len();
    let mut i: usize = 0;
    while rest.len() > 0
        invariant
            i + rest@.len() == orig.len(),
            orig.len() == total,
            rest@ == orig.skip(i as int),
            entries_view(out@) == without_key(entries_view(orig.take(i as int)), k@),
        decreases rest@.len(),
    {
        let e = rest.remove(0);
        proof {
            assert(e == orig[i as int]);
            assert(entries_view(orig.take(i + 1)).drop_last() =~= entries_view(orig.take(i as int)));
            assert(entries_view(orig.take(i + 1)).last() == (e.0@, jview(e.1)));
        }
        if !key_is(&e, k) {
            proof {
                lemma_entries_view_push(out@, e);
            }
            out.push(e);
        }
        i += 1;
        proof {
            assert(rest@ =~= orig.skip(i as int));
        }
    }
    assert(orig.take(i as int) =~= orig);
    out
}

proof fn lemma_lookup_extends(es: Seq<(Seq<char>, JsonView)>, k: Seq<char>, n: int)
    requires
        0 <= n <= es.len(),
        lookup(es.take(n), k) is Some,
    ensures
        lookup(es, k) == lookup(es.take(n), k),
    decreases es.len() - n,
{
    if n < es.len() {
        assert(es.take(n + 1).drop_last() =~= es.take(n));
        lemma_lookup_extends(es, k, n + 1);
    } else {
        assert(es.take(n) =~= es);
    }
}

/// The position of the first entry keyed `k`.
fn find_key(es: &Vec<(String, Json)>, k: &str) -> (r: Option<usize>)
    ensures
        r matches Some(i) ==> i < es@.len() && es@[i as int].0@ == k@
            && lookup(entries_view(es@), k@) == Some(jview(es@[i as int].1)),
        r is None ==> lookup(entries_view(es@), k@) is None,
{
    let ghost ev = entries_view(es@);
    let mut i: usize = 0;
    while i < es.len()
        invariant
            i <= es.len(),
            ev == entries_view(es@),
            lookup(ev.take(i as int), k@) is None,
        decreases es.len() - i,
    {
        proof {
            assert(ev.take(i + 1).drop_last() =~= ev.take(i as int));
            assert(ev.take(i + 1).last() == ev[i as int]);
        }
        if key_is(&es[i], k) {
            proof {
                lemma_lookup_extends(ev, k@, i + 1);
            }
            return Some(i);
        }
        i += 1;
    }
    assert(ev.take(es.len() as int) =~= ev);
    None
}

/// Whether some entry is keyed `k`.
fn contains_key(es: &Vec<(String, Json)>, k: &str) -> (r: bool)
    ensures
        r == has_key(entries_view(es@), k@),
{
    let ghost ev = entries_view(es@);
    let mut i: usize = 0;
    while i < es.len()
        invariant
            i <= es.len(),
            ev == entries_view(es@),
            forall|m: int| 0 <= m < i ==> (#[trigger] ev[m]).0 != k@,
        decreases es.len() - i,
    {
        if key_is(&es[i], k) {
            assert(ev[i as int].0 == k@);
            return true;
        }
        i += 1;
    }
    false
}

/// `es`, then each entry of `inner` whose key is not there yet.
fn merge_entries(es: Vec<(String, Json)>, inner: Vec<(String, Json)>) -> (r: Vec<(String, Json)>)
    ensures
        entries_view(r@) == merge_missing(entries_view(es@), entries_view(inner@)),
{
    let ghost base = entries_view(es@);
    let ghost orig = inner@;
    let total = inner.len();
    let mut rest = inner;
    let mut out = es;
    let mut i: usize = 0;
    while rest.len() > 0
        invariant
            i + rest@.len() == orig.len(),
            orig.len() == total,
            rest@ == orig.skip(i as int),
            entries_view(out@) == merge_missing(base, entries_view(orig.take(i as int))),
        decreases rest@.len(),
    {
        let e = rest.remove(0);
        proof {
            assert(e == orig[i as int]);
            assert(entries_view(orig.take(i + 1)).drop_last() =~= entries_view(orig.take(i as int)));
            assert(entries_view(orig.take(i + 1)).last() == (e.0@, jview(e.1)));
        }
        if !contains_key(&out, e.0.as_str()) {
            proof {
                lemma_entries_view_push(out@, e);
            }
            out.push(e);
        }
        i += 1;
        proof {
            assert(rest@ =~= orig.skip(i as int));
        }
    }
    assert(orig.take(i as int) =~= orig);
    out
}

proof fn lemma_without_remove(es: Seq<(Seq<char>, JsonView)>, k: Seq<char>, i: int)
    requires
        0 <= i < es.len(),
        es[i].0 == k,
    ensures
        without_key(es.remove(i), k) == without_key(es, k),
    decreases es.len(),
{
    if i == es.len() - 1 {
        assert(es.remove(i) =~= es.drop_last());
    } else {
        lemma_without_remove(es.drop_last(), k, i);
        assert(es.remove(i).drop_last() =~= es.drop_last().remove(i));
        assert(es.remove(i).last() == es.last());
    }
}

proof fn lemma_entries_view_remove(es: Seq<(String, Json)>, i: int)
    requires
        0 <= i < es.len(),
    ensures
        entries_view(es.remove(i)) == entries_view(es).remove(i),
{
    assert(entries_view(es.remove(i)) =~= entries_view(es).remove(i));
}

fn is_empty_str(v: &Json) -> (r: bool)
    ensures
        r == (jview(*v) == JsonView::Str(Seq::empty())),
{
    match v {
        Json::Str(s) => {
            let e = s.as_str().is_empty();
            proof {
                if e {
                    assert(s@ =~= Seq::<char>::empty());
                }
            }
            e
        },
        _ => false,
    }
}

fn is_single_object(v: &Json) -> (r: bool)
    ensures
        r == (single_object(jview(*v)) is Some),
{
    match v {
        Json::Array(items) => {
            if items.len() == 1 {
                proof {
                    lemma_jview_array(*items);
                    assert(values_view(items@)[0] == jview(items@[0]));
                }
                match &items[0] {
                    Json::Object(_) => true,
                    _ => false,
                }
            } else {
                false
            }
        },
        _ => false,
    }
}

/// Drop schema noise from an object's entries and collapse a one-object
/// `allOf` into it.
fn tidy(es: Vec<(String, Json)>) -> (r: Vec<(String, Json)>)
    ensures
        entries_view(r@) == tidied(entries_view(es@)),
{
    let a = drop_key(drop_key(drop_key(es, "format"), "title"), "$schema");
    let a = match find_key(&a, "description") {
        Some(i) => if is_empty_str(&a[i].1) { drop_key(a, "description") } else { a },
        None => a,
    };
    match find_key(&a, "allOf") {
        Some(i) => {
            if is_single_object(&a[i].1) {
                let ghost a_orig = a@;
                let mut b = a;
                let (_, v) = b.remove(i);
                proof {
                    lemma_entries_view_remove(a_orig, i as int);
                    lemma_without_remove(entries_view(a_orig), "allOf"@, i as int);
                    assert(entries_view(a_orig)[i as int].1 == jview(v));
                }
                let c = drop_key(b, "allOf");
                let ghost vv = v;
                proof {
                    assert(single_object(jview(vv)) is Some);
                    if vv is Array {
                        lemma_jview_array(vv->Array_0);
                        assert(values_view(vv->Array_0@)[0] == jview(vv->Array_0@[0]));
                        assert(vv->Array_0@[0] is Object);
                    }
                }
                let inner = match v {
                    Json::Array(mut items) => match items.pop() {
                        Some(Json::Object(inner)) => {
                            proof {
                                let old_items = vv->Array_0@;
                                assert(old_items.len() == 1);
                                assert(old_items[0] == Json::Object(inner));
                                lemma_jview_array(vv->Array_0);
                                assert(values_view(old_items)[0] == jview(old_items[0]));
                                lemma_jview_object(inner);
                            }
                            inner
                        },
                        _ => {
                            proof {
                                assert(false);
                            }
                            Vec::new()
                        },
                    },
                    _ => {
                        proof {
                            assert(false);
                        }
                        Vec::new()
                    },
                };
                merge_entries(c, inner)
            } else {
                a
            }
        },
        None => a,
    }
}

/// `j` with schema noise stripped from every object, recursively: the
/// keys `format`, `title` and `$schema` and an empty `description` are
/// dropped first, then a one-object `allOf` is collapsed into its object
/// (keys already there win), then every value is compacted in turn.
pub fn compact_json(j: Json) -> (r: Json)
    ensures
        jview(r) == compact(jview(j)),
    decreases jview(j),
{
    let ghost jv = jview(j);
    match j {
        Json::Array(items) => {
            let ghost orig = items@;
            proof {
                lemma_jview_array(items);
            }
            let total = items.len();
            let mut rest = items;
            let mut out: Vec<Json> = Vec::new();
            let mut i: usize = 0;
            while rest.len() > 0
                invariant
                    i + rest@.len() == orig.len(),
                    orig.len() == total,
                    rest@ == orig.skip(i as int),
                    jv == JsonView::Array(values_view(orig)),
                    jv == jview(j),
                    values_view(out@) =~= Seq::new(i as nat, |m: int| compact(values_view(orig)[m])),
                decreases rest@.len(),
            {
                let x = rest.remove(0);
                proof {
                    assert(x == orig[i as int]);
                    assert(values_view(orig)[i as int] == jview(x));
                    assert(decreases_to!(jv => jv->Array_0));
                    assert(decreases_to!(jv->Array_0 => jv->Array_0[i as int]));
                    assert(jv->Array_0[i as int] == jview(x));
                }
                let y = compact_json(x);
                proof {
                    assert(values_view(out@.push(y)) =~= values_view(out@).push(jview(y)));
                }
                out.push(y);
                i += 1;
                proof {
                    assert(rest@ =~= orig.skip(i as int));
                }
            }
            proof {
                lemma_jview_array(out);
                assert(compact(jv)->Array_0 =~= values_view(out@));
            }
            Json::Array(out)
        },
        Json::Object(es) => {
            proof {
                lemma_jview_object(es);
                lemma_tidied_smaller(jv);
            }
            let t = tidy(es);
            let ghost orig = t@;
            let ghost tv = entries_view(orig);
            let total = t.len();
            let mut rest = t;
            let mut out: Vec<(String, Json)> = Vec::new();
            let mut i: usize = 0;
            while rest.len() > 0
                invariant
                    i + rest@.len() == orig.len(),
                    orig.len() == total,
                    rest@ == orig.skip(i as int),
                    jv is Object,
                    jv == jview(j),
                    tv == entries_view(orig),
                    tv == tidied(jv->Object_0),
                    forall|m: int| 0 <= m < tv.len() ==> decreases_to!(jv => (#[trigger] tv[m]).1),
                    entries_view(out@) =~= Seq::new(i as nat, |m: int| (tv[m].0, compact(tv[m].1))),
                decreases rest@.len(),
            {
                let (k, x) = rest.remove(0);
                proof {
                    assert((k, x) == orig[i as int]);
                    assert(tv[i as int] == (k@, jview(x)));
                    assert(decreases_to!(jv => tv[i as int].1));
                }
                let y = compact_json(x);
                proof {
                    lemma_entries_view_push(out@, (k, y));
                }
                out.push((k, y));
                i += 1;
                proof {
                    assert(rest@ =~= orig.skip(i as int));
                }
            }
            proof {
                lemma_jview_object(out);
                assert(compact(jv)->Object_0 =~= entries_view(out@));
            }
            Json::Object(out)
        },
        other => other,
    }
}

/// A string value.
pub fn json_str(s: &str) -> (r: Json)
    ensures
        jview(r) == JsonView::Str(s@),
{
    Json::Str(owned(s))
}

/// An array of `items`.
pub fn json_array(items: Vec<Json>) -> (r: Json)
    ensures
        jview(r) == JsonView::Array(values_view(items@)),
{
    proof {
        lemma_jview_array(items);
    }
    Json::Array(items)
}

/// An object with the entries `k1: v1, k2: v2`.
pub fn json_object2(k1: &str, v1: Json, k2: &str, v2: Json) -> (r: Json)
    ensures
        jview(r) == JsonView::Object(seq![(k1@, jview(v1)), (k2@, jview(v2))]),
{
    let ghost (g1, g2) = (jview(v1), jview(v2));
    let mut es: Vec<(String, Json)> = Vec::new();
    es.push((owned(k1), v1));
    es.push((owned(k2), v2));
    proof {
        assert(entries_view(es@) =~= seq![(k1@, g1), (k2@, g2)]);
        lemma_jview_object(es);
    }
    Json::Object(es)
}

/// An object with the entries `k1: v1, k2: v2, k3: v3`.
pub fn json_object3(k1: &str, v1: Json, k2: &str, v2: Json, k3: &str, v3: Json) -> (r: Json)
    ensures
        jview(r) == JsonView::Object(seq![(k1@, jview(v1)), (k2@, jview(v2)), (k3@, jview(v3))]),
{
    let ghost (g1, g2, g3) = (jview(v1), jview(v2), jview(v3));
    let mut es: Vec<(String, Json)> = Vec::new();
    es.push((owned(k1), v1));
    es.push((owned(k2), v2));
    es.push((owned(k3), v3));
    proof {
        assert(entries_view(es@) =~= seq![(k1@, g1), (k2@, g2), (k3@, g3)]);
        lemma_jview_object(es);
    }
    Json::Object(es)
}

/// An object with the one entry `k: v`.
pub fn json_object1(k: &str, v: Json) -> (r: Json)
    ensures
        jview(r) == JsonView::Object(seq![(k@, jview(v))]),
{
    let ghost g = jview(v);
    let mut es: Vec<(String, Json)> = Vec::new();
    es.push((owned(k), v));
    proof {
        assert(entries_view(es@) =~= seq![(k@, g)]);
        lemma_jview_object(es);
    }
    Json::Object(es)
}

/// An object with the entries `k1: v1, k2: v2, k3: v3, k4: v4`.
pub fn json_object4(k1: &str, v1: Json, k2: &str, v2: Json, k3: &str, v3: Json, k4: &str, v4: Json) -> (r: Json)
    ensures
        jview(r) == JsonView::Object(seq![(k1@, jview(v1)), (k2@, jview(v2)), (k3@, jview(v3)), (k4@, jview(v4))]),
{
    let ghost (g1, g2, g3, g4) = (jview(v1), jview(v2), jview(v3), jview(v4));
    let mut es: Vec<(String, Json)> = Vec::new();
    es.push((owned(k1), v1));
    es.push((owned(k2), v2));
    es.push((owned(k3), v3));
    es.push((owned(k4), v4));
    proof {
        assert(entries_view(es@) =~= seq![(k1@, g1), (k2@, g2), (k3@, g3), (k4@, g4)]);
        lemma_jview_object(es);
    }
    Json::Object(es)
}

/// Appends the entry `k: v` to an object's entries.
pub fn push_entry(es: &mut Vec<(String, Json)>, k: &str, v: Json)
    ensures
        entries_view(final(es)@) == entries_view(old(es)@).push((k@, jview(v))),
{
    let ghost g = jview(v);
    let e = (owned(k), v);
    proof {
        lemma_entries_view_push(es@, e);
    }
    es.push(e);
}

/// Appends `v` to an array's values.
pub fn push_value(items: &mut Vec<Json>, v: Json)
    ensures
        values_view(final(items)@) == values_view(old(items)@).push(jview(v)),
{
    proof {
        assert(values_view(items@.push(v)) =~= values_view(items@).push(jview(v)));
    }
    items.push(v);
}

/// An object with `es` as its entries.
pub fn json_object(es: Vec<(String, Json)>) -> (r: Json)
    ensures
        jview(r) == JsonView::Object(entries_view(es@)),
{
    proof {
        lemma_jview_object(es);
    }
    Json::Object(es)
}

/// A copy of `j`.
pub fn json_clone(j: &Json) -> (r: Json)
    ensures
        jview(r) == jview(*j),
    decreases jview(*j),
{
    match j {
        Json::Null => Json::Null,
        Json::Bool(b) => Json::Bool(*b),
        Json::Number(n) => Json::Number(n.clone()),
        Json::Str(t) => Json::Str(t.clone()),
        Json::Array(items) => {
            proof {
                lemma_jview_array(*items);
            }
            let mut out: Vec<Json> = Vec::new();
            let mut k: usize = 0;
            while k < items.len()
                invariant
                    k <= items@.len(),
                    jview(*j) == JsonView::Array(values_view(items@)),
                    values_view(out@) =~= values_view(items@).take(k as int),
                decreases items@.len() - k,
            {
                proof {
                    let jv = jview(*j);
                    assert(decreases_to!(jv => jv->Array_0));
                    assert(decreases_to!(jv->Array_0 => jv->Array_0[k as int]));
                    assert(jv->Array_0[k as int] == jview(items@[k as int]));
                }
                let one = json_clone(&items[k]);
                push_value(&mut out, one);
                k += 1;
            }
            proof {
                assert(values_view(items@).take(items@.len() as int) =~= values_view(items@));
            }
            json_array(out)
        },
        Json::Object(es) => {
            proof {
                lemma_jview_object(*es);
            }
            let mut out: Vec<(String, Json)> = Vec::new();
            let mut k: usize = 0;
            while k < es.len()
                invariant
                    k <= es@.len(),
                    jview(*j) == JsonView::Object(entries_view(es@)),
                    entries_view(out@) =~= entries_view(es@).take(k as int),
                decreases es@.len() - k,
            {
                proof {
                    let jv = jview(*j);
                    assert(decreases_to!(jv => jv->Object_0));
                    assert(decreases_to!(jv->Object_0 => jv->Object_0[k as int]));
                    assert(decreases_to!(jv->Object_0[k as int] => jv->Object_0[k as int].1));
                    assert(jv->Object_0[k as int].1 == jview(es@[k as int].1));
                }
                let value = json_clone(&es[k].1);
                let key = es[k].0.clone();
                push_entry(&mut out, key.as_str(), value);
                k += 1;
            }
            proof {
                assert(entries_view(es@).take(es@.len() as int) =~= entries_view(es@));
            }
            json_object(out)
        },
    }
}

/// The position of the first entry keyed `k`.
pub open spec fn key_index(es: Seq<(Seq<char>, JsonView)>, k: Seq<char>) -> Option<int> {
    if exists|i: int| 0 <= i < es.len() && es[i].0 == k {
        Some(choose|i: int| 0 <= i < es.len() && es[i].0 == k && forall|j: int| 0 <= j < i ==> es[j].0 != k)
    } else {
        None
    }
}

/// `es` with the first entry keyed `k` set to `x`, or `(k, x)` appended
/// when no entry is keyed `k`.
pub open spec fn with_key(es: Seq<(Seq<char>, JsonView)>, k: Seq<char>, x: JsonView) -> Seq<(Seq<char>, JsonView)> {
    match key_index(es, k) {
        Some(i) => es.update(i, (k, x)),
        None => es.push((k, x)),
    }
}

/// `v` with member `k` set to `x`: an object keeps its other entries; a
/// null becomes the object holding just that member.
pub open spec fn set_member_view(v: JsonView, k: Seq<char>, x: JsonView) -> JsonView {
    match v {
        JsonView::Object(es) => JsonView::Object(with_key(es, k, x)),
        _ => JsonView::Object(seq![(k, x)]),
    }
}

/// The text of member `k` of `v`: empty when `v` has no such string member.
pub open spec fn member_text_view(v: JsonView, k: Seq<char>) -> Seq<char> {
    match v {
        JsonView::Object(es) => match key_index(es, k) {
            Some(i) => match es[i].1 {
                JsonView::Str(t) => t,
                _ => Seq::empty(),
            },
            None => Seq::empty(),
        },
        _ => Seq::empty(),
    }
}

fn find_entry(es: &Vec<(String, Json)>, k: &str) -> (r: Option<usize>)
    ensures
        r matches Some(i) ==> i < es@.len() && key_index(entries_view(es@), k@) == Some(i as int),
        r is None ==> key_index(entries_view(es@), k@) is None,
{
    let ghost ev = entries_view(es@);
    let mut i: usize = 0;
    while i < es.len()
        invariant
            i <= es.len(),
            ev == entries_view(es@),
            forall|j: int| 0 <= j < i ==> ev[j].0 != k@,
        decreases es.len() - i,
    {
        if key_is(&es[i], k) {
            proof {
                let n = i as int;
                assert(ev[n].0 == k@);
                let c = key_index(ev, k@)->0;
                assert(c == n) by {
                    if c < n {
                        assert(ev[c].0 != k@);
                    } else if c > n {
                        assert(ev[n].0 != k@);
                    }
                }
            }
            return Some(i);
        }
        i += 1;
    }
    None
}

/// `j` with member `k` set to `x` (see `set_member_view`).
pub fn set_member(j: Json, k: &str, x: Json) -> (r: Json)
    requires
        j is Object || j is Null,
    ensures
        jview(r) == set_member_view(jview(j), k@, jview(x)),
{
    match j {
        Json::Object(es) => {
            proof {
                lemma_jview_object(es);
            }
            let ghost before = es@;
            let mut es = es;
            match find_entry(&es, k) {
                Some(i) => {
                    es.set(i, (owned(k), x));
                    proof {
                        assert(entries_view(es@) =~= entries_view(before).update(i as int, (k@, jview(x))));
                    }
                },
                None => {
                    let e = (owned(k), x);
                    proof {
                        lemma_entries_view_push(es@, e);
                    }
                    es.push(e);
                },
            }
            proof {
                lemma_jview_object(es);
            }
            Json::Object(es)
        },
        _ => {
            let mut es: Vec<(String, Json)> = Vec::new();
            let e = (owned(k), x);
            proof {
                lemma_entries_view_push(es@, e);
            }
            es.push(e);
            proof {
                lemma_jview_object(es);
                assert(entries_view(es@) =~= seq![(k@, jview(x))]);
            }
            Json::Object(es)
        },
    }
}

/// The text of member `k` of `j` (see `member_text_view`).
pub fn member_text(j: &Json, k: &str) -> (r: String)
    ensures
        r@ == member_text_view(jview(*j), k@),
{
    match j {
        Json::Object(es) => {
            proof {
                lemma_jview_object(*es);
            }
            match find_entry(es, k) {
                Some(i) => match &es[i].1 {
                    Json::Str(t) => owned(t.as_str()),
                    _ => String::new(),
                },
                None => String::new(),
            }
        },
        _ => String::new(),
    }
}

} // verus!
