//! List projection: orders resources, builds and filters their rows, sorts
//! by a column, reverses on request, numbers the rows and records the listed
//! objects in the context memory.

use vstd::prelude::*;
use crate::age::{rfc3339_seconds, timestamp_seconds};
use crate::filter::Filter;
use crate::rows::{
    all_columns_known, build_specs, built_rows, cell_text, entries_view, entry_view, filter_pattern,
    ColumnExtractor, Entry, EntryView, HandleView, ObjectHandle,
};
use crate::sort::{entry_key_le, insert_sorted, key_le, sort_by, stable_sort, SortKey};
use crate::text::text_le;
use crate::value::{text_at, texts, Value};

verus! {

broadcast use vstd::seq_lib::group_to_multiset_ensures;

/// Sequences with equal multisets still have equal multisets after a map.
pub proof fn lemma_map_multiset<A, B>(s: Seq<A>, t: Seq<A>, f: spec_fn(A) -> B)
    requires
        s.to_multiset() == t.to_multiset(),
    ensures
        s.map_values(f).to_multiset() == t.map_values(f).to_multiset(),
    decreases s.len(),
{
    s.to_multiset_ensures();
    t.to_multiset_ensures();
    if s.len() == 0 {
        assert(t.len() == 0);
        assert(s.map_values(f) =~= Seq::empty());
        assert(t.map_values(f) =~= Seq::empty());
    } else {
        let a = s.last();
        let s1 = s.drop_last();
        assert(s == s1.push(a));
        assert(s.to_multiset().count(a) > 0);
        assert(t.contains(a));
        let i = choose|i: int| 0 <= i < t.len() && t[i] == a;
        let t1 = t.remove(i);
        assert(t1.to_multiset() == t.to_multiset().remove(a));
        assert(s1.to_multiset() =~= t1.to_multiset());
        lemma_map_multiset(s1, t1, f);
        assert(s.map_values(f) =~= s1.map_values(f).push(f(a)));
        assert(t.map_values(f) =~= t1.map_values(f).insert(i, f(a)));
        assert(s.map_values(f).to_multiset() == s1.map_values(f).to_multiset().insert(f(a)));
        assert(t.map_values(f).to_multiset() == t1.map_values(f).to_multiset().insert(f(a)));
    }
}

/// `r` is `s` put in order by `le`, stably: `r` lists each element of `s`
/// once, in order of `le`, and elements that `le` ties keep their order.
pub open spec fn stable_reorder<T>(r: Seq<T>, s: Seq<T>, le: spec_fn(T, T) -> bool) -> bool {
    &&& r.len() == s.len()
    &&& forall|i: int, j: int| 0 <= i < j < r.len() ==> le(#[trigger] r[i], #[trigger] r[j])
    &&& exists|p: Seq<int>| #[trigger] p.len() == r.len()
        && (forall|k: int| 0 <= k < r.len() ==> 0 <= #[trigger] p[k] < s.len() && r[k] == s[p[k]])
        && (forall|i: int, j: int| #![trigger p[i], p[j]] 0 <= i < j < r.len() ==> p[i] != p[j])
        && (forall|i: int, j: int| #![trigger p[i], p[j]] 0 <= i < j < r.len() && le(r[j], r[i]) ==> p[i] < p[j])
}

/// The original positions of stably sorted entries.
pub open spec fn positions<T>(s: Seq<(SortKey, usize, T)>) -> Seq<int> {
    s.map_values(|e: (SortKey, usize, T)| e.1 as int)
}

/// Entries that a stable sort returned sit at their original positions.
proof fn lemma_sorted_positions<T>(sorted: Seq<(SortKey, usize, T)>, pre: Seq<(SortKey, usize, T)>)
    requires
        sorted.to_multiset() == pre.to_multiset(),
        crate::sort::stably_sorted(sorted),
        forall|i: int| 0 <= i < pre.len() ==> (#[trigger] pre[i]).1 == i,
    ensures
        sorted.len() == pre.len(),
        forall|k: int| 0 <= k < sorted.len() ==> 0 <= #[trigger] positions(sorted)[k] < pre.len()
            && sorted[k] == pre[positions(sorted)[k]],
        forall|i: int, j: int| #![trigger positions(sorted)[i], positions(sorted)[j]] 0 <= i < j < sorted.len()
            ==> positions(sorted)[i] != positions(sorted)[j],
        forall|i: int, j: int| #![trigger positions(sorted)[i], positions(sorted)[j]] 0 <= i < j < sorted.len()
            && key_le(sorted[j].0, sorted[i].0) ==> positions(sorted)[i] < positions(sorted)[j],
{
    sorted.to_multiset_ensures();
    pre.to_multiset_ensures();
    let p = positions(sorted);
    assert forall|k: int| 0 <= k < sorted.len() implies 0 <= #[trigger] p[k] < pre.len() && sorted[k] == pre[p[k]] by {
        assert(pre.to_multiset().count(sorted[k]) > 0);
        assert(pre.contains(sorted[k]));
        let m = choose|m: int| 0 <= m < pre.len() && pre[m] == sorted[k];
        assert(pre[m].1 == m);
    }
    assert forall|i: int, j: int| #![trigger p[i], p[j]] 0 <= i < j < sorted.len() implies p[i] != p[j] by {
        assert(crate::sort::before(sorted[i], sorted[j]));
        if p[i] == p[j] {
            assert(sorted[i] == pre[p[i]]);
            assert(sorted[j] == pre[p[j]]);
            crate::sort::lemma_key_le_total(sorted[i].0, sorted[j].0);
        }
    }
    assert forall|i: int, j: int| #![trigger p[i], p[j]] 0 <= i < j < sorted.len() && key_le(sorted[j].0, sorted[i].0)
        implies p[i] < p[j] by {
        assert(crate::sort::before(sorted[i], sorted[j]));
    }
}

/// Inserting commutes with a map that carries one order to the other on
/// the elements involved.
proof fn lemma_insert_map<A, B>(
    t: Seq<A>,
    e: A,
    f: spec_fn(A) -> B,
    ok: spec_fn(A) -> bool,
    la: spec_fn(A, A) -> bool,
    lb: spec_fn(B, B) -> bool,
)
    requires
        forall|x: A, y: A| ok(x) && ok(y) ==> #[trigger] la(x, y) == lb(f(x), f(y)),
        forall|i: int| 0 <= i < t.len() ==> ok(#[trigger] t[i]),
        ok(e),
    ensures
        insert_sorted(t, e, la).map_values(f) == insert_sorted(t.map_values(f), f(e), lb),
        forall|i: int| 0 <= i < insert_sorted(t, e, la).len() ==> ok(#[trigger] insert_sorted(t, e, la)[i]),
    decreases t.len(),
{
    if t.len() == 0 {
        assert(insert_sorted(t, e, la).map_values(f) =~= seq![f(e)]);
    } else if !la(t[0], e) {
        assert(t.map_values(f)[0] == f(t[0]));
        assert(insert_sorted(t, e, la).map_values(f) =~= seq![f(e)] + t.map_values(f));
        assert forall|i: int| 0 <= i < insert_sorted(t, e, la).len() implies ok(#[trigger] insert_sorted(t, e, la)[i]) by {
            if i > 0 {
                assert(insert_sorted(t, e, la)[i] == t[i - 1]);
            }
        }
    } else {
        let u = t.drop_first();
        assert forall|i: int| 0 <= i < u.len() implies ok(#[trigger] u[i]) by {
            assert(u[i] == t[i + 1]);
        }
        lemma_insert_map(u, e, f, ok, la, lb);
        assert(t.map_values(f)[0] == f(t[0]));
        assert(t.map_values(f).drop_first() =~= u.map_values(f));
        assert(insert_sorted(t, e, la).map_values(f) =~= seq![f(t[0])] + insert_sorted(u, e, la).map_values(f));
        assert forall|i: int| 0 <= i < insert_sorted(t, e, la).len() implies ok(#[trigger] insert_sorted(t, e, la)[i]) by {
            if i > 0 {
                assert(insert_sorted(t, e, la)[i] == insert_sorted(u, e, la)[i - 1]);
            }
        }
    }
}

/// Sorting commutes with a map that carries one order to the other on the
/// elements involved.
proof fn lemma_sort_map<A, B>(
    s: Seq<A>,
    f: spec_fn(A) -> B,
    ok: spec_fn(A) -> bool,
    la: spec_fn(A, A) -> bool,
    lb: spec_fn(B, B) -> bool,
)
    requires
        forall|x: A, y: A| ok(x) && ok(y) ==> #[trigger] la(x, y) == lb(f(x), f(y)),
        forall|i: int| 0 <= i < s.len() ==> ok(#[trigger] s[i]),
    ensures
        sort_by(s, la).map_values(f) == sort_by(s.map_values(f), lb),
        forall|i: int| 0 <= i < sort_by(s, la).len() ==> ok(#[trigger] sort_by(s, la)[i]),
    decreases s.len(),
{
    if s.len() == 0 {
        assert(sort_by(s, la).map_values(f) =~= Seq::<B>::empty());
        assert(s.map_values(f) =~= Seq::<B>::empty());
    } else {
        let d = s.drop_last();
        assert forall|i: int| 0 <= i < d.len() implies ok(#[trigger] d[i]) by {
            assert(d[i] == s[i]);
        }
        lemma_sort_map(d, f, ok, la, lb);
        assert(s.map_values(f).drop_last() =~= d.map_values(f));
        assert(s.map_values(f).last() == f(s.last()));
        lemma_insert_map(sort_by(d, la), s.last(), f, ok, la, lb);
    }
}

/// The order of resources by age (see `created_key`).
pub open spec fn age_le() -> spec_fn(Value, Value) -> bool {
    |a: Value, b: Value| key_le(created_key(a), created_key(b))
}

/// The key a resource is ordered by when sorting by age.
pub open spec fn created_key(res: Value) -> SortKey {
    SortKey::Created(
        match text_at(res, "/metadata/creationTimestamp"@) {
            Some(ts) => rfc3339_seconds(ts),
            None => None,
        },
    )
}

/// Computes `created_key`.
pub fn created_key_exec(res: &Value) -> (r: SortKey)
    ensures
        r == created_key(*res),
{
    match res.str_at("/metadata/creationTimestamp") {
        Some(ts) => SortKey::Created(timestamp_seconds(ts.as_str())),
        None => SortKey::Created(None),
    }
}

/// Resources in order of age: youngest first, those without a creation time
/// (or with one that does not parse) last.
pub open spec fn age_ordered(s: Seq<Value>) -> bool {
    forall|i: int, j: int| 0 <= i < j < s.len() ==> key_le(created_key(#[trigger] s[i]), created_key(#[trigger] s[j]))
}

/// The items of keyed entries.
pub open spec fn items_of<T>(s: Seq<(SortKey, usize, T)>) -> Seq<T> {
    s.map_values(|e: (SortKey, usize, T)| e.2)
}

/// Drops keys and positions, keeping the items in order.
pub fn strip_keys<T>(v: Vec<(SortKey, usize, T)>) -> (r: Vec<T>)
    ensures
        r@ == items_of(v@),
{
    let ghost orig = v@;
    let mut input = v;
    let mut out: Vec<T> = Vec::new();
    let ghost mut done: int = 0;
    assert(orig.skip(0) == orig);
    while input.len() > 0
        invariant
            0 <= done <= orig.len(),
            input@ == orig.skip(done),
            out@ == items_of(orig.take(done)),
        decreases input@.len(),
    {
        let e = input.remove(0);
        proof {
            assert(e == orig[done]);
            assert(orig.skip(done).drop_first() == orig.skip(done + 1));
            assert(items_of(orig.take(done + 1)) =~= items_of(orig.take(done)).push(e.2));
            done = done + 1;
        }
        out.push(e.2);
    }
    assert(orig.take(done) == orig);
    out
}

/// Sorts resources by age, stably (see `age_ordered`).
pub fn presort_by_age(list: Vec<Value>) -> (r: Vec<Value>)
    ensures
        r@.to_multiset() == list@.to_multiset(),
        age_ordered(r@),
        stable_reorder(r@, list@, |a: Value, b: Value| key_le(created_key(a), created_key(b))),
        r@ == sort_by(list@, age_le()),
{
    let ghost orig = list@;
    let n = list.len();
    let mut input = list;
    let mut keyed: Vec<(SortKey, usize, Value)> = Vec::new();
    let mut i: usize = 0;
    assert(orig.skip(0) == orig);
    while input.len() > 0
        invariant
            i <= orig.len(),
            orig.len() == n,
            input@ == orig.skip(i as int),
            items_of(keyed@) == orig.take(i as int),
            keyed@.len() == i,
            forall|k: int| 0 <= k < i ==> (#[trigger] keyed@[k]).1 == k && keyed@[k].0 == created_key(keyed@[k].2),
        decreases input@.len(),
    {
        assert(i < orig.len());
        let v = input.remove(0);
        assert(v == orig[i as int]);
        assert(orig.skip(i as int).drop_first() == orig.skip(i + 1));
        let key = created_key_exec(&v);
        keyed.push((key, i, v));
        assert(items_of(keyed@) =~= orig.take(i + 1));
        i = i + 1;
    }
    assert(orig.take(i as int) == orig);
    let ghost pre = keyed@;
    let sorted = stable_sort(keyed);
    proof {
        lemma_map_multiset(sorted@, pre, |e: (SortKey, usize, Value)| e.2);
        assert forall|k: int| 0 <= k < sorted@.len() implies (#[trigger] sorted@[k]).0 == created_key(sorted@[k].2) by {
            assert(pre.to_multiset().count(sorted@[k]) > 0);
            assert(pre.contains(sorted@[k]));
        }
    }
    let r = strip_keys(sorted);
    proof {
        assert(items_of(sorted@) == sorted@.map_values(|e: (SortKey, usize, Value)| e.2));
        assert forall|a: int, b: int| 0 <= a < b < r@.len() implies key_le(created_key(#[trigger] r@[a]), created_key(#[trigger] r@[b])) by {
            assert(r@[a] == sorted@[a].2 && r@[b] == sorted@[b].2);
        }
        lemma_sorted_positions(sorted@, pre);
        let p = positions(sorted@);
        assert forall|k: int| 0 <= k < r@.len() implies 0 <= #[trigger] p[k] < orig.len() && r@[k] == orig[p[k]] by {
            assert(r@[k] == sorted@[k].2);
            assert(orig[p[k]] == items_of(pre)[p[k]]);
        }
        assert forall|i: int, j: int| #![trigger p[i], p[j]] 0 <= i < j < r@.len()
            && key_le(created_key(r@[j]), created_key(r@[i])) implies p[i] < p[j] by {
            assert(r@[i] == sorted@[i].2 && r@[j] == sorted@[j].2);
        }
        assert(p.len() == r@.len());
        let f = |e: (SortKey, usize, Value)| e.2;
        let ok = |e: (SortKey, usize, Value)| e.0 == created_key(e.2);
        assert forall|i: int| 0 <= i < pre.len() implies ok(#[trigger] pre[i]) by {}
        lemma_sort_map(pre, f, ok, entry_key_le(), age_le());
        assert(r@ =~= sort_by(pre, entry_key_le()).map_values(f));
        assert(pre.map_values(f) =~= orig);
    }
    r
}

/// The text of column `idx` in a row (blank where absent or out of range).
pub open spec fn column_text(e: EntryView, idx: int) -> Seq<char> {
    if 0 <= idx < e.1.len() {
        cell_text(e.1[idx])
    } else {
        Seq::empty()
    }
}

/// The order of rows by the text of column `idx`.
pub open spec fn column_le(idx: int) -> spec_fn(EntryView, EntryView) -> bool {
    |a: EntryView, b: EntryView| text_le(column_text(a, idx), column_text(b, idx))
}

/// Rows in ascending order of the text of column `idx`.
pub open spec fn column_ascending(s: Seq<EntryView>, idx: int) -> bool {
    forall|i: int, j: int| 0 <= i < j < s.len() ==> text_le(column_text(#[trigger] s[i], idx), column_text(#[trigger] s[j], idx))
}

/// Rows in descending order of the text of column `idx`.
pub open spec fn column_descending(s: Seq<EntryView>, idx: int) -> bool {
    forall|i: int, j: int| 0 <= i < j < s.len() ==> text_le(column_text(#[trigger] s[j], idx), column_text(#[trigger] s[i], idx))
}

/// The text of column `idx` of a row (see `column_text`).
fn column_string(e: &Entry, idx: usize) -> (r: String)
    ensures
        r@ == column_text(entry_view(*e), idx as int),
{
    if idx < e.1.len() {
        assert(entry_view(*e).1[idx as int] == crate::rows::opt_view(e.1@[idx as int]));
        match &e.1[idx] {
            Some(t) => t.clone(),
            None => String::new(),
        }
    } else {
        String::new()
    }
}

/// Reversing rows in ascending order of a column gives them in descending
/// order of that column: sorting ascending and then reversing is sorting
/// descending.
pub proof fn lemma_reverse_ascending(s: Seq<EntryView>, idx: int)
    requires
        column_ascending(s, idx),
    ensures
        column_descending(s.reverse(), idx),
{
    assert forall|a: int, b: int| 0 <= a < b < s.reverse().len() implies text_le(
        column_text(#[trigger] s.reverse()[b], idx),
        column_text(#[trigger] s.reverse()[a], idx),
    ) by {
        let n = s.len();
        assert(s.reverse()[a] == s[n - 1 - a]);
        assert(s.reverse()[b] == s[n - 1 - b]);
    }
}

/// Rows in descending order of a column whose texts are pairwise distinct
/// are in strictly descending order: with distinct names, sorting by name and
/// reversing is sorting by name, descending.
pub proof fn lemma_descending_strict(s: Seq<EntryView>, idx: int)
    requires
        column_descending(s, idx),
        forall|i: int, j: int| 0 <= i < j < s.len() ==> column_text(#[trigger] s[i], idx) != column_text(#[trigger] s[j], idx),
    ensures
        forall|i: int, j: int| 0 <= i < j < s.len() ==> !text_le(column_text(#[trigger] s[i], idx), column_text(#[trigger] s[j], idx)),
{
    assert forall|i: int, j: int| 0 <= i < j < s.len() implies !text_le(column_text(#[trigger] s[i], idx), column_text(#[trigger] s[j], idx)) by {
        if text_le(column_text(s[i], idx), column_text(s[j], idx)) {
            crate::text::lemma_text_le_antisym(column_text(s[i], idx), column_text(s[j], idx));
        }
    }
}

/// Sorts rows stably by the text of column `idx`.
pub fn sort_by_column(entries: Vec<Entry>, idx: usize) -> (r: Vec<Entry>)
    ensures
        entries_view(r@).to_multiset() == entries_view(entries@).to_multiset(),
        column_ascending(entries_view(r@), idx as int),
        stable_reorder(entries_view(r@), entries_view(entries@), column_le(idx as int)),
        entries_view(r@) == sort_by(entries_view(entries@), column_le(idx as int)),
{
    let ghost orig = entries@;
    let n = entries.len();
    let mut input = entries;
    let mut keyed: Vec<(SortKey, usize, Entry)> = Vec::new();
    let mut i: usize = 0;
    assert(orig.skip(0) == orig);
    while input.len() > 0
        invariant
            i <= orig.len(),
            orig.len() == n,
            input@ == orig.skip(i as int),
            items_of(keyed@) == orig.take(i as int),
            keyed@.len() == i,
            forall|k: int| 0 <= k < i ==> (#[trigger] keyed@[k]).1 == k
                && keyed@[k].0 is Text && keyed@[k].0->Text_0@ == column_text(entry_view(keyed@[k].2), idx as int),
        decreases input@.len(),
    {
        assert(i < orig.len());
        let e = input.remove(0);
        assert(e == orig[i as int]);
        assert(orig.skip(i as int).drop_first() == orig.skip(i + 1));
        let key = SortKey::Text(column_string(&e, idx));
        keyed.push((key, i, e));
        assert(items_of(keyed@) =~= orig.take(i + 1));
        i = i + 1;
    }
    assert(orig.take(i as int) == orig);
    let ghost pre = keyed@;
    let sorted = stable_sort(keyed);
    proof {
        lemma_map_multiset(sorted@, pre, |e: (SortKey, usize, Entry)| entry_view(e.2));
        assert(sorted@.map_values(|e: (SortKey, usize, Entry)| entry_view(e.2)) =~= entries_view(items_of(sorted@)));
        assert(pre.map_values(|e: (SortKey, usize, Entry)| entry_view(e.2)) =~= entries_view(orig));
        assert forall|k: int| 0 <= k < sorted@.len() implies (#[trigger] sorted@[k]).0 is Text
            && sorted@[k].0->Text_0@ == column_text(entry_view(sorted@[k].2), idx as int) by {
            assert(pre.to_multiset().count(sorted@[k]) > 0);
            assert(pre.contains(sorted@[k]));
        }
    }
    let r = strip_keys(sorted);
    proof {
        assert forall|a: int, b: int| 0 <= a < b < entries_view(r@).len() implies text_le(
            column_text(#[trigger] entries_view(r@)[a], idx as int),
            column_text(#[trigger] entries_view(r@)[b], idx as int),
        ) by {
            assert(r@[a] == sorted@[a].2 && r@[b] == sorted@[b].2);
            assert(crate::sort::before(sorted@[a], sorted@[b]));
        }
        lemma_sorted_positions(sorted@, pre);
        let p = positions(sorted@);
        let rv = entries_view(r@);
        let ov = entries_view(orig);
        assert forall|k: int| 0 <= k < rv.len() implies 0 <= #[trigger] p[k] < ov.len() && rv[k] == ov[p[k]] by {
            assert(r@[k] == sorted@[k].2);
            assert(orig[p[k]] == items_of(pre)[p[k]]);
        }
        assert forall|i: int, j: int| #![trigger p[i], p[j]] 0 <= i < j < rv.len()
            && column_le(idx as int)(rv[j], rv[i]) implies p[i] < p[j] by {
            assert(r@[i] == sorted@[i].2 && r@[j] == sorted@[j].2);
        }
        assert forall|i: int, j: int| 0 <= i < j < rv.len() implies column_le(idx as int)(#[trigger] rv[i], #[trigger] rv[j]) by {
            assert(crate::sort::before(sorted@[i], sorted@[j]));
            assert(r@[i] == sorted@[i].2 && r@[j] == sorted@[j].2);
        }
        assert(p.len() == rv.len());
        let f = |e: (SortKey, usize, Entry)| entry_view(e.2);
        let ok = |e: (SortKey, usize, Entry)| e.0 is Text && e.0->Text_0@ == column_text(entry_view(e.2), idx as int);
        assert forall|i: int| 0 <= i < pre.len() implies ok(#[trigger] pre[i]) by {}
        lemma_sort_map(pre, f, ok, entry_key_le(), column_le(idx as int));
        assert(rv =~= sort_by(pre, entry_key_le()).map_values(f));
        assert(pre.map_values(f) =~= ov);
    }
    r
}

/// Reverses rows.
pub fn reverse_entries(entries: Vec<Entry>) -> (r: Vec<Entry>)
    ensures
        r@ == entries@.reverse(),
{
    let mut input = entries;
    let ghost orig = input@;
    let mut out: Vec<Entry> = Vec::new();
    while input.len() > 0
        invariant
            input@.len() <= orig.len(),
            input@ == orig.take(input@.len() as int),
            out@ == orig.skip(input@.len() as int).reverse(),
        decreases input@.len(),
    {
        let ghost k = input@.len() as int;
        let e = input.pop().unwrap();
        proof {
            assert(e == orig[k - 1]);
            assert(input@ =~= orig.take(k - 1));
            assert(orig.skip(k - 1).reverse() =~= orig.skip(k).reverse().push(e));
        }
        out.push(e);
    }
    assert(orig.skip(0) == orig);
    out
}

impl ObjectHandle {
    /// A copy of the handle.
    pub fn duplicate(&self) -> (r: ObjectHandle)
        ensures
            r.view() == self.view(),
    {
        let namespace = match &self.namespace {
            Some(n) => Some(n.clone()),
            None => None,
        };
        ObjectHandle { kind: self.kind.clone(), name: self.name.clone(), namespace }
    }
}

/// The views of handles.
pub open spec fn handle_views(s: Seq<ObjectHandle>) -> Seq<HandleView> {
    s.map_values(|h: ObjectHandle| h.view())
}

/// The handles of the most recently listed objects, in the order shown.
pub struct ContextMemory {
    handles: Vec<ObjectHandle>,
}

impl ContextMemory {
    pub closed spec fn view(&self) -> Seq<HandleView> {
        handle_views(self.handles@)
    }

    /// An empty memory.
    pub fn new() -> (r: ContextMemory)
        ensures
            r.view().len() == 0,
    {
        ContextMemory { handles: Vec::new() }
    }

    /// Replaces the whole memory with `handles`.
    pub fn set_last_objs(&mut self, handles: Vec<ObjectHandle>)
        ensures
            final(self).view() == handle_views(handles@),
    {
        self.handles = handles;
    }

    /// Forgets every handle.
    pub fn clear_last_objs(&mut self)
        ensures
            final(self).view().len() == 0,
    {
        self.handles = Vec::new();
        assert(handle_views(self.handles@) =~= Seq::empty());
    }

    /// How many handles are held.
    pub fn len(&self) -> (r: usize)
        ensures
            r == self.view().len(),
    {
        self.handles.len()
    }

    /// The handle at `pos` (from 0), if there is one.
    pub fn get(&self, pos: usize) -> (r: Option<&ObjectHandle>)
        ensures
            pos < self.view().len() ==> (r matches Some(h) && h.view() == self.view()[pos as int]),
            pos >= self.view().len() ==> r is None,
    {
        if pos < self.handles.len() {
            Some(&self.handles[pos])
        } else {
            None
        }
    }
}

/// One row of a list table: its number, the object it shows, and its cells.
pub struct Row {
    pub index: usize,
    pub handle: ObjectHandle,
    pub cells: Vec<Option<String>>,
}

pub open spec fn row_view(r: Row) -> EntryView {
    (r.handle.view(), crate::rows::cells_view(r.cells@))
}

pub open spec fn rows_view(s: Seq<Row>) -> Seq<EntryView> {
    s.map_values(|r: Row| row_view(r))
}

/// Rows numbered 1, 2, ... in order.
pub open spec fn numbered(s: Seq<Row>) -> bool {
    forall|i: int| 0 <= i < s.len() ==> (#[trigger] s[i]).index == i + 1
}

/// Numbers rows from 1 in order, and collects copies of their handles.
pub fn number_rows(entries: Vec<Entry>) -> (r: (Vec<Row>, Vec<ObjectHandle>))
    ensures
        rows_view(r.0@) == entries_view(entries@),
        numbered(r.0@),
        handle_views(r.1@) == entries_view(entries@).map_values(|e: EntryView| e.0),
{
    let ghost orig = entries@;
    let n = entries.len();
    let mut input = entries;
    let mut rows: Vec<Row> = Vec::new();
    let mut handles: Vec<ObjectHandle> = Vec::new();
    let mut i: usize = 0;
    assert(orig.skip(0) == orig);
    while input.len() > 0
        invariant
            i <= orig.len(),
            orig.len() == n,
            input@ == orig.skip(i as int),
            rows_view(rows@) == entries_view(orig.take(i as int)),
            handle_views(handles@) == entries_view(orig.take(i as int)).map_values(|e: EntryView| e.0),
            numbered(rows@),
            rows@.len() == i,
        decreases input@.len(),
    {
        assert(i < orig.len());
        let e = input.remove(0);
        assert(e == orig[i as int]);
        assert(orig.skip(i as int).drop_first() == orig.skip(i + 1));
        let (h, cells) = e;
        let h2 = h.duplicate();
        let row = Row { index: i + 1, handle: h, cells };
        let ghost rb = rows@;
        let ghost hb = handles@;
        rows.push(row);
        handles.push(h2);
        assert(orig.take(i + 1) == orig.take(i as int).push(e));
        assert(rows_view(rows@) =~= rows_view(rb).push(entry_view(e)));
        assert(entries_view(orig.take(i + 1)) =~= entries_view(orig.take(i as int)).push(entry_view(e)));
        assert(handle_views(handles@) =~= handle_views(hb).push(entry_view(e).0));
        assert(entries_view(orig.take(i + 1)).map_values(|e: EntryView| e.0) =~= entries_view(
            orig.take(i as int),
        ).map_values(|e: EntryView| e.0).push(entry_view(e).0));
        i = i + 1;
    }
    assert(orig.take(i as int) == orig);
    (rows, handles)
}

/// How a list is ordered, besides the order it came in.
pub enum SortFunc {
    /// Orders the resources by age before rows are built (see `age_ordered`).
    Pre,
    /// Orders the built rows by the rendered text of the named column.
    Post(String),
}

/// Where column `name` stands among `cols`: its first position.
pub open spec fn column_position(cols: Seq<String>, name: Seq<char>) -> Option<int> {
    if exists|i: int| 0 <= i < cols.len() && (#[trigger] cols[i])@ == name {
        Some(choose|i: int| 0 <= i < cols.len() && (#[trigger] cols[i])@ == name
            && forall|j: int| 0 <= j < i ==> (#[trigger] cols[j])@ != name)
    } else {
        None
    }
}

/// The first position of column `name` among `cols`.
pub fn find_column(cols: &Vec<String>, name: &String) -> (r: Option<usize>)
    ensures
        r matches Some(i) ==> column_position(cols@, name@) == Some(i as int),
        r is None ==> column_position(cols@, name@) is None,
{
    let mut i: usize = 0;
    while i < cols.len()
        invariant
            i <= cols@.len(),
            forall|j: int| 0 <= j < i ==> (#[trigger] cols@[j])@ != name@,
        decreases cols@.len() - i,
    {
        if cols[i].eq(name) {
            proof {
                let c = choose|k: int| 0 <= k < cols@.len() && (#[trigger] cols@[k])@ == name@
                    && forall|j: int| 0 <= j < k ==> (#[trigger] cols@[j])@ != name@;
                assert(0 <= i < cols@.len() && cols@[i as int]@ == name@
                    && forall|j: int| 0 <= j < i ==> (#[trigger] cols@[j])@ != name@);
                assert(c == i) by {
                    if c > i {
                        assert(cols@[i as int]@ != name@);
                    }
                }
            }
            return Some(i);
        }
        i = i + 1;
    }
    None
}

/// A list ready to render: column titles (the row number first) and rows.
pub struct ListTable {
    pub titles: Vec<String>,
    pub rows: Vec<Row>,
    /// Set where the list was asked to sort by a column it does not show.
    pub warning: Option<String>,
}

/// The title of the row-number column.
pub open spec fn index_title() -> Seq<char> {
    "####"@
}

/// What the rows of a projection of `list` are, given that `base` are the
/// rows built from the resources in their (possibly age-sorted) order.
pub open spec fn arranged(rows: Seq<EntryView>, base: Seq<EntryView>, cols: Seq<String>, sort: Option<SortFunc>, reverse: bool) -> bool {
    match sort {
        Some(SortFunc::Post(name)) if column_position(cols, name@) is Some => {
            let idx = column_position(cols, name@)->Some_0;
            &&& rows.to_multiset() == base.to_multiset()
            &&& if reverse { column_descending(rows, idx) } else { column_ascending(rows, idx) }
            &&& stable_reorder(if reverse { rows.reverse() } else { rows }, base, column_le(idx))
        },
        _ => rows == if reverse { base.reverse() } else { base },
    }
}

/// The resources a projection builds its rows from: the list itself, or
/// with the age sort, the same resources in age order.
pub open spec fn source_order(l2: Seq<Value>, list: Seq<Value>, sort: Option<SortFunc>) -> bool {
    match sort {
        Some(SortFunc::Pre) => l2.to_multiset() == list.to_multiset() && age_ordered(l2) && stable_reorder(
            l2,
            list,
            |a: Value, b: Value| key_le(created_key(a), created_key(b)),
        ),
        _ => l2 == list,
    }
}

pub open spec fn sort_misses_column(cols: Seq<String>, sort: Option<SortFunc>) -> bool {
    match sort {
        Some(SortFunc::Post(name)) => column_position(cols, name@) is None,
        _ => false,
    }
}

pub open spec fn titles_of(cols: Seq<String>) -> Seq<Seq<char>> {
    seq![index_title()] + crate::value::texts(cols)
}

/// A built row never outnumbers the resources it was built from.
pub proof fn lemma_built_rows_len(
    registry: Seq<ColumnExtractor>,
    cols: Seq<String>,
    list: Seq<Value>,
    pattern: Option<Seq<char>>,
    kind: Seq<char>,
    now: int,
)
    ensures
        built_rows(registry, cols, list, pattern, kind, now).len() <= list.len(),
    decreases list.len(),
{
    if list.len() > 0 {
        lemma_built_rows_len(registry, cols, list.drop_last(), pattern, kind, now);
    }
}

/// The warning where the sort column `name` is not among the columns.
pub open spec fn missing_column_text(name: Seq<char>) -> Seq<char> {
    "Asked to sort by "@ + name + ", but it's not a column in the output"@
}

/// The message shown where the sort column is not among the columns.
fn missing_column_warning(name: &String) -> (r: String)
    ensures
        r@ == missing_column_text(name@),
{
    let mut r = String::from_str("Asked to sort by ");
    r.append(name.as_str());
    r.append(", but it's not a column in the output");
    r
}

/// The resources rows are built from: with the age sort, the list sorted
/// stably by age; otherwise the list as it is.
pub open spec fn source_rows(list: Seq<Value>, sort: Option<SortFunc>) -> Seq<Value> {
    match sort {
        Some(SortFunc::Pre) => sort_by(list, age_le()),
        _ => list,
    }
}

/// Built rows sorted stably by the text of the sort column, where the sort
/// names a column that is shown; otherwise as built.
pub open spec fn ordered_rows(base: Seq<EntryView>, cols: Seq<String>, sort: Option<SortFunc>) -> Seq<EntryView> {
    match sort {
        Some(SortFunc::Post(name)) => match column_position(cols, name@) {
            Some(idx) => sort_by(base, column_le(idx)),
            None => base,
        },
        _ => base,
    }
}

/// Rows reversed last, where asked.
pub open spec fn in_final_order(rows: Seq<EntryView>, reverse: bool) -> Seq<EntryView> {
    if reverse {
        rows.reverse()
    } else {
        rows
    }
}

/// The rows a list projection shows, in their final order.
pub open spec fn list_rows(
    registry: Seq<ColumnExtractor>,
    cols: Seq<String>,
    list: Seq<Value>,
    pattern: Option<Seq<char>>,
    kind: Seq<char>,
    now: int,
    sort: Option<SortFunc>,
    reverse: bool,
) -> Seq<EntryView> {
    in_final_order(
        ordered_rows(built_rows(registry, cols, source_rows(list, sort), pattern, kind, now), cols, sort),
        reverse,
    )
}

/// Reversal is applied last, after either sort: the rows (and so the
/// handles left in the memory) of a reversed projection are those of the
/// same projection unreversed, in reverse order.
pub proof fn lemma_reverse_applied_last(
    registry: Seq<ColumnExtractor>,
    cols: Seq<String>,
    list: Seq<Value>,
    pattern: Option<Seq<char>>,
    kind: Seq<char>,
    now: int,
    sort: Option<SortFunc>,
)
    ensures
        list_rows(registry, cols, list, pattern, kind, now, sort, true) == list_rows(
            registry,
            cols,
            list,
            pattern,
            kind,
            now,
            sort,
            false,
        ).reverse(),
        list_rows(registry, cols, list, pattern, kind, now, sort, true).map_values(|e: EntryView| e.0) == list_rows(
            registry,
            cols,
            list,
            pattern,
            kind,
            now,
            sort,
            false,
        ).map_values(|e: EntryView| e.0).reverse(),
{
    let fwd = list_rows(registry, cols, list, pattern, kind, now, sort, false);
    assert(fwd.reverse().map_values(|e: EntryView| e.0) =~= fwd.map_values(|e: EntryView| e.0).reverse());
}

/// The titles of a table: the row number, then the columns.
pub fn column_titles(cols: &Vec<String>) -> (r: Vec<String>)
    ensures
        texts(r@) == titles_of(cols@),
{
    let mut titles: Vec<String> = Vec::new();
    titles.push(String::from_str("####"));
    let mut j: usize = 0;
    assert(texts(titles@) =~= titles_of(cols@.take(0)));
    while j < cols.len()
        invariant
            j <= cols@.len(),
            texts(titles@) == titles_of(cols@.take(j as int)),
        decreases cols@.len() - j,
    {
        let ghost tb = titles@;
        titles.push(cols[j].clone());
        assert(cols@.take(j + 1) == cols@.take(j as int).push(cols@[j as int]));
        assert(texts(cols@.take(j + 1)) =~= texts(cols@.take(j as int)).push(cols@[j as int]@));
        assert(texts(titles@) =~= texts(tb).push(cols@[j as int]@));
        assert(texts(titles@) =~= titles_of(cols@.take(j + 1)));
        j = j + 1;
    }
    assert(cols@.take(j as int) == cols@);
    titles
}

/// Orders built rows: sorted by a column where asked (with a warning where
/// the column is not shown), then reversed where asked.
pub fn arrange(built: Vec<Entry>, cols: &Vec<String>, sort: &Option<SortFunc>, reverse: bool) -> (r: (Vec<Entry>, Option<String>))
    ensures
        arranged(entries_view(r.0@), entries_view(built@), cols@, *sort, reverse),
        r.1 is Some <==> sort_misses_column(cols@, *sort),
        r.1 matches Some(w) ==> *sort matches Some(SortFunc::Post(name)) && w@ == missing_column_text(name@),
        r.0@.len() == built@.len(),
        entries_view(r.0@) == in_final_order(ordered_rows(entries_view(built@), cols@, *sort), reverse),
{
    let ghost base = entries_view(built@);
    let mut warning: Option<String> = None;
    let mut sorted_idx: Option<usize> = None;
    match sort {
        Some(SortFunc::Post(name)) => match find_column(cols, name) {
            Some(idx) => {
                sorted_idx = Some(idx);
            },
            None => {
                warning = Some(missing_column_warning(name));
            },
        },
        _ => {},
    }
    let arranged_entries = match sorted_idx {
        Some(idx) => sort_by_column(built, idx),
        None => built,
    };
    let ghost pre_rev = entries_view(arranged_entries@);
    proof {
        pre_rev.to_multiset_ensures();
        base.to_multiset_ensures();
    }
    let final_entries = if reverse {
        reverse_entries(arranged_entries)
    } else {
        arranged_entries
    };
    proof {
        if reverse {
            assert(entries_view(final_entries@) =~= pre_rev.reverse());
            assert(pre_rev.reverse().reverse() =~= pre_rev);
            pre_rev.lemma_reverse_to_multiset();
            if let Some(idx) = sorted_idx {
                lemma_reverse_ascending(pre_rev, idx as int);
            }
        }
    }
    (final_entries, warning)
}

/// Projects a list of resources into a numbered table and records what it
/// shows in `memory`.
///
/// Without a list, the memory is cleared and there is no table. With one,
/// every column must be built in or registered (see `check_columns`). Otherwise the resources (sorted by age first, with
/// `SortFunc::Pre`) are turned into rows by `build_specs`; with
/// `SortFunc::Post` the rows are sorted stably by that column's text, or a
/// warning is set where the column is not shown; with `reverse` the final
/// order is reversed. Rows are numbered from 1 in the final order, and the
/// memory then holds exactly their handles, in that order.
pub fn handle_list_result(
    memory: &mut ContextMemory,
    cols: &Vec<String>,
    list_opt: Option<Vec<Value>>,
    registry: &Vec<ColumnExtractor>,
    filter: Option<&Filter>,
    sort: Option<SortFunc>,
    reverse: bool,
    kind: &str,
    now: i64,
) -> (r: Option<ListTable>)
    requires
        list_opt is Some ==> all_columns_known(registry@, cols@),
    ensures
        list_opt is None ==> r is None && final(memory).view().len() == 0,
        list_opt is Some ==> r is Some,
        r matches Some(t) ==> {
            let list = list_opt->Some_0@;
            &&& t.rows@.len() <= list.len()
            &&& numbered(t.rows@)
            &&& final(memory).view() == rows_view(t.rows@).map_values(|e: EntryView| e.0)
            &&& texts(t.titles@) == titles_of(cols@)
            &&& (t.warning is Some <==> sort_misses_column(cols@, sort))
            &&& (t.warning matches Some(w) ==> sort matches Some(SortFunc::Post(name)) && w@ == missing_column_text(name@))
            &&& exists|l2: Seq<Value>| source_order(l2, list, sort) && #[trigger] arranged(
                rows_view(t.rows@),
                built_rows(registry@, cols@, l2, filter_pattern(filter), kind@, now as int),
                cols@,
                sort,
                reverse,
            )
            &&& rows_view(t.rows@) == list_rows(registry@, cols@, list, filter_pattern(filter), kind@, now as int, sort, reverse)
        },
{
    let list = match list_opt {
        None => {
            memory.clear_last_objs();
            return None;
        },
        Some(l) => l,
    };
    let ghost orig = list@;
    let is_pre = match &sort {
        Some(SortFunc::Pre) => true,
        _ => false,
    };
    let ordered = if is_pre {
        presort_by_age(list)
    } else {
        list
    };
    let ghost l2 = ordered@;
    assert(ordered@.to_multiset() == orig.to_multiset());
    let built = build_specs(cols, &ordered, registry, filter, kind, now);
    let ghost base = built_rows(registry@, cols@, l2, filter_pattern(filter), kind@, now as int);
    proof {
        lemma_built_rows_len(registry@, cols@, l2, filter_pattern(filter), kind@, now as int);
        ordered@.to_multiset_ensures();
        orig.to_multiset_ensures();
    }
    let titles = column_titles(cols);
    let (final_entries, warning) = arrange(built, cols, &sort, reverse);
    let (rows, handles) = number_rows(final_entries);
    memory.set_last_objs(handles);
    let t = ListTable { titles, rows, warning };
    proof {
        assert(source_order(l2, orig, sort));
        assert(rows_view(t.rows@) == entries_view(final_entries@));
        assert(arranged(rows_view(t.rows@), base, cols@, sort, reverse));
    }
    Some(t)
}

} // verus!
