//! Stable sorting of keyed entries, by creation time or by rendered text.

use vstd::prelude::*;
use crate::text::{lemma_text_le_total, lemma_text_le_trans, text_le, text_le_exec};

verus! {

broadcast use vstd::seq_lib::group_to_multiset_ensures;

/// What entries are ordered by.
pub enum SortKey {
    /// A creation time in seconds since the epoch; the newest (youngest)
    /// come first and a missing time counts as the oldest of all.
    Created(Option<i64>),
    /// Rendered text, in lexicographic order.
    Text(String),
}

/// The order on keys: a total preorder.
pub open spec fn key_le(a: SortKey, b: SortKey) -> bool {
    match (a, b) {
        (SortKey::Created(x), SortKey::Created(y)) => match (x, y) {
            (Some(p), Some(q)) => p >= q,
            (Some(_), None) => true,
            (None, Some(_)) => false,
            (None, None) => true,
        },
        (SortKey::Text(s), SortKey::Text(t)) => text_le(s@, t@),
        (SortKey::Created(_), SortKey::Text(_)) => true,
        (SortKey::Text(_), SortKey::Created(_)) => false,
    }
}

/// Any two keys are ordered one way or the other.
pub proof fn lemma_key_le_total(a: SortKey, b: SortKey)
    ensures
        key_le(a, b) || key_le(b, a),
{
    if let (SortKey::Text(s), SortKey::Text(t)) = (a, b) {
        lemma_text_le_total(s@, t@);
    }
}

/// The order on keys is transitive.
pub proof fn lemma_key_le_trans(a: SortKey, b: SortKey, c: SortKey)
    requires
        key_le(a, b),
        key_le(b, c),
    ensures
        key_le(a, c),
{
    if let (SortKey::Text(s), SortKey::Text(t), SortKey::Text(u)) = (a, b, c) {
        lemma_text_le_trans(s@, t@, u@);
    }
}

/// Compares two keys in the order of `key_le`.
pub fn key_le_exec(a: &SortKey, b: &SortKey) -> (r: bool)
    ensures
        r == key_le(*a, *b),
{
    match (a, b) {
        (SortKey::Created(x), SortKey::Created(y)) => match (x, y) {
            (Some(p), Some(q)) => *p >= *q,
            (Some(_), None) => true,
            (None, Some(_)) => false,
            (None, None) => true,
        },
        (SortKey::Text(s), SortKey::Text(t)) => text_le_exec(s.as_str(), t.as_str()),
        (SortKey::Created(_), SortKey::Text(_)) => true,
        (SortKey::Text(_), SortKey::Created(_)) => false,
    }
}

/// Whether entry `a` comes before entry `b` in a stable sort: its key is not
/// greater, and where the keys tie, its original position is earlier.
pub open spec fn before<T>(a: (SortKey, usize, T), b: (SortKey, usize, T)) -> bool {
    key_le(a.0, b.0) && (key_le(b.0, a.0) ==> a.1 < b.1)
}

/// Entries in stable sorted order.
pub open spec fn stably_sorted<T>(s: Seq<(SortKey, usize, T)>) -> bool {
    forall|i: int, j: int| 0 <= i < j < s.len() ==> before(#[trigger] s[i], #[trigger] s[j])
}

/// `e` inserted into `s` before the first element that `le` does not put
/// at or below `e`.
pub open spec fn insert_sorted<T>(s: Seq<T>, e: T, le: spec_fn(T, T) -> bool) -> Seq<T>
    decreases s.len(),
{
    if s.len() == 0 {
        seq![e]
    } else if !le(s[0], e) {
        seq![e] + s
    } else {
        seq![s[0]] + insert_sorted(s.drop_first(), e, le)
    }
}

/// Insertion sort by `le`: each element in turn is inserted after those it
/// does not precede. For a total preorder this is the stable sort.
pub open spec fn sort_by<T>(s: Seq<T>, le: spec_fn(T, T) -> bool) -> Seq<T>
    decreases s.len(),
{
    if s.len() == 0 {
        Seq::empty()
    } else {
        insert_sorted(sort_by(s.drop_last(), le), s.last(), le)
    }
}

/// Inserting at the first place where `le` fails is `insert_sorted`.
pub proof fn lemma_insert_at_first<T>(s: Seq<T>, e: T, le: spec_fn(T, T) -> bool, p: int)
    requires
        0 <= p <= s.len(),
        forall|k: int| 0 <= k < p ==> le(#[trigger] s[k], e),
        p < s.len() ==> !le(s[p], e),
    ensures
        s.insert(p, e) == insert_sorted(s, e, le),
    decreases p,
{
    if s.len() == 0 {
        assert(s.insert(p, e) =~= seq![e]);
    } else if p == 0 {
        assert(s.insert(0, e) =~= seq![e] + s);
    } else {
        let t = s.drop_first();
        assert forall|k: int| 0 <= k < p - 1 implies le(#[trigger] t[k], e) by {
            assert(t[k] == s[k + 1]);
        }
        if p - 1 < t.len() {
            assert(t[p - 1] == s[p]);
        }
        lemma_insert_at_first(t, e, le, p - 1);
        assert(s.insert(p, e) =~= seq![s[0]] + t.insert(p - 1, e));
    }
}

/// The order of keyed entries by their keys.
pub open spec fn entry_key_le<T>() -> spec_fn((SortKey, usize, T), (SortKey, usize, T)) -> bool {
    |a: (SortKey, usize, T), b: (SortKey, usize, T)| key_le(a.0, b.0)
}

/// Sorts entries by key, keeping entries with equal keys in their original
/// order; each entry carries its original position.
pub fn stable_sort<T>(items: Vec<(SortKey, usize, T)>) -> (r: Vec<(SortKey, usize, T)>)
    requires
        forall|i: int| 0 <= i < items@.len() ==> (#[trigger] items@[i]).1 == i,
    ensures
        r@.to_multiset() == items@.to_multiset(),
        stably_sorted(r@),
        r@ == sort_by(items@, entry_key_le()),
{
    let ghost orig = items@;
    let mut input = items;
    let mut out: Vec<(SortKey, usize, T)> = Vec::new();
    let ghost mut done: int = 0;
    assert(orig.skip(0) == orig);
    assert(orig.take(0).to_multiset() =~= out@.to_multiset());
    assert(out@ =~= sort_by(orig.take(0), entry_key_le()));
    while input.len() > 0
        invariant
            0 <= done <= orig.len(),
            input@ == orig.skip(done),
            out@.to_multiset() == orig.take(done).to_multiset(),
            stably_sorted(out@),
            out@ == sort_by(orig.take(done), entry_key_le()),
            forall|k: int| 0 <= k < out@.len() ==> (#[trigger] out@[k]).1 < done,
            forall|i: int| 0 <= i < orig.len() ==> (#[trigger] orig[i]).1 == i,
        decreases input@.len(),
    {
        let e = input.remove(0);
        assert(e == orig[done]);
        let mut p: usize = 0;
        while p < out.len() && key_le_exec(&out[p].0, &e.0)
            invariant
                p <= out@.len(),
                forall|k: int| 0 <= k < p ==> key_le((#[trigger] out@[k]).0, e.0),
            decreases out@.len() - p,
        {
            p = p + 1;
        }
        proof {
            assert forall|k: int| p <= k < out@.len() implies !key_le((#[trigger] out@[k]).0, e.0) by {
                if key_le(out@[k].0, e.0) {
                    assert(before(out@[p as int], out@[k]));
                    lemma_key_le_trans(out@[p as int].0, out@[k].0, e.0);
                }
            }
        }
        let ghost old_out = out@;
        proof {
            lemma_insert_at_first(old_out, e, entry_key_le(), p as int);
        }
        out.insert(p, e);
        proof {
            assert(orig.skip(done).drop_first() == orig.skip(done + 1));
            assert(orig.take(done + 1) == orig.take(done).push(e));
            assert(orig.take(done + 1).drop_last() == orig.take(done));
            assert(out@ == old_out.insert(p as int, e));
            assert forall|i: int, j: int| 0 <= i < j < out@.len() implies before(
                #[trigger] out@[i],
                #[trigger] out@[j],
            ) by {
                if j < p {
                    assert(out@[i] == old_out[i] && out@[j] == old_out[j]);
                } else if j == p {
                    assert(out@[i] == old_out[i]);
                } else if i == p {
                    assert(out@[j] == old_out[j - 1]);
                    lemma_key_le_total(old_out[j - 1].0, e.0);
                } else if i < p {
                    assert(out@[i] == old_out[i] && out@[j] == old_out[j - 1]);
                } else {
                    assert(out@[i] == old_out[i - 1] && out@[j] == old_out[j - 1]);
                }
            }
            assert forall|k: int| 0 <= k < out@.len() implies (#[trigger] out@[k]).1 < done + 1 by {
                if k < p {
                    assert(out@[k] == old_out[k]);
                } else if k > p {
                    assert(out@[k] == old_out[k - 1]);
                }
            }
            done = done + 1;
        }
    }
    assert(orig.take(done) == orig);
    out
}

} // verus!
