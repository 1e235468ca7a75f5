//! Stable sorting of table rows by a column key, ascending or descending,
//! with the order that `slice::sort_by` gives for a comparator built from
//! `Ord::cmp` on the key.

use vstd::prelude::*;
use crate::text::{compare_chars, text_lt};

verus! {

/// The value a row is ordered by: the text of a column or a number.
pub enum SortKey {
    Text(Vec<char>),
    Number(i128),
}

/// Mathematical value of a [`SortKey`].
pub enum KeyView {
    Text(Seq<char>),
    Number(int),
}

impl View for SortKey {
    type V = KeyView;

    open spec fn view(&self) -> KeyView {
        match self {
            SortKey::Text(v) => KeyView::Text(v@),
            SortKey::Number(n) => KeyView::Number(*n as int),
        }
    }
}

/// Strict order on keys: text by code points, numbers by value (a column
/// holds keys of one kind; texts are put before numbers to make the order
/// total).
pub open spec fn key_lt(a: KeyView, b: KeyView) -> bool {
    match (a, b) {
        (KeyView::Text(x), KeyView::Text(y)) => text_lt(x, y),
        (KeyView::Number(x), KeyView::Number(y)) => x < y,
        (KeyView::Text(_), KeyView::Number(_)) => true,
        (KeyView::Number(_), KeyView::Text(_)) => false,
    }
}

/// In the requested direction, a row with key `a` belongs strictly before a
/// row with key `b`.
pub open spec fn before(a: KeyView, b: KeyView, ascending: bool) -> bool {
    if ascending {
        key_lt(a, b)
    } else {
        key_lt(b, a)
    }
}

/// A row paired with its key, as the sort sees it.
pub open spec fn entry_view<T>(e: (SortKey, T)) -> (KeyView, T) {
    (e.0@, e.1)
}

pub open spec fn entries_view<T>(s: Seq<(SortKey, T)>) -> Seq<(KeyView, T)> {
    s.map_values(|e: (SortKey, T)| entry_view(e))
}

pub proof fn lemma_entries_view_push<T>(s: Seq<(SortKey, T)>, e: (SortKey, T))
    ensures
        entries_view(s.push(e)) == entries_view(s).push(entry_view(e)),
{
    assert(entries_view(s.push(e)) =~= entries_view(s).push(entry_view(e)));
}

/// Inserts `e` into `s` after every entry it does not belong strictly before,
/// scanning from the back.
pub open spec fn insert_sorted<T>(s: Seq<(KeyView, T)>, e: (KeyView, T), ascending: bool) -> Seq<
    (KeyView, T),
>
    decreases s.len(),
{
    if s.len() == 0 || !before(e.0, s.last().0, ascending) {
        s.push(e)
    } else {
        insert_sorted(s.drop_last(), e, ascending).push(s.last())
    }
}

/// The stable sort of `s` by key in the requested direction: each entry, in
/// the order given, is inserted after the entries it does not belong
/// before. Entries with equal keys keep the order they came in.
pub open spec fn sort_entries<T>(s: Seq<(KeyView, T)>, ascending: bool) -> Seq<(KeyView, T)>
    decreases s.len(),
{
    if s.len() == 0 {
        s
    } else {
        insert_sorted(sort_entries(s.drop_last(), ascending), s.last(), ascending)
    }
}

/// No entry belongs strictly before an entry that precedes it.
pub open spec fn is_sorted<T>(s: Seq<(KeyView, T)>, ascending: bool) -> bool {
    forall|i: int, j: int| 0 <= i < j < s.len() ==> !before(#[trigger] s[j].0, #[trigger] s[i].0, ascending)
}

/// The entries of `s` whose key is `k`, in order.
pub open spec fn with_key<T>(s: Seq<(KeyView, T)>, k: KeyView) -> Seq<(KeyView, T)> {
    s.filter(|e: (KeyView, T)| e.0 == k)
}

// ---------------------------------------------------------------------------
// Order facts

proof fn lemma_text_lt_irreflexive(a: Seq<char>)
    ensures
        !text_lt(a, a),
    decreases a.len(),
{
    if a.len() > 0 {
        lemma_text_lt_irreflexive(a.drop_first());
    }
}

proof fn lemma_text_lt_connected(a: Seq<char>, b: Seq<char>)
    ensures
        a != b ==> text_lt(a, b) || text_lt(b, a),
        !(text_lt(a, b) && text_lt(b, a)),
    decreases a.len(),
{
    if a.len() > 0 && b.len() > 0 {
        lemma_text_lt_connected(a.drop_first(), b.drop_first());
        if a[0] == b[0] && a.drop_first() == b.drop_first() {
            assert(a =~= seq![a[0]] + a.drop_first());
            assert(b =~= seq![b[0]] + b.drop_first());
        }
    } else if a.len() == 0 && b.len() == 0 {
        assert(a =~= b);
    }
}

proof fn lemma_text_lt_transitive(a: Seq<char>, b: Seq<char>, c: Seq<char>)
    requires
        text_lt(a, b),
        text_lt(b, c),
    ensures
        text_lt(a, c),
    decreases a.len(),
{
    if a.len() > 0 && b.len() > 0 && c.len() > 0 {
        if a[0] == b[0] && b[0] == c[0] {
            lemma_text_lt_transitive(a.drop_first(), b.drop_first(), c.drop_first());
        }
    }
}

/// `key_lt` is a strict total order.
pub proof fn lemma_key_lt_order(a: KeyView, b: KeyView, c: KeyView)
    ensures
        !key_lt(a, a),
        a != b ==> key_lt(a, b) || key_lt(b, a),
        !(key_lt(a, b) && key_lt(b, a)),
        key_lt(a, b) && key_lt(b, c) ==> key_lt(a, c),
{
    match (a, b, c) {
        (KeyView::Text(x), KeyView::Text(y), KeyView::Text(z)) => {
            lemma_text_lt_irreflexive(x);
            lemma_text_lt_connected(x, y);
            if text_lt(x, y) && text_lt(y, z) {
                lemma_text_lt_transitive(x, y, z);
            }
        },
        (KeyView::Text(x), _, _) => {
            lemma_text_lt_irreflexive(x);
            match b {
                KeyView::Text(y) => {
                    lemma_text_lt_connected(x, y);
                },
                _ => {},
            }
        },
        _ => {},
    }
}

proof fn lemma_before_order(a: KeyView, b: KeyView, c: KeyView, ascending: bool)
    ensures
        !before(a, a, ascending),
        a != b ==> before(a, b, ascending) || before(b, a, ascending),
        !(before(a, b, ascending) && before(b, a, ascending)),
        before(a, b, ascending) && before(b, c, ascending) ==> before(a, c, ascending),
        !before(a, b, ascending) && !before(b, c, ascending) ==> !before(a, c, ascending),
{
    lemma_key_lt_order(a, b, c);
    lemma_key_lt_order(c, b, a);
    lemma_key_lt_order(a, c, b);
    lemma_key_lt_order(b, a, c);
    lemma_key_lt_order(c, a, b);
    lemma_key_lt_order(b, c, a);
}

// ---------------------------------------------------------------------------
// Shape of an insertion

/// The position at which `insert_sorted` puts `e`: just after the last entry
/// that `e` does not belong strictly before.
pub open spec fn insert_position<T>(s: Seq<(KeyView, T)>, e: (KeyView, T), ascending: bool) -> int
    decreases s.len(),
{
    if s.len() == 0 || !before(e.0, s.last().0, ascending) {
        s.len() as int
    } else {
        insert_position(s.drop_last(), e, ascending)
    }
}

proof fn lemma_insert_shape<T>(s: Seq<(KeyView, T)>, e: (KeyView, T), ascending: bool)
    ensures
        0 <= insert_position(s, e, ascending) <= s.len(),
        insert_sorted(s, e, ascending) == s.take(insert_position(s, e, ascending)).push(e) + s.skip(
            insert_position(s, e, ascending),
        ),
        forall|j: int|
            insert_position(s, e, ascending) <= j < s.len() ==> before(e.0, #[trigger] s[j].0, ascending),
        insert_position(s, e, ascending) > 0 ==> !before(
            e.0,
            s[insert_position(s, e, ascending) - 1].0,
            ascending,
        ),
    decreases s.len(),
{
    let p = insert_position(s, e, ascending);
    if s.len() == 0 || !before(e.0, s.last().0, ascending) {
        assert(s.take(s.len() as int) == s);
        assert(s.skip(s.len() as int) =~= Seq::<(KeyView, T)>::empty());
        assert(s.take(p).push(e) + s.skip(p) =~= s.push(e));
    } else {
        let t = s.drop_last();
        lemma_insert_shape(t, e, ascending);
        assert(p == insert_position(t, e, ascending));
        assert(t.take(p) =~= s.take(p));
        assert(t.skip(p).push(s.last()) =~= s.skip(p));
        assert((t.take(p).push(e) + t.skip(p)).push(s.last()) =~= s.take(p).push(e) + s.skip(p));
        assert forall|j: int| p <= j < s.len() implies before(e.0, #[trigger] s[j].0, ascending) by {
            if j < t.len() {
                assert(s[j] == t[j]);
            }
        }
        if p > 0 {
            assert(s[p - 1] == t[p - 1]);
        }
    }
}

// ---------------------------------------------------------------------------
// Laws of the sort

proof fn lemma_insert_len_multiset<T>(s: Seq<(KeyView, T)>, e: (KeyView, T), ascending: bool)
    ensures
        insert_sorted(s, e, ascending).len() == s.len() + 1,
        insert_sorted(s, e, ascending).to_multiset() == s.to_multiset().insert(e),
    decreases s.len(),
{
    broadcast use vstd::seq_lib::group_to_multiset_ensures;

    if s.len() == 0 || !before(e.0, s.last().0, ascending) {
    } else {
        lemma_insert_len_multiset(s.drop_last(), e, ascending);
        assert(s =~= s.drop_last().push(s.last()));
        assert(s.to_multiset() == s.drop_last().to_multiset().insert(s.last()));
        assert(s.to_multiset().insert(e) =~= s.drop_last().to_multiset().insert(e).insert(s.last()));
    }
}

/// Sorting keeps every entry, as often as it occurs, and nothing else.
pub proof fn lemma_sort_permutes<T>(s: Seq<(KeyView, T)>, ascending: bool)
    ensures
        sort_entries(s, ascending).len() == s.len(),
        sort_entries(s, ascending).to_multiset() == s.to_multiset(),
    decreases s.len(),
{
    broadcast use vstd::seq_lib::group_to_multiset_ensures;

    if s.len() > 0 {
        lemma_sort_permutes(s.drop_last(), ascending);
        lemma_insert_len_multiset(sort_entries(s.drop_last(), ascending), s.last(), ascending);
        assert(s =~= s.drop_last().push(s.last()));
        assert(s.to_multiset() == s.drop_last().to_multiset().insert(s.last()));
    }
}

proof fn lemma_insert_keeps_sorted<T>(s: Seq<(KeyView, T)>, e: (KeyView, T), ascending: bool)
    requires
        is_sorted(s, ascending),
    ensures
        is_sorted(insert_sorted(s, e, ascending), ascending),
{
    lemma_insert_shape(s, e, ascending);
    let p = insert_position(s, e, ascending);
    let r = insert_sorted(s, e, ascending);
    assert(r.len() == s.len() + 1);
    assert forall|i: int, j: int| 0 <= i < j < r.len() implies !before(
        #[trigger] r[j].0,
        #[trigger] r[i].0,
        ascending,
    ) by {
        // r = s[0..p] ++ [e] ++ s[p..]
        let ri = if i < p { s[i] } else if i == p { e } else { s[i - 1] };
        let rj = if j < p { s[j] } else if j == p { e } else { s[j - 1] };
        assert(r[i] == ri);
        assert(r[j] == rj);
        if j < p {
        } else if j == p {
            // e after s[i], i < p: s[i] <= s[p-1] <= e
            lemma_before_order(e.0, s[p - 1].0, s[i].0, ascending);
            if i < p - 1 {
                assert(!before(s[p - 1].0, s[i].0, ascending));
            }
        } else if i == p {
            // s[j-1] with j - 1 >= p: e belongs strictly before it
            assert(before(e.0, s[j - 1].0, ascending));
            lemma_before_order(e.0, s[j - 1].0, e.0, ascending);
        } else if i < p {
            assert(!before(s[j - 1].0, s[i].0, ascending));
        } else {
            assert(!before(s[j - 1].0, s[i - 1].0, ascending));
        }
    }
}

/// The sort puts entries in order: no entry belongs strictly before one that
/// precedes it.
pub proof fn lemma_sort_sorted<T>(s: Seq<(KeyView, T)>, ascending: bool)
    ensures
        is_sorted(sort_entries(s, ascending), ascending),
    decreases s.len(),
{
    if s.len() > 0 {
        lemma_sort_sorted(s.drop_last(), ascending);
        lemma_insert_keeps_sorted(sort_entries(s.drop_last(), ascending), s.last(), ascending);
    }
}

proof fn lemma_insert_with_key<T>(s: Seq<(KeyView, T)>, e: (KeyView, T), ascending: bool, k: KeyView)
    ensures
        with_key(insert_sorted(s, e, ascending), k) == if e.0 == k {
            with_key(s, k).push(e)
        } else {
            with_key(s, k)
        },
    decreases s.len(),
{
    reveal(Seq::filter);
    if s.len() == 0 || !before(e.0, s.last().0, ascending) {
        assert(s.push(e).drop_last() == s);
    } else {
        let t = s.drop_last();
        lemma_insert_with_key(t, e, ascending, k);
        let r = insert_sorted(t, e, ascending);
        assert(r.push(s.last()).drop_last() == r);
        assert(s.drop_last() == t);
        lemma_before_order(e.0, s.last().0, e.0, ascending);
        if s.last().0 == k && e.0 == k {
            assert(false);
        }
    }
}

/// Stability: for every key, the entries with that key come out in the
/// order they went in.
pub proof fn lemma_sort_stable<T>(s: Seq<(KeyView, T)>, ascending: bool, k: KeyView)
    ensures
        with_key(sort_entries(s, ascending), k) == with_key(s, k),
    decreases s.len(),
{
    reveal(Seq::filter);
    if s.len() > 0 {
        let t = s.drop_last();
        lemma_sort_stable(t, ascending, k);
        lemma_insert_with_key(sort_entries(t, ascending), s.last(), ascending, k);
    }
}

/// Sorting an already sorted sequence leaves it unchanged; in particular
/// sorting twice is sorting once.
pub proof fn lemma_sort_sorted_is_identity<T>(s: Seq<(KeyView, T)>, ascending: bool)
    requires
        is_sorted(s, ascending),
    ensures
        sort_entries(s, ascending) == s,
    decreases s.len(),
{
    if s.len() > 0 {
        let t = s.drop_last();
        assert(is_sorted(t, ascending)) by {
            assert forall|i: int, j: int| 0 <= i < j < t.len() implies !before(
                #[trigger] t[j].0,
                #[trigger] t[i].0,
                ascending,
            ) by {
                assert(t[i] == s[i] && t[j] == s[j]);
            }
        }
        lemma_sort_sorted_is_identity(t, ascending);
        if t.len() > 0 {
            assert(t.last() == s[s.len() - 2]);
            assert(!before(s[s.len() - 1].0, s[s.len() - 2].0, ascending));
        }
        assert(t.push(s.last()) =~= s);
    }
}

/// Sorting twice gives the same rows as sorting once.
pub proof fn lemma_sort_idempotent<T>(s: Seq<(KeyView, T)>, ascending: bool)
    ensures
        sort_entries(sort_entries(s, ascending), ascending) == sort_entries(s, ascending),
{
    lemma_sort_sorted(s, ascending);
    lemma_sort_sorted_is_identity(sort_entries(s, ascending), ascending);
}

// ---------------------------------------------------------------------------
// Executable sort

/// Whether a row with key `a` belongs strictly before one with key `b`.
pub fn key_before(a: &SortKey, b: &SortKey, ascending: bool) -> (r: bool)
    ensures
        r == before(a@, b@, ascending),
{
    let lt_ab;
    let lt_ba;
    match (a, b) {
        (SortKey::Text(x), SortKey::Text(y)) => {
            let c = compare_chars(x, y);
            lt_ab = c == -1;
            lt_ba = c == 1;
        },
        (SortKey::Number(x), SortKey::Number(y)) => {
            lt_ab = *x < *y;
            lt_ba = *y < *x;
        },
        (SortKey::Text(_), SortKey::Number(_)) => {
            lt_ab = true;
            lt_ba = false;
        },
        (SortKey::Number(_), SortKey::Text(_)) => {
            lt_ab = false;
            lt_ba = true;
        },
    }
    if ascending {
        lt_ab
    } else {
        lt_ba
    }
}

/// Sorts rows by key, stably, in the requested direction.
pub fn stable_sort<T>(entries: Vec<(SortKey, T)>, ascending: bool) -> (r: Vec<(SortKey, T)>)
    ensures
        entries_view(r@) == sort_entries(entries_view(entries@), ascending),
{
    let ghost all = entries_view(entries@);
    let mut rest = entries;
    let mut out: Vec<(SortKey, T)> = Vec::new();
    let ghost mut taken: int = 0;
    assert(all.take(0) =~= Seq::<(KeyView, T)>::empty());
    while rest.len() > 0
        invariant
            0 <= taken <= all.len(),
            taken + rest@.len() == all.len(),
            entries_view(rest@) == all.skip(taken),
            entries_view(out@) == sort_entries(all.take(taken), ascending),
        decreases rest@.len(),
    {
        let ghost old_rest = rest@;
        let e = rest.remove(0);
        proof {
            assert(e == old_rest[0]);
            assert(entries_view(old_rest)[0] == entry_view(old_rest[0]));
            assert(all.skip(taken)[0] == all[taken]);
            assert forall|i: int| 0 <= i < rest@.len() implies entries_view(rest@)[i] == all.skip(taken + 1)[i] by {
                assert(rest@[i] == old_rest[i + 1]);
                assert(entries_view(old_rest)[i + 1] == all.skip(taken)[i + 1]);
            }
            assert(entries_view(rest@) =~= all.skip(taken + 1));
            assert(entry_view(e) == all[taken]);
        }
        let ghost before_out = entries_view(out@);
        let mut p = out.len();
        assert(before_out.take(p as int) =~= before_out);
        while p > 0 && key_before(&e.0, &out[p - 1].0, ascending)
            invariant
                p <= out@.len(),
                entries_view(out@) == before_out,
                insert_position(before_out, entry_view(e), ascending) == insert_position(
                    before_out.take(p as int),
                    entry_view(e),
                    ascending,
                ),
            decreases p,
        {
            proof {
                let t = before_out.take(p as int);
                assert(t.drop_last() =~= before_out.take(p - 1));
                assert(t.last() == entry_view(out@[p - 1]));
            }
            p = p - 1;
        }
        proof {
            let t = before_out.take(p as int);
            assert(before_out.take(before_out.len() as int) == before_out);
            if p > 0 {
                assert(t.last() == entry_view(out@[p - 1]));
            }
            assert(insert_position(t, entry_view(e), ascending) == p);
            lemma_insert_shape(before_out, entry_view(e), ascending);
        }
        out.insert(p, e);
        proof {
            assert(entries_view(out@) =~= before_out.take(p as int).push(all[taken]) + before_out.skip(p as int));
            assert(all.take(taken + 1).drop_last() =~= all.take(taken));
            assert(all.take(taken + 1).last() == all[taken]);
            taken = taken + 1;
        }
    }
    assert(all.take(taken) =~= all);
    out
}

} // verus!
