//! Rows of the quality tables and the generic operations on lists of rows:
//! copying, filtering by a search text and sorting by a column.

use vstd::prelude::*;
use crate::models::biz::{Project, project_status_text};
use crate::sorting::{KeyView, SortKey, entries_view, entry_view, sort_entries, stable_sort};
use crate::text::{chars_of, contains_chars, contains_text, lowercase, to_lowercase};

verus! {

/// A task as listed in the task table.
#[derive(Debug, Clone)]
pub struct TaskRecord {
    pub title: String,
    pub status: String,
    pub priority: i32,
}

/// A defect as listed in the bug table.
#[derive(Debug, Clone)]
pub struct BugRecord {
    pub id: i32,
    pub title: String,
    pub severity: String,
    pub status: String,
}

/// A column by which a table can be sorted.
#[derive(Debug, Clone, Copy, PartialEq, Eq, Structural)]
pub enum SortField {
    ProjectName,
    ProjectStatus,
    TaskTitle,
    TaskStatus,
    TaskPriority,
    BugId,
    BugTitle,
    BugSeverity,
    BugStatus,
    AssetName,
    AssetStatus,
}

/// A table row: it can be copied, it has a text that the search filter
/// looks at, and it gives a sort key for the columns of its table.
pub trait Row: Sized {
    /// The text the search filter matches against.
    spec fn search_text(&self) -> Seq<char>;

    /// The key of this row for `field`.
    spec fn key_of(&self, field: SortField) -> KeyView;

    fn duplicate(&self) -> (r: Self)
        ensures
            r == *self;

    fn search_str(&self) -> (r: &str)
        ensures
            r@ == self.search_text();

    fn sort_key(&self, field: SortField) -> (r: SortKey)
        ensures
            r@ == self.key_of(field);
}

impl Row for Project {
    open spec fn search_text(&self) -> Seq<char> {
        self.name@
    }

    open spec fn key_of(&self, field: SortField) -> KeyView {
        match field {
            SortField::ProjectStatus => KeyView::Text(project_status_text(self.status)),
            _ => KeyView::Text(self.name@),
        }
    }

    fn duplicate(&self) -> (r: Self) {
        Project::duplicate(self)
    }

    fn search_str(&self) -> (r: &str) {
        self.name.as_str()
    }

    fn sort_key(&self, field: SortField) -> (r: SortKey) {
        match field {
            SortField::ProjectStatus => SortKey::Text(chars_of(self.status.to_string().as_str())),
            _ => SortKey::Text(chars_of(self.name.as_str())),
        }
    }
}

impl Row for TaskRecord {
    open spec fn search_text(&self) -> Seq<char> {
        self.title@
    }

    open spec fn key_of(&self, field: SortField) -> KeyView {
        match field {
            SortField::TaskStatus => KeyView::Text(self.status@),
            SortField::TaskPriority => KeyView::Number(self.priority as int),
            _ => KeyView::Text(self.title@),
        }
    }

    fn duplicate(&self) -> (r: Self) {
        TaskRecord { title: self.title.clone(), status: self.status.clone(), priority: self.priority }
    }

    fn search_str(&self) -> (r: &str) {
        self.title.as_str()
    }

    fn sort_key(&self, field: SortField) -> (r: SortKey) {
        match field {
            SortField::TaskStatus => SortKey::Text(chars_of(self.status.as_str())),
            SortField::TaskPriority => SortKey::Number(self.priority as i128),
            _ => SortKey::Text(chars_of(self.title.as_str())),
        }
    }
}

impl Row for BugRecord {
    open spec fn search_text(&self) -> Seq<char> {
        self.title@
    }

    open spec fn key_of(&self, field: SortField) -> KeyView {
        match field {
            SortField::BugId => KeyView::Number(self.id as int),
            SortField::BugSeverity => KeyView::Text(self.severity@),
            SortField::BugStatus => KeyView::Text(self.status@),
            _ => KeyView::Text(self.title@),
        }
    }

    fn duplicate(&self) -> (r: Self) {
        BugRecord {
            id: self.id,
            title: self.title.clone(),
            severity: self.severity.clone(),
            status: self.status.clone(),
        }
    }

    fn search_str(&self) -> (r: &str) {
        self.title.as_str()
    }

    fn sort_key(&self, field: SortField) -> (r: SortKey) {
        match field {
            SortField::BugId => SortKey::Number(self.id as i128),
            SortField::BugSeverity => SortKey::Text(chars_of(self.severity.as_str())),
            SortField::BugStatus => SortKey::Text(chars_of(self.status.as_str())),
            _ => SortKey::Text(chars_of(self.title.as_str())),
        }
    }
}

/// An acceptance criterion: its text.
impl Row for String {
    open spec fn search_text(&self) -> Seq<char> {
        self@
    }

    open spec fn key_of(&self, field: SortField) -> KeyView {
        KeyView::Text(self@)
    }

    fn duplicate(&self) -> (r: Self) {
        self.clone()
    }

    fn search_str(&self) -> (r: &str) {
        self.as_str()
    }

    fn sort_key(&self, field: SortField) -> (r: SortKey) {
        SortKey::Text(chars_of(self.as_str()))
    }
}

/// An asset: its name and its state.
impl Row for (String, String) {
    open spec fn search_text(&self) -> Seq<char> {
        self.0@
    }

    open spec fn key_of(&self, field: SortField) -> KeyView {
        match field {
            SortField::AssetStatus => KeyView::Text(self.1@),
            _ => KeyView::Text(self.0@),
        }
    }

    fn duplicate(&self) -> (r: Self) {
        (self.0.clone(), self.1.clone())
    }

    fn search_str(&self) -> (r: &str) {
        self.0.as_str()
    }

    fn sort_key(&self, field: SortField) -> (r: SortKey) {
        match field {
            SortField::AssetStatus => SortKey::Text(chars_of(self.1.as_str())),
            _ => SortKey::Text(chars_of(self.0.as_str())),
        }
    }
}

/// The row's search text, lowercased, contains `query`.
pub open spec fn row_matches<T: Row>(row: T, query: Seq<char>) -> bool {
    contains_text(lowercase(row.search_text()), query)
}

/// The rows whose lowercased search text contains `query`, in order.
pub open spec fn matching_rows<T: Row>(rows: Seq<T>, query: Seq<char>) -> Seq<T> {
    rows.filter(|r: T| row_matches(r, query))
}

/// The rows sorted by `field`, stably, in the requested direction.
pub open spec fn sorted_rows<T: Row>(rows: Seq<T>, field: SortField, ascending: bool) -> Seq<T> {
    sort_entries(rows.map_values(|r: T| (r.key_of(field), r)), ascending).map_values(
        |e: (KeyView, T)| e.1,
    )
}

/// A copy of every row.
pub fn duplicate_rows<T: Row>(rows: &Vec<T>) -> (r: Vec<T>)
    ensures
        r@ == rows@,
{
    let mut r: Vec<T> = Vec::new();
    let mut i: usize = 0;
    while i < rows.len()
        invariant
            i <= rows@.len(),
            r@ == rows@.take(i as int),
        decreases rows@.len() - i,
    {
        r.push(rows[i].duplicate());
        i = i + 1;
        assert(r@ =~= rows@.take(i as int));
    }
    assert(rows@.take(i as int) =~= rows@);
    r
}

/// Copies of the rows that match `query` (see [`matching_rows`]).
pub fn filter_rows<T: Row>(rows: &Vec<T>, query: &Vec<char>) -> (r: Vec<T>)
    ensures
        r@ == matching_rows(rows@, query@),
{
    let ghost pred = |x: T| row_matches(x, query@);
    let mut r: Vec<T> = Vec::new();
    let mut i: usize = 0;
    assert(rows@.take(0) =~= Seq::<T>::empty());
    assert(Seq::<T>::empty().filter(pred) =~= Seq::<T>::empty()) by {
        reveal(Seq::filter);
    }
    while i < rows.len()
        invariant
            i <= rows@.len(),
            pred == (|x: T| row_matches(x, query@)),
            r@ == rows@.take(i as int).filter(pred),
        decreases rows@.len() - i,
    {
        let lowered = to_lowercase(rows[i].search_str());
        let text = chars_of(lowered.as_str());
        let hit = contains_chars(&text, query);
        proof {
            assert(rows@.take(i + 1) =~= rows@.take(i as int).push(rows@[i as int]));
            rows@.take(i as int).lemma_filter_push(rows@[i as int], pred);
            assert(hit == pred(rows@[i as int]));
        }
        if hit {
            r.push(rows[i].duplicate());
        }
        i = i + 1;
    }
    assert(rows@.take(i as int) =~= rows@);
    r
}

/// Sorts the rows by `field` in the requested direction (see
/// [`sorted_rows`]).
pub fn sort_rows<T: Row>(rows: &mut Vec<T>, field: SortField, ascending: bool)
    ensures
        final(rows)@ == sorted_rows(old(rows)@, field, ascending),
{
    let ghost start = old(rows)@;
    let ghost keyed = start.map_values(|r: T| (r.key_of(field), r));
    let mut src: Vec<T> = Vec::new();
    std::mem::swap(&mut src, rows);
    let mut entries: Vec<(SortKey, T)> = Vec::new();
    let ghost mut taken: int = 0;
    while src.len() > 0
        invariant
            0 <= taken <= start.len(),
            taken + src@.len() == start.len(),
            src@ == start.skip(taken),
            keyed == start.map_values(|r: T| (r.key_of(field), r)),
            entries_view(entries@) == keyed.take(taken),
        decreases src@.len(),
    {
        let ghost old_src = src@;
        let row = src.remove(0);
        let key = row.sort_key(field);
        let e = (key, row);
        proof {
            assert(src@ =~= start.skip(taken + 1));
            assert(row == start[taken]);
            crate::sorting::lemma_entries_view_push(entries@, e);
            assert(keyed.take(taken + 1) =~= keyed.take(taken).push(entry_view(e)));
        }
        entries.push(e);
        proof {
            taken = taken + 1;
        }
    }
    assert(keyed.take(taken) =~= keyed);
    let sorted = stable_sort(entries, ascending);
    let ghost sv = entries_view(sorted@);
    proof {
        crate::sorting::lemma_sort_permutes(keyed, ascending);
    }
    let mut rest = sorted;
    let ghost mut done: int = 0;
    while rest.len() > 0
        invariant
            0 <= done <= sv.len(),
            done + rest@.len() == sv.len(),
            entries_view(rest@) == sv.skip(done),
            rows@ == sv.take(done).map_values(|e: (KeyView, T)| e.1),
        decreases rest@.len(),
    {
        let ghost old_rest = rest@;
        let e = rest.remove(0);
        proof {
            assert(entries_view(old_rest)[0] == entry_view(old_rest[0]));
            assert(sv.skip(done)[0] == sv[done]);
            assert forall|i: int| 0 <= i < rest@.len() implies entries_view(rest@)[i] == sv.skip(done + 1)[i] by {
                assert(rest@[i] == old_rest[i + 1]);
                assert(entries_view(old_rest)[i + 1] == sv.skip(done)[i + 1]);
            }
            assert(entries_view(rest@) =~= sv.skip(done + 1));
        }
        rows.push(e.1);
        proof {
            assert(sv.take(done + 1).map_values(|e: (KeyView, T)| e.1) =~= sv.take(done).map_values(|e: (KeyView, T)| e.1).push(e.1));
            done = done + 1;
        }
    }
    assert(sv.take(done) =~= sv);
}

proof fn lemma_map_keeps_same_multiset<A, B>(a: Seq<A>, b: Seq<A>, f: spec_fn(A) -> B)
    requires
        a.to_multiset() == b.to_multiset(),
    ensures
        a.map_values(f).to_multiset() == b.map_values(f).to_multiset(),
    decreases a.len(),
{
    broadcast use vstd::seq_lib::group_to_multiset_ensures;

    if a.len() == 0 {
        assert(a.to_multiset().len() == a.len());
        assert(b.to_multiset().len() == b.len());
        assert(b.len() == 0);
        assert(a.map_values(f) =~= Seq::<B>::empty());
        assert(b.map_values(f) =~= Seq::<B>::empty());
    } else {
        let x = a.last();
        let a1 = a.drop_last();
        assert(a =~= a1.push(x));
        assert(a.to_multiset().count(x) > 0);
        assert(b.contains(x));
        let j = choose|j: int| 0 <= j < b.len() && b[j] == x;
        let b1 = b.remove(j);
        assert(b1.to_multiset() =~= b.to_multiset().remove(x));
        assert(a1.to_multiset() =~= a.to_multiset().remove(x));
        lemma_map_keeps_same_multiset(a1, b1, f);
        assert(a.map_values(f) =~= a1.map_values(f).push(f(x)));
        assert(b.map_values(f).remove(j) =~= b1.map_values(f));
        let bm = b.map_values(f);
        assert(bm[j] == f(x));
        assert(bm.remove(j).to_multiset() =~= bm.to_multiset().remove(f(x)));
        assert(bm.to_multiset().count(f(x)) > 0) by {
            assert(bm.contains(f(x)));
        }
        assert(bm.to_multiset() =~= bm.to_multiset().remove(f(x)).insert(f(x)));
    }
}

/// Sorting a table keeps every row, as often as it occurs, and nothing else.
pub proof fn lemma_sorted_rows_permutes<T: Row>(rows: Seq<T>, field: SortField, ascending: bool)
    ensures
        sorted_rows(rows, field, ascending).len() == rows.len(),
        sorted_rows(rows, field, ascending).to_multiset() == rows.to_multiset(),
{
    let keyed = rows.map_values(|r: T| (r.key_of(field), r));
    crate::sorting::lemma_sort_permutes(keyed, ascending);
    let proj = |e: (KeyView, T)| e.1;
    lemma_map_keeps_same_multiset(sort_entries(keyed, ascending), keyed, proj);
    assert(keyed.map_values(proj) =~= rows);
}

/// After sorting, no row belongs strictly before one that precedes it.
pub proof fn lemma_sorted_rows_ordered<T: Row>(rows: Seq<T>, field: SortField, ascending: bool)
    ensures
        forall|i: int, j: int|
            0 <= i < j < sorted_rows(rows, field, ascending).len() ==> !crate::sorting::before(
                #[trigger] sorted_rows(rows, field, ascending)[j].key_of(field),
                #[trigger] sorted_rows(rows, field, ascending)[i].key_of(field),
                ascending,
            ),
{
    let keyed = rows.map_values(|r: T| (r.key_of(field), r));
    let sorted = sort_entries(keyed, ascending);
    crate::sorting::lemma_sort_sorted(keyed, ascending);
    crate::sorting::lemma_sort_permutes(keyed, ascending);
    // every entry keeps the key of its row
    assert forall|i: int| 0 <= i < sorted.len() implies #[trigger] sorted[i].0 == sorted[i].1.key_of(field) by {
        broadcast use vstd::seq_lib::group_to_multiset_ensures;
        assert(sorted.contains(sorted[i]));
        assert(sorted.to_multiset().count(sorted[i]) > 0);
        assert(keyed.contains(sorted[i]));
    }
    let out = sorted_rows(rows, field, ascending);
    assert forall|i: int, j: int| 0 <= i < j < out.len() implies !crate::sorting::before(
        #[trigger] out[j].key_of(field),
        #[trigger] out[i].key_of(field),
        ascending,
    ) by {
        assert(out[i] == sorted[i].1);
        assert(out[j] == sorted[j].1);
        assert(sorted[i].0 == sorted[i].1.key_of(field));
        assert(sorted[j].0 == sorted[j].1.key_of(field));
    }
}

} // verus!
