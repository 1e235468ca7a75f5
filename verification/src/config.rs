//! Persistent settings: sidebar geometry, the depth of the CPU history and
//! the column layout of every table, with the repair rules that keep a loaded
//! configuration usable.

use vstd::prelude::*;
use vstd::pervasive::VecAdditionalExecFns;

verus! {

broadcast use {
    vstd::string::group_string_axioms,
    vstd::map_lib::group_map_properties,
    vstd::map_lib::group_map_union,
};

/// Sort state of a table column.
#[derive(Debug, Clone, Copy, PartialEq, Eq, Structural)]
pub enum SortOrder {
    Unsorted,
    Asc,
    Desc,
}

/// The state that follows `o` when a column header is activated:
/// none, then ascending, then descending, then none again.
pub open spec fn next_order(o: SortOrder) -> SortOrder {
    match o {
        SortOrder::Unsorted => SortOrder::Asc,
        SortOrder::Asc => SortOrder::Desc,
        SortOrder::Desc => SortOrder::Unsorted,
    }
}

impl SortOrder {
    /// The next state in the cycle none, ascending, descending.
    pub fn next(self) -> (r: SortOrder)
        ensures
            r == next_order(self),
    {
        match self {
            SortOrder::Unsorted => SortOrder::Asc,
            SortOrder::Asc => SortOrder::Desc,
            SortOrder::Desc => SortOrder::Unsorted,
        }
    }
}

/// Activating a header three times brings its sort state back.
pub proof fn lemma_sort_cycle(o: SortOrder)
    ensures
        next_order(next_order(next_order(o))) == o,
        next_order(o) != o,
{
}

/// One column of a table: its title, whether it is shown, its width as a
/// percentage of the table and its sort state.
#[derive(Debug)]
pub struct ColumnConfig {
    pub name: String,
    pub visible: bool,
    pub width: u16,
    pub sort: SortOrder,
}

/// Mathematical value of a [`ColumnConfig`].
pub struct ColumnView {
    pub name: Seq<char>,
    pub visible: bool,
    pub width: u16,
    pub sort: SortOrder,
}

impl View for ColumnConfig {
    type V = ColumnView;

    open spec fn view(&self) -> ColumnView {
        ColumnView { name: self.name@, visible: self.visible, width: self.width, sort: self.sort }
    }
}

impl ColumnConfig {
    /// A column with the given title and width, shown and unsorted.
    pub fn new(name: &str, width: u16) -> (c: ColumnConfig)
        ensures
            c@ == (ColumnView { name: name@, visible: true, width, sort: SortOrder::Unsorted }),
    {
        ColumnConfig { name: name.to_string(), visible: true, width, sort: SortOrder::Unsorted }
    }

    /// A copy of this column.
    pub fn duplicate(&self) -> (c: ColumnConfig)
        ensures
            c@ == self@,
    {
        ColumnConfig { name: self.name.clone(), visible: self.visible, width: self.width, sort: self.sort }
    }
}

pub open spec fn columns_view(v: Seq<ColumnConfig>) -> Seq<ColumnView> {
    v.map_values(|c: ColumnConfig| c@)
}

proof fn lemma_columns_view_push(s: Seq<ColumnConfig>, c: ColumnConfig)
    ensures
        columns_view(s.push(c)) == columns_view(s).push(c@),
{
    assert(columns_view(s.push(c)) =~= columns_view(s).push(c@));
}

proof fn lemma_columns_view_update(s: Seq<ColumnConfig>, i: int, c: ColumnConfig)
    requires
        0 <= i < s.len(),
    ensures
        columns_view(s.update(i, c)) == columns_view(s).update(i, c@),
{
    assert(columns_view(s.update(i, c)) =~= columns_view(s).update(i, c@));
}

/// A copy of a column list.
pub fn duplicate_columns(v: &Vec<ColumnConfig>) -> (r: Vec<ColumnConfig>)
    ensures
        columns_view(r@) == columns_view(v@),
{
    let mut r: Vec<ColumnConfig> = Vec::new();
    let mut i: usize = 0;
    while i < v.len()
        invariant
            i <= v@.len(),
            columns_view(r@) == columns_view(v@).take(i as int),
        decreases v@.len() - i,
    {
        let c = v[i].duplicate();
        proof {
            lemma_columns_view_push(r@, c);
            assert(columns_view(v@)[i as int] == v@[i as int]@);
            assert(columns_view(v@).take(i + 1) =~= columns_view(v@).take(i as int).push(c@));
        }
        r.push(c);
        i = i + 1;
    }
    assert(columns_view(v@).take(i as int) =~= columns_view(v@));
    r
}

// ---------------------------------------------------------------------------
// Column tables

/// The column layouts of all tables, keyed by table name. No name occurs
/// twice.
pub struct ColumnTable {
    entries: Vec<(String, Vec<ColumnConfig>)>,
}

/// The keys and column lists of a sequence of table entries.
pub open spec fn pairs_view(s: Seq<(String, Vec<ColumnConfig>)>) -> Seq<(Seq<char>, Seq<ColumnView>)> {
    s.map_values(|e: (String, Vec<ColumnConfig>)| (e.0@, columns_view(e.1@)))
}

/// The map that inserting the pairs of `s` one after another into an empty
/// map builds (a later pair replaces an earlier one with the same key).
proof fn lemma_pairs_view_push(s: Seq<(String, Vec<ColumnConfig>)>, e: (String, Vec<ColumnConfig>))
    ensures
        pairs_view(s.push(e)) == pairs_view(s).push((e.0@, columns_view(e.1@))),
{
    assert(pairs_view(s.push(e)) =~= pairs_view(s).push((e.0@, columns_view(e.1@))));
}

proof fn lemma_pairs_view_update(s: Seq<(String, Vec<ColumnConfig>)>, i: int, e: (String, Vec<ColumnConfig>))
    requires
        0 <= i < s.len(),
    ensures
        pairs_view(s.update(i, e)) == pairs_view(s).update(i, (e.0@, columns_view(e.1@))),
{
    assert(pairs_view(s.update(i, e)) =~= pairs_view(s).update(i, (e.0@, columns_view(e.1@))));
}

pub open spec fn map_of_pairs(s: Seq<(Seq<char>, Seq<ColumnView>)>) -> Map<Seq<char>, Seq<ColumnView>>
    decreases s.len(),
{
    if s.len() == 0 {
        Map::empty()
    } else {
        map_of_pairs(s.drop_last()).insert(s.last().0, s.last().1)
    }
}

pub open spec fn keys_distinct(s: Seq<(Seq<char>, Seq<ColumnView>)>) -> bool {
    forall|i: int, j: int| 0 <= i < j < s.len() ==> #[trigger] s[i].0 != #[trigger] s[j].0
}

proof fn lemma_map_of_pairs<'a>(s: Seq<(Seq<char>, Seq<ColumnView>)>)
    requires
        keys_distinct(s),
    ensures
        forall|k: Seq<char>| #[trigger] map_of_pairs(s).dom().contains(k) <==> exists|i: int| 0 <= i < s.len() && s[i].0 == k,
        forall|i: int| 0 <= i < s.len() ==> #[trigger] map_of_pairs(s)[s[i].0] == s[i].1,
        map_of_pairs(s).dom().finite(),
    decreases s.len(),
{
    if s.len() > 0 {
        let t = s.drop_last();
        assert(keys_distinct(t)) by {
            assert forall|i: int, j: int| 0 <= i < j < t.len() implies #[trigger] t[i].0 != #[trigger] t[j].0 by {
                assert(t[i] == s[i] && t[j] == s[j]);
            }
        }
        lemma_map_of_pairs(t);
        assert forall|k: Seq<char>| #[trigger] map_of_pairs(s).dom().contains(k) <==> exists|i: int| 0 <= i < s.len() && s[i].0 == k by {
            if map_of_pairs(s).dom().contains(k) {
                if k == s.last().0 {
                    assert(s[s.len() - 1].0 == k);
                } else {
                    let i = choose|i: int| 0 <= i < t.len() && t[i].0 == k;
                    assert(s[i] == t[i]);
                }
            }
            if exists|i: int| 0 <= i < s.len() && s[i].0 == k {
                let i = choose|i: int| 0 <= i < s.len() && s[i].0 == k;
                if i < t.len() {
                    assert(t[i] == s[i]);
                }
            }
        }
        assert forall|i: int| 0 <= i < s.len() implies #[trigger] map_of_pairs(s)[s[i].0] == s[i].1 by {
            if i < t.len() {
                assert(t[i] == s[i]);
                assert(s[i].0 != s[s.len() - 1].0);
            }
        }
    }
}

impl ColumnTable {
    #[verifier::type_invariant]
    closed spec fn wf(&self) -> bool {
        keys_distinct(pairs_view(self.entries@))
    }

    /// The entries as key and column-list values, in storage order.
    pub closed spec fn pairs(&self) -> Seq<(Seq<char>, Seq<ColumnView>)> {
        pairs_view(self.entries@)
    }
}

impl View for ColumnTable {
    type V = Map<Seq<char>, Seq<ColumnView>>;

    closed spec fn view(&self) -> Map<Seq<char>, Seq<ColumnView>> {
        map_of_pairs(pairs_view(self.entries@))
    }
}

impl ColumnTable {
    /// A table with no entries.
    pub fn new() -> (t: ColumnTable)
        ensures
            t@ == Map::<Seq<char>, Seq<ColumnView>>::empty(),
    {
        let t = ColumnTable { entries: Vec::new() };
        assert(pairs_view(t.entries@) =~= Seq::empty());
        t
    }

    /// The storage index of `key`, if present.
    fn find(&self, key: &str) -> (r: Option<usize>)
        ensures
            match r {
                Some(i) => i < self.pairs().len() && self.pairs()[i as int].0 == key@,
                None => forall|i: int| 0 <= i < self.pairs().len() ==> #[trigger] self.pairs()[i].0 != key@,
            },
    {
        let mut i: usize = 0;
        while i < self.entries.len()
            invariant
                i <= self.entries@.len(),
                forall|j: int| 0 <= j < i ==> #[trigger] pairs_view(self.entries@)[j].0 != key@,
            decreases self.entries@.len() - i,
        {
            if crate::text::text_eq(self.entries[i].0.as_str(), key) {
                return Some(i);
            }
            i = i + 1;
        }
        None
    }

    /// Whether a table named `key` has a layout.
    pub fn contains_key(&self, key: &str) -> (r: bool)
        ensures
            r == self@.dom().contains(key@),
    {
        proof {
            use_type_invariant(self);
            lemma_map_of_pairs(self.pairs());
        }
        match self.find(key) {
            Some(_) => true,
            None => false,
        }
    }

    /// The column layout of table `key`, if present.
    pub fn get(&self, key: &str) -> (r: Option<&Vec<ColumnConfig>>)
        ensures
            match r {
                Some(v) => self@.dom().contains(key@) && self@[key@] == columns_view(v@),
                None => !self@.dom().contains(key@),
            },
    {
        proof {
            use_type_invariant(self);
            lemma_map_of_pairs(self.pairs());
        }
        match self.find(key) {
            Some(i) => {
                assert(self.pairs()[i as int] == (self.entries@[i as int].0@, columns_view(self.entries@[i as int].1@)));
                Some(&self.entries[i].1)
            },
            None => None,
        }
    }

    /// Sets the layout of table `key`, replacing any earlier one.
    pub fn insert(&mut self, key: String, cols: Vec<ColumnConfig>)
        ensures
            final(self)@ == old(self)@.insert(key@, columns_view(cols@)),
    {
        proof {
            use_type_invariant(&*self);
            lemma_map_of_pairs(self.pairs());
        }
        let ghost old_map = self@;
        let found = self.find(key.as_str());
        let mut entries: Vec<(String, Vec<ColumnConfig>)> = Vec::new();
        std::mem::swap(&mut entries, &mut self.entries);
        let ghost old_pairs = pairs_view(entries@);
        match found {
            Some(i) => {
                entries.set(i, (key, cols));
                proof {
                    let np = pairs_view(entries@);
                    assert(np =~= old_pairs.update(i as int, np[i as int]));
                    assert(keys_distinct(np)) by {
                        assert forall|a: int, b: int| 0 <= a < b < np.len() implies #[trigger] np[a].0 != #[trigger] np[b].0 by {
                            assert(np[a].0 == old_pairs[a].0);
                            assert(np[b].0 == old_pairs[b].0);
                        }
                    }
                    lemma_map_of_pairs(np);
                    assert forall|k: Seq<char>| #[trigger] map_of_pairs(np).dom().contains(k) <==> old_map.insert(np[i as int].0, np[i as int].1).dom().contains(k) by {
                        if old_map.dom().contains(k) {
                            let j = choose|j: int| 0 <= j < old_pairs.len() && old_pairs[j].0 == k;
                            assert(np[j].0 == k);
                        }
                        if map_of_pairs(np).dom().contains(k) {
                            let j = choose|j: int| 0 <= j < np.len() && np[j].0 == k;
                            assert(old_pairs[j].0 == k);
                        }
                    }
                    assert forall|k: Seq<char>| #[trigger] map_of_pairs(np).dom().contains(k) implies map_of_pairs(np)[k] == old_map.insert(np[i as int].0, np[i as int].1)[k] by {
                        let j = choose|j: int| 0 <= j < np.len() && np[j].0 == k;
                        if j != i {
                            assert(old_pairs[j] == np[j]);
                        }
                    }
                    assert(map_of_pairs(np) =~= old_map.insert(np[i as int].0, np[i as int].1));
                }
            },
            None => {
                entries.push((key, cols));
                proof {
                    let np = pairs_view(entries@);
                    assert(np.drop_last() =~= old_pairs);
                    assert(keys_distinct(np)) by {
                        assert forall|a: int, b: int| 0 <= a < b < np.len() implies #[trigger] np[a].0 != #[trigger] np[b].0 by {
                            assert(np[a] == old_pairs[a]);
                            if b < old_pairs.len() {
                                assert(np[b] == old_pairs[b]);
                            }
                        }
                    }
                }
            },
        }
        self.entries = entries;
    }

    /// Applies [`repair_columns`] to every layout.
    pub fn repair_all(&mut self)
        ensures
            final(self)@ == old(self)@.map_values(|v: Seq<ColumnView>| repair_columns(v)),
    {
        proof {
            use_type_invariant(&*self);
            lemma_map_of_pairs(self.pairs());
        }
        let ghost old_map = self@;
        let ghost old_pairs = self.pairs();
        let mut entries: Vec<(String, Vec<ColumnConfig>)> = Vec::new();
        std::mem::swap(&mut entries, &mut self.entries);
        let mut i: usize = 0;
        while i < entries.len()
            invariant
                i <= entries@.len(),
                pairs_view(entries@).len() == old_pairs.len(),
                forall|j: int| 0 <= j < old_pairs.len() ==> #[trigger] pairs_view(entries@)[j].0 == old_pairs[j].0,
                forall|j: int| 0 <= j < i ==> #[trigger] pairs_view(entries@)[j].1 == repair_columns(old_pairs[j].1),
                forall|j: int| i <= j < old_pairs.len() ==> #[trigger] pairs_view(entries@)[j].1 == old_pairs[j].1,
            decreases entries@.len() - i,
        {
            let mut slot: (String, Vec<ColumnConfig>) = (String::new(), Vec::new());
            let ghost before = pairs_view(entries@);
            let ghost before_raw = entries@;
            entries.set_and_swap(i, &mut slot);
            let ghost taken_out = slot;
            repair_columns_in_place(&mut slot.1);
            entries.set(i, slot);
            proof {
                assert(taken_out == before_raw[i as int]);
                assert(before[i as int] == (before_raw[i as int].0@, columns_view(before_raw[i as int].1@)));
                assert(entries@ == before_raw.update(i as int, slot));
                lemma_pairs_view_update(before_raw, i as int, slot);
                assert(pairs_view(entries@) == before.update(i as int, (slot.0@, columns_view(slot.1@))));
                assert(slot.0 == before_raw[i as int].0);
                assert(columns_view(slot.1@) == repair_columns(columns_view(taken_out.1@)));
                assert(before[i as int].1 == old_pairs[i as int].1);
                assert(before[i as int].0 == old_pairs[i as int].0);
                assert(before[i as int].0 == before_raw[i as int].0@);
                assert(pairs_view(entries@)[i as int].0 == old_pairs[i as int].0);
                assert(pairs_view(entries@)[i as int].1 == repair_columns(old_pairs[i as int].1));
                assert forall|j: int| 0 <= j < old_pairs.len() implies #[trigger] pairs_view(entries@)[j].0 == old_pairs[j].0 by {
                    if j != i {
                        assert(pairs_view(entries@)[j] == before[j]);
                    }
                }
                assert forall|j: int| 0 <= j < i + 1 implies #[trigger] pairs_view(entries@)[j].1 == repair_columns(old_pairs[j].1) by {
                    if j != i {
                        assert(pairs_view(entries@)[j] == before[j]);
                    }
                }
                assert forall|j: int| i + 1 <= j < old_pairs.len() implies #[trigger] pairs_view(entries@)[j].1 == old_pairs[j].1 by {
                    assert(pairs_view(entries@)[j] == before[j]);
                }
            }
            i = i + 1;
        }
        proof {
            let np = pairs_view(entries@);
            assert(keys_distinct(np)) by {
                assert forall|a: int, b: int| 0 <= a < b < np.len() implies #[trigger] np[a].0 != #[trigger] np[b].0 by {
                    assert(np[a].0 == old_pairs[a].0);
                    assert(np[b].0 == old_pairs[b].0);
                }
            }
            lemma_map_of_pairs(np);
            let target = old_map.map_values(|v: Seq<ColumnView>| repair_columns(v));
            assert forall|k: Seq<char>| #[trigger] map_of_pairs(np).dom().contains(k) <==> target.dom().contains(k) by {
                if old_map.dom().contains(k) {
                    let j = choose|j: int| 0 <= j < old_pairs.len() && old_pairs[j].0 == k;
                    assert(np[j].0 == k);
                }
                if map_of_pairs(np).dom().contains(k) {
                    let j = choose|j: int| 0 <= j < np.len() && np[j].0 == k;
                    assert(old_pairs[j].0 == k);
                }
            }
            assert forall|k: Seq<char>| #[trigger] map_of_pairs(np).dom().contains(k) implies map_of_pairs(np)[k] == target[k] by {
                let j = choose|j: int| 0 <= j < np.len() && np[j].0 == k;
                assert(old_pairs[j].0 == k);
                assert(old_map[k] == old_pairs[j].1);
            }
            assert(map_of_pairs(np) =~= target);
        }
        self.entries = entries;
    }

    /// A table holding the given layouts; a later entry replaces an earlier
    /// one with the same name.
    pub fn from_entries(entries: Vec<(String, Vec<ColumnConfig>)>) -> (t: ColumnTable)
        ensures
            t@ == map_of_pairs(pairs_view(entries@)),
    {
        let ghost all = pairs_view(entries@);
        let mut t = ColumnTable::new();
        let mut rest = entries;
        let ghost mut taken: int = 0;
        assert(all.take(0) =~= Seq::<(Seq<char>, Seq<ColumnView>)>::empty());
        while rest.len() > 0
            invariant
                0 <= taken <= all.len(),
                taken + rest@.len() == all.len(),
                pairs_view(rest@) == all.skip(taken),
                t@ == map_of_pairs(all.take(taken)),
            decreases rest@.len(),
        {
            let ghost old_rest = rest@;
            let (k, v) = rest.remove(0);
            proof {
                assert(pairs_view(old_rest)[0] == (k@, columns_view(v@)));
                assert(all.skip(taken)[0] == all[taken]);
                assert forall|i: int| 0 <= i < rest@.len() implies pairs_view(rest@)[i] == all.skip(taken + 1)[i] by {
                    assert(rest@[i] == old_rest[i + 1]);
                    assert(pairs_view(old_rest)[i + 1] == all.skip(taken)[i + 1]);
                }
                assert(pairs_view(rest@) =~= all.skip(taken + 1));
                assert(all.take(taken + 1).drop_last() =~= all.take(taken));
            }
            t.insert(k, v);
            proof {
                taken = taken + 1;
            }
        }
        assert(all.take(taken) =~= all);
        t
    }

    /// A copy of the table.
    pub fn duplicate(&self) -> (r: ColumnTable)
        ensures
            r@ == self@,
    {
        ColumnTable::from_entries(self.to_entries())
    }

    /// Copies of all layouts, one entry per table name.
    pub fn to_entries(&self) -> (r: Vec<(String, Vec<ColumnConfig>)>)
        ensures
            keys_distinct(pairs_view(r@)),
            map_of_pairs(pairs_view(r@)) == self@,
    {
        proof {
            use_type_invariant(self);
        }
        let mut r: Vec<(String, Vec<ColumnConfig>)> = Vec::new();
        let mut i: usize = 0;
        while i < self.entries.len()
            invariant
                i <= self.entries@.len(),
                pairs_view(r@) == pairs_view(self.entries@).take(i as int),
            decreases self.entries@.len() - i,
        {
            let k = self.entries[i].0.clone();
            let v = duplicate_columns(&self.entries[i].1);
            proof {
                lemma_pairs_view_push(r@, (k, v));
                assert(pairs_view(self.entries@)[i as int] == (self.entries@[i as int].0@, columns_view(self.entries@[i as int].1@)));
                assert(pairs_view(self.entries@).take(i + 1) =~= pairs_view(self.entries@).take(i as int).push((k@, columns_view(v@))));
            }
            r.push((k, v));
            i = i + 1;
        }
        assert(pairs_view(self.entries@).take(i as int) =~= pairs_view(self.entries@));
        r
    }
}

// ---------------------------------------------------------------------------
// Repair rules

/// A width brought into 5..=100.
pub open spec fn clamp_width(w: u16) -> u16 {
    if w < 5 {
        5
    } else if w > 100 {
        100
    } else {
        w
    }
}

/// Some column of the list is shown.
pub open spec fn any_visible(cols: Seq<ColumnView>) -> bool {
    exists|i: int| 0 <= i < cols.len() && #[trigger] cols[i].visible
}

/// The column list with its widths clamped.
pub open spec fn clamp_widths(cols: Seq<ColumnView>) -> Seq<ColumnView> {
    cols.map_values(|c: ColumnView| ColumnView { width: clamp_width(c.width), ..c })
}

/// How a column list is repaired: an empty list stays empty; otherwise, if
/// no column is shown the first one is shown again, and every width is
/// clamped into 5..=100.
pub open spec fn repair_columns(cols: Seq<ColumnView>) -> Seq<ColumnView> {
    if cols.len() == 0 {
        cols
    } else if any_visible(cols) {
        clamp_widths(cols)
    } else {
        clamp_widths(cols.update(0, ColumnView { visible: true, ..cols[0] }))
    }
}

fn repair_columns_in_place(cols: &mut Vec<ColumnConfig>)
    ensures
        columns_view(final(cols)@) == repair_columns(columns_view(old(cols)@)),
{
    let ghost old_view = columns_view(cols@);
    if cols.len() == 0 {
        return;
    }
    let mut any = false;
    let mut i: usize = 0;
    while i < cols.len()
        invariant
            i <= cols@.len(),
            columns_view(cols@) == old_view,
            any <==> exists|j: int| 0 <= j < i && #[trigger] old_view[j].visible,
        decreases cols@.len() - i,
    {
        assert(old_view[i as int] == cols@[i as int]@);
        let v = cols[i].visible;
        assert(old_view[i as int].visible == v);
        if v {
            any = true;
        }
        i = i + 1;
    }
    let ghost shown = if any { old_view } else { old_view.update(0, ColumnView { visible: true, ..old_view[0] }) };
    if !any {
        let mut first = ColumnConfig { name: String::new(), visible: false, width: 0, sort: SortOrder::Unsorted };
        let ghost raw = cols@;
        cols.set_and_swap(0, &mut first);
        assert(first == raw[0]);
        first.visible = true;
        cols.set(0, first);
        proof {
            assert(cols@ == raw.update(0, first));
            lemma_columns_view_update(raw, 0, first);
            assert(old_view[0] == raw[0]@);
            assert(columns_view(cols@) =~= shown);
        }
    }
    let mut j: usize = 0;
    while j < cols.len()
        invariant
            j <= cols@.len(),
            cols@.len() == shown.len(),
            forall|k: int| 0 <= k < j ==> #[trigger] columns_view(cols@)[k] == clamp_widths(shown)[k],
            forall|k: int| j <= k < shown.len() ==> #[trigger] columns_view(cols@)[k] == shown[k],
        decreases cols@.len() - j,
    {
        let mut c = ColumnConfig { name: String::new(), visible: false, width: 0, sort: SortOrder::Unsorted };
        let ghost before = cols@;
        cols.set_and_swap(j, &mut c);
        assert(c == before[j as int]);
        assert(columns_view(before)[j as int] == before[j as int]@);
        c.width = if c.width < 5 {
            5
        } else if c.width > 100 {
            100
        } else {
            c.width
        };
        cols.set(j, c);
        proof {
            assert(cols@ == before.update(j as int, c));
            lemma_columns_view_update(before, j as int, c);
            assert forall|k: int| 0 <= k < j + 1 implies #[trigger] columns_view(cols@)[k] == clamp_widths(shown)[k] by {
                if k != j {
                    assert(cols@[k] == before[k]);
                }
            }
            assert forall|k: int| j + 1 <= k < shown.len() implies #[trigger] columns_view(cols@)[k] == shown[k] by {
                assert(cols@[k] == before[k]);
            }
        }
        j = j + 1;
    }
    assert(columns_view(cols@) =~= clamp_widths(shown));
}

// ---------------------------------------------------------------------------
// Application configuration

/// Application settings.
pub struct AppConfig {
    pub sidebar_width: u16,
    pub max_points: usize,
    pub show_sidebar: bool,
    pub table_columns: ColumnTable,
}

/// Mathematical value of an [`AppConfig`].
pub struct AppConfigView {
    pub sidebar_width: u16,
    pub max_points: usize,
    pub show_sidebar: bool,
    pub table_columns: Map<Seq<char>, Seq<ColumnView>>,
}

impl View for AppConfig {
    type V = AppConfigView;

    open spec fn view(&self) -> AppConfigView {
        AppConfigView {
            sidebar_width: self.sidebar_width,
            max_points: self.max_points,
            show_sidebar: self.show_sidebar,
            table_columns: self.table_columns@,
        }
    }
}

pub open spec fn column_view(name: Seq<char>, width: u16) -> ColumnView {
    ColumnView { name, visible: true, width, sort: SortOrder::Unsorted }
}

/// The built-in column layouts: projects, tasks and bugs.
pub open spec fn default_table() -> Map<Seq<char>, Seq<ColumnView>> {
    Map::empty().insert(
        "projects"@,
        seq![column_view("项目"@, 60), column_view("状态"@, 40)],
    ).insert(
        "tasks"@,
        seq![column_view("任务标题"@, 50), column_view("状态"@, 25), column_view("优先级"@, 25)],
    ).insert(
        "bugs"@,
        seq![
            column_view("ID"@, 15),
            column_view("标题"@, 45),
            column_view("级别"@, 20),
            column_view("状态"@, 20),
        ],
    )
}

/// The built-in configuration.
pub open spec fn default_config() -> AppConfigView {
    AppConfigView {
        sidebar_width: 25,
        max_points: 50,
        show_sidebar: true,
        table_columns: default_table(),
    }
}

/// `max_points` brought into 10..=500.
pub open spec fn clamp_points(p: usize) -> usize {
    if p < 10 {
        10
    } else if p > 500 {
        500
    } else {
        p
    }
}

/// The configuration after repair: history depth clamped into 10..=500,
/// sidebar width capped at 60, a built-in layout added for each of the
/// projects, tasks and bugs tables that has none, and every layout repaired
/// by [`repair_columns`].
pub open spec fn validated(c: AppConfigView) -> AppConfigView {
    AppConfigView {
        sidebar_width: if c.sidebar_width > 60 { 60 } else { c.sidebar_width },
        max_points: clamp_points(c.max_points),
        show_sidebar: c.show_sidebar,
        table_columns: default_table().union_prefer_right(c.table_columns).map_values(
            |v: Seq<ColumnView>| repair_columns(v),
        ),
    }
}

impl Default for AppConfig {
    fn default() -> (c: AppConfig)
        ensures
            c@ == default_config(),
    {
        let mut table = ColumnTable::new();
        let mut projects: Vec<ColumnConfig> = Vec::new();
        projects.push(ColumnConfig::new("项目", 60));
        projects.push(ColumnConfig::new("状态", 40));
        let mut tasks: Vec<ColumnConfig> = Vec::new();
        tasks.push(ColumnConfig::new("任务标题", 50));
        tasks.push(ColumnConfig::new("状态", 25));
        tasks.push(ColumnConfig::new("优先级", 25));
        let mut bugs: Vec<ColumnConfig> = Vec::new();
        bugs.push(ColumnConfig::new("ID", 15));
        bugs.push(ColumnConfig::new("标题", 45));
        bugs.push(ColumnConfig::new("级别", 20));
        bugs.push(ColumnConfig::new("状态", 20));
        proof {
            assert(columns_view(projects@) =~= seq![column_view("项目"@, 60), column_view("状态"@, 40)]);
            assert(columns_view(tasks@) =~= seq![column_view("任务标题"@, 50), column_view("状态"@, 25), column_view("优先级"@, 25)]);
            assert(columns_view(bugs@) =~= seq![
                column_view("ID"@, 15),
                column_view("标题"@, 45),
                column_view("级别"@, 20),
                column_view("状态"@, 20),
            ]);
        }
        table.insert("projects".to_string(), projects);
        table.insert("tasks".to_string(), tasks);
        table.insert("bugs".to_string(), bugs);
        AppConfig { sidebar_width: 25, max_points: 50, show_sidebar: true, table_columns: table }
    }
}

impl AppConfig {
    /// Repairs a loaded configuration (see [`validated`]).
    pub fn validate(&mut self)
        ensures
            final(self)@ == validated(old(self)@),
    {
        let ghost old_view = self@;
        self.max_points = if self.max_points < 10 {
            10
        } else if self.max_points > 500 {
            500
        } else {
            self.max_points
        };
        self.sidebar_width = if self.sidebar_width > 60 { 60 } else { self.sidebar_width };

        let defaults = AppConfig::default();
        let essential_tabs: [&str; 5] = ["projects", "tasks", "bugs", "acceptance", "assets"];
        proof {
            reveal_strlit("projects");
            reveal_strlit("tasks");
            reveal_strlit("bugs");
            reveal_strlit("acceptance");
            reveal_strlit("assets");
        }
        let ghost filled = default_table().union_prefer_right(old_view.table_columns);
        let mut t: usize = 0;
        while t < 5
            invariant
                t <= 5,
                filled == default_table().union_prefer_right(old_view.table_columns),
                self.max_points == clamp_points(old_view.max_points),
                self.sidebar_width == (if old_view.sidebar_width > 60 { 60 } else { old_view.sidebar_width }),
                self.show_sidebar == old_view.show_sidebar,
                essential_tabs@ == seq!["projects", "tasks", "bugs", "acceptance", "assets"],
                defaults@ == default_config(),
                forall|k: Seq<char>| #[trigger] self.table_columns@.dom().contains(k) ==> filled.dom().contains(k),
                forall|k: Seq<char>| #[trigger] self.table_columns@.dom().contains(k) ==> self.table_columns@[k] == filled[k],
                forall|k: Seq<char>| #[trigger] old_view.table_columns.dom().contains(k) ==> self.table_columns@.dom().contains(k),
                forall|j: int| 0 <= j < t ==> default_table().dom().contains(#[trigger] essential_tabs@[j]@) ==> self.table_columns@.dom().contains(essential_tabs@[j]@),
            decreases 5 - t,
        {
            let tab = essential_tabs[t];
            let ghost before = self.table_columns@;
            if !self.table_columns.contains_key(tab) {
                if let Some(default_cols) = defaults.table_columns.get(tab) {
                    let cols = duplicate_columns(default_cols);
                    let key = tab.to_string();
                    proof {
                        assert(defaults.table_columns@ == default_table());
                        assert(default_table().dom().contains(tab@));
                        assert(key@ == tab@);
                        assert(!old_view.table_columns.dom().contains(tab@));
                        assert(filled.dom().contains(tab@));
                        assert(filled[tab@] == default_table()[tab@]);
                        assert(columns_view(cols@) == filled[tab@]);
                    }
                    self.table_columns.insert(key, cols);
                    proof {
                        assert(self.table_columns@ == before.insert(tab@, filled[tab@]));
                        assert forall|k: Seq<char>| #[trigger] self.table_columns@.dom().contains(k) implies filled.dom().contains(k) && self.table_columns@[k] == filled[k] by {
                            if k != tab@ {
                                assert(before.dom().contains(k));
                            }
                        }
                    }
                }
            }
            t = t + 1;
        }
        proof {
            assert(default_table().dom().contains(essential_tabs@[0]@));
            assert(default_table().dom().contains(essential_tabs@[1]@));
            assert(default_table().dom().contains(essential_tabs@[2]@));
            assert(self.table_columns@ =~= filled);
        }
        self.table_columns.repair_all();
    }
}

} // verus!

verus! {

/// A configuration that the repair rules leave as it is: history depth in
/// 10..=500, sidebar width at most 60, layouts for projects, tasks and bugs,
/// and in every non-empty layout a shown column and widths in 5..=100.
pub open spec fn is_valid_config(c: AppConfigView) -> bool {
    &&& 10 <= c.max_points <= 500
    &&& c.sidebar_width <= 60
    &&& c.table_columns.dom().contains("projects"@)
    &&& c.table_columns.dom().contains("tasks"@)
    &&& c.table_columns.dom().contains("bugs"@)
    &&& forall|k: Seq<char>| #[trigger] c.table_columns.dom().contains(k) ==> {
        let cols = c.table_columns[k];
        &&& cols.len() > 0 ==> any_visible(cols)
        &&& forall|i: int| 0 <= i < cols.len() ==> 5 <= #[trigger] cols[i].width <= 100
    }
}

proof fn lemma_repair_columns_shape(cols: Seq<ColumnView>)
    ensures
        repair_columns(cols).len() == cols.len(),
        cols.len() > 0 ==> any_visible(repair_columns(cols)),
        forall|i: int| 0 <= i < cols.len() ==> 5 <= #[trigger] repair_columns(cols)[i].width <= 100,
        repair_columns(repair_columns(cols)) == repair_columns(cols),
{
    let r = repair_columns(cols);
    if cols.len() > 0 {
        if any_visible(cols) {
            let i = choose|i: int| 0 <= i < cols.len() && #[trigger] cols[i].visible;
            assert(r[i].visible);
        } else {
            assert(r[0].visible);
        }
        assert(any_visible(r));
        assert(clamp_widths(r) =~= r);
    }
}

/// Every configuration comes out of repair valid.
pub proof fn lemma_validated_is_valid(c: AppConfigView)
    ensures
        is_valid_config(validated(c)),
{
    reveal_strlit("projects");
    reveal_strlit("tasks");
    reveal_strlit("bugs");
    let v = validated(c);
    assert forall|k: Seq<char>| #[trigger] v.table_columns.dom().contains(k) implies {
        let cols = v.table_columns[k];
        &&& cols.len() > 0 ==> any_visible(cols)
        &&& forall|i: int| 0 <= i < cols.len() ==> 5 <= #[trigger] cols[i].width <= 100
    } by {
        let src = default_table().union_prefer_right(c.table_columns)[k];
        lemma_repair_columns_shape(src);
    }
}

/// Repair leaves a valid configuration exactly as it is.
pub proof fn lemma_valid_config_unchanged(c: AppConfigView)
    requires
        is_valid_config(c),
    ensures
        validated(c) == c,
{
    reveal_strlit("projects");
    reveal_strlit("tasks");
    reveal_strlit("bugs");
    let v = validated(c);
    let m = default_table().union_prefer_right(c.table_columns);
    assert(m =~= c.table_columns);
    assert forall|k: Seq<char>| #[trigger] c.table_columns.dom().contains(k) implies v.table_columns[k] == c.table_columns[k] by {
        let cols = c.table_columns[k];
        if cols.len() > 0 {
            assert(clamp_widths(cols) =~= cols);
        }
    }
    assert(v.table_columns =~= c.table_columns);
}

/// Repair is idempotent: a repaired configuration is left unchanged by a
/// second repair.
pub proof fn lemma_validate_idempotent(c: AppConfigView)
    ensures
        validated(validated(c)) == validated(c),
{
    reveal_strlit("projects");
    reveal_strlit("tasks");
    reveal_strlit("bugs");
    let once = validated(c);
    let twice = validated(once);
    let m1 = default_table().union_prefer_right(c.table_columns);
    assert forall|k: Seq<char>| #[trigger] twice.table_columns.dom().contains(k) <==> once.table_columns.dom().contains(k) by {}
    assert forall|k: Seq<char>| #[trigger] once.table_columns.dom().contains(k) implies twice.table_columns[k] == once.table_columns[k] by {
        lemma_repair_columns_shape(m1[k]);
    }
    assert(twice.table_columns =~= once.table_columns);
}

} // verus!
