//! The system monitor's own state and rules: which measure orders the
//! process list, the depth of the CPU history and how samples enter it.

use vstd::prelude::*;
use std::collections::VecDeque;
use crate::framework::{AppEvent, CustomAction, Effect, KeyCode};
use crate::sorting::{SortKey, KeyView, stable_sort, sort_entries, entries_view};

verus! {

/// Measure that orders the process list, largest first.
#[derive(Debug, Clone, Copy, PartialEq, Eq, Structural)]
pub enum SortBy {
    Cpu,
    Memory,
}

impl Default for SortBy {
    fn default() -> (r: SortBy)
        ensures
            r == SortBy::Cpu,
    {
        SortBy::Cpu
    }
}

/// The monitor's settings: how many CPU samples the chart shows and how the
/// process list is ordered.
#[derive(Debug, Clone, Copy, PartialEq, Eq, Structural)]
pub struct MonitorState {
    pub max_points: usize,
    pub sort_by: SortBy,
}

/// How the monitor reacts to an event: a tick asks for a new sample, keys
/// 1 and 2 order processes by CPU or by memory, and a new history depth is
/// taken over and the history refitted.
pub open spec fn monitor_step(m: MonitorState, event: AppEvent) -> (MonitorState, Option<Effect>) {
    match event {
        AppEvent::Tick => (m, Some(Effect::TickMonitor)),
        AppEvent::Key(KeyCode::Char(c)) => if c == '1' {
            (MonitorState { sort_by: SortBy::Cpu, ..m }, None)
        } else if c == '2' {
            (MonitorState { sort_by: SortBy::Memory, ..m }, None)
        } else {
            (m, None)
        },
        AppEvent::Action(CustomAction::SetHistory(n)) => (
            MonitorState { max_points: n, ..m },
            Some(Effect::ResizeHistory(n)),
        ),
        _ => (m, None),
    }
}

impl MonitorState {
    /// A monitor showing `max_points` samples, ordering processes by CPU.
    pub fn with_config(max_points: usize) -> (r: MonitorState)
        ensures
            r == (MonitorState { max_points, sort_by: SortBy::Cpu }),
    {
        MonitorState { max_points, sort_by: SortBy::Cpu }
    }

    /// A monitor with the default depth of 50 samples.
    pub fn new() -> (r: MonitorState)
        ensures
            r == (MonitorState { max_points: 50, sort_by: SortBy::Cpu }),
    {
        Self::with_config(50)
    }

    /// Reacts to `event` (see [`monitor_step`]); the outside work it needs
    /// comes back.
    pub fn handle_event(&mut self, event: &AppEvent) -> (r: Option<Effect>)
        ensures
            (*final(self), r) == monitor_step(*old(self), *event),
    {
        match event {
            AppEvent::Tick => Some(Effect::TickMonitor),
            AppEvent::Key(KeyCode::Char(c)) => {
                if *c == '1' {
                    self.sort_by = SortBy::Cpu;
                } else if *c == '2' {
                    self.sort_by = SortBy::Memory;
                }
                None
            },
            AppEvent::Action(CustomAction::SetHistory(n)) => {
                self.max_points = *n;
                Some(Effect::ResizeHistory(*n))
            },
            _ => None,
        }
    }
}

/// The history after a sample is appended: the sample goes to the back and,
/// if the history is then longer than `max`, the oldest sample leaves.
pub open spec fn with_sample<T>(h: Seq<T>, sample: T, max: usize) -> Seq<T> {
    if h.len() + 1 > max {
        h.push(sample).drop_first()
    } else {
        h.push(sample)
    }
}

/// Appends a sample to the history (see [`with_sample`]).
pub fn record_sample<T>(history: &mut VecDeque<T>, sample: T, max: usize)
    ensures
        final(history)@ == with_sample(old(history)@, sample, max),
{
    history.push_back(sample);
    if history.len() > max {
        let _ = history.pop_front();
        assert(history@ =~= old(history)@.push(sample).drop_first());
    }
}

/// The history fitted to `n` samples: the newest `n` samples are kept, and a
/// shorter history is padded with `fill` at the old end.
pub open spec fn fitted<T>(h: Seq<T>, n: usize, fill: T) -> Seq<T> {
    if h.len() >= n {
        h.skip(h.len() - n)
    } else {
        Seq::new((n - h.len()) as nat, |i: int| fill) + h
    }
}

/// Fits the history to `n` samples (see [`fitted`]).
pub fn fit_history<T: Copy>(history: &mut VecDeque<T>, n: usize, fill: T)
    ensures
        final(history)@ == fitted(old(history)@, n, fill),
{
    let ghost start = history@;
    assert(start.skip(0) =~= start);
    while history.len() > n
        invariant
            history@.len() <= start.len(),
            history@ == start.skip(start.len() - history@.len()),
            start.len() >= n ==> history@.len() >= n,
            start.len() < n ==> history@ == start,
        decreases history@.len(),
    {
        let _ = history.pop_front();
        assert(history@ =~= start.skip(start.len() - history@.len()));
    }
    while history.len() < n
        invariant
            start.len() >= n ==> history@ == start.skip(start.len() - n),
            start.len() < n ==> history@ == Seq::new((history@.len() - start.len()) as nat, |i: int| fill) + start,
            start.len() < n ==> start.len() <= history@.len() <= n,
        decreases n - history@.len(),
    {
        history.push_front(fill);
        assert(history@ =~= Seq::new((history@.len() - start.len()) as nat, |i: int| fill) + start);
    }
    assert(history@ =~= fitted(start, n, fill));
}

/// Megabytes in `bytes` (whole mebibytes, rounded down).
pub fn to_megabytes(bytes: u64) -> (r: u64)
    ensures
        r == bytes / 1048576,
{
    bytes / 1024 / 1024
}

/// Process positions paired with their memory use as sort keys.
pub open spec fn memory_entries(mems: Seq<u64>) -> Seq<(KeyView, usize)> {
    Seq::new(mems.len(), |i: int| (KeyView::Number(mems[i] as int), i as usize))
}

/// Positions of the processes with the most memory, largest first, at most
/// `limit` of them; processes with equal memory keep their order.
pub open spec fn top_memory(mems: Seq<u64>, limit: usize) -> Seq<usize> {
    let sorted = sort_entries(memory_entries(mems), false);
    sorted.take(if sorted.len() < limit { sorted.len() as int } else { limit as int }).map_values(
        |e: (KeyView, usize)| e.1,
    )
}

/// The positions in `mems` of the `limit` processes that use the most
/// memory, largest first (see [`top_memory`]).
pub fn top_by_memory(mems: &Vec<u64>, limit: usize) -> (r: Vec<usize>)
    ensures
        r@ == top_memory(mems@, limit),
{
    let mut entries: Vec<(SortKey, usize)> = Vec::new();
    let mut i: usize = 0;
    while i < mems.len()
        invariant
            i <= mems@.len(),
            entries_view(entries@) == memory_entries(mems@).take(i as int),
        decreases mems@.len() - i,
    {
        let e = (SortKey::Number(mems[i] as i128), i);
        proof {
            crate::sorting::lemma_entries_view_push(entries@, e);
            assert(memory_entries(mems@).take(i + 1) =~= memory_entries(mems@).take(i as int).push(crate::sorting::entry_view(e)));
        }
        entries.push(e);
        i = i + 1;
    }
    assert(memory_entries(mems@).take(i as int) =~= memory_entries(mems@));
    let sorted = stable_sort(entries, false);
    proof {
        crate::sorting::lemma_sort_permutes(memory_entries(mems@), false);
    }
    let ghost sv = entries_view(sorted@);
    let count = if sorted.len() < limit { sorted.len() } else { limit };
    let mut r: Vec<usize> = Vec::new();
    let mut j: usize = 0;
    while j < count
        invariant
            count <= sorted@.len(),
            sv == entries_view(sorted@),
            j <= count,
            r@ == sv.take(j as int).map_values(|e: (KeyView, usize)| e.1),
        decreases count - j,
    {
        assert(sv[j as int].1 == sorted@[j as int].1);
        r.push(sorted[j].1);
        j = j + 1;
        assert(r@ =~= sv.take(j as int).map_values(|e: (KeyView, usize)| e.1));
    }
    r
}

/// A history no longer than its bound stays within it when a sample is
/// appended, and the newest sample is last.
pub proof fn lemma_sample_keeps_bound<T>(h: Seq<T>, sample: T, max: usize)
    requires
        h.len() <= max,
    ensures
        with_sample(h, sample, max).len() <= max,
        with_sample(h, sample, max).len() > 0 ==> with_sample(h, sample, max).last() == sample,
{
}

/// A fitted history has exactly the requested length, keeps the newest
/// samples, and fitting again to the same length changes nothing.
pub proof fn lemma_fitted_shape<T>(h: Seq<T>, n: usize, fill: T)
    ensures
        fitted(h, n, fill).len() == n,
        forall|i: int| 0 <= i < h.len() && i >= h.len() - n ==> #[trigger] h[i] == fitted(h, n, fill)[i - (h.len() - n)],
        fitted(fitted(h, n, fill), n, fill) == fitted(h, n, fill),
{
    let f = fitted(h, n, fill);
    assert(f.skip(0) =~= f);
}

/// The memory list names distinct processes that exist, largest memory
/// first, as many as there are up to the limit (for any list of processes
/// short enough to be indexed by `usize`).
pub proof fn lemma_top_memory_shape(mems: Seq<u64>, limit: usize)
    requires
        mems.len() <= usize::MAX,
    ensures
        ({
            let top = top_memory(mems, limit);
            &&& top.len() == (if mems.len() < limit { mems.len() as int } else { limit as int })
            &&& forall|i: int| 0 <= i < top.len() ==> #[trigger] top[i] < mems.len()
            &&& forall|i: int, j: int|
                0 <= i < j < top.len() ==> mems[#[trigger] top[i] as int] >= mems[#[trigger] top[j] as int]
            &&& top.no_duplicates()
        }),
{
    broadcast use vstd::seq_lib::group_to_multiset_ensures;

    let es = memory_entries(mems);
    let sorted = sort_entries(es, false);
    crate::sorting::lemma_sort_permutes(es, false);
    crate::sorting::lemma_sort_sorted(es, false);
    assert(es.no_duplicates()) by {
        assert forall|i: int, j: int| 0 <= i < es.len() && 0 <= j < es.len() && i != j implies es[i] != es[j] by {
            assert(es[i].1 == i as usize && es[j].1 == j as usize);
        }
    }
    es.lemma_multiset_has_no_duplicates();
    sorted.lemma_multiset_has_no_duplicates_conv();
    assert forall|k: int| 0 <= k < sorted.len() implies #[trigger] sorted[k] == (
        KeyView::Number(mems[sorted[k].1 as int] as int),
        sorted[k].1,
    ) && sorted[k].1 < mems.len() by {
        assert(sorted.contains(sorted[k]));
        assert(sorted.to_multiset().count(sorted[k]) > 0);
        assert(es.contains(sorted[k]));
        let m = choose|m: int| 0 <= m < es.len() && es[m] == sorted[k];
        assert(es[m] == (KeyView::Number(mems[m] as int), m as usize));
    }
    let n: int = if sorted.len() < limit { sorted.len() as int } else { limit as int };
    let top = top_memory(mems, limit);
    assert(top.len() == n);
    assert forall|i: int| 0 <= i < top.len() implies #[trigger] top[i] == sorted[i].1 by {}
    assert forall|i: int, j: int| 0 <= i < j < top.len() implies mems[#[trigger] top[i] as int] >= mems[#[trigger] top[j] as int] by {
        assert(sorted[i] == (KeyView::Number(mems[sorted[i].1 as int] as int), sorted[i].1));
        assert(sorted[j] == (KeyView::Number(mems[sorted[j].1 as int] as int), sorted[j].1));
        assert(!crate::sorting::before(sorted[j].0, sorted[i].0, false));
    }
    assert forall|i: int, j: int| 0 <= i < top.len() && 0 <= j < top.len() && i != j implies top[i] != top[j] by {
        assert(sorted[i] == (KeyView::Number(mems[sorted[i].1 as int] as int), sorted[i].1));
        assert(sorted[j] == (KeyView::Number(mems[sorted[j].1 as int] as int), sorted[j].1));
    }
}

impl MonitorState {
    /// The titles of the CPU and memory columns of the process list; the
    /// measure that orders the list carries a down arrow.
    pub fn column_titles(&self) -> (r: (&'static str, &'static str))
        ensures
            r.0@ == (if self.sort_by == SortBy::Cpu { "CPU (▼)"@ } else { "CPU"@ }),
            r.1@ == (if self.sort_by == SortBy::Memory { "内存 (▼)"@ } else { "内存"@ }),
    {
        match self.sort_by {
            SortBy::Cpu => ("CPU (▼)", "内存"),
            SortBy::Memory => ("CPU", "内存 (▼)"),
        }
    }
}

} // verus!
