//! The quality workspace: five tables (projects, tasks, bugs, acceptance
//! criteria, assets) with search, column sorting, row selection and a quick
//! entry box, driven by the keyboard.

use vstd::prelude::*;
use crate::config::{AppConfig, AppConfigView, ColumnConfig, ColumnView, SortOrder, columns_view, duplicate_columns, next_order};
use crate::framework::{AppEvent, CustomAction, Effect, EffectView, KeyCode};
use crate::models::biz::Project;
use crate::rows::{
    BugRecord, Row, SortField, TaskRecord, duplicate_rows, filter_rows, matching_rows, sort_rows,
    sorted_rows,
};
use crate::text::{chars_of, lowercase, pop_char, push_char, text_eq, to_lowercase, trim, trimmed};

verus! {

broadcast use vstd::string::group_string_axioms;

/// Interaction mode of the quality workspace.
#[derive(Debug, Clone, Copy, PartialEq, Eq, Structural)]
pub enum QualityMode {
    /// Browsing: switch tables, move the selection, start the other modes.
    Normal,
    /// Choosing a column header to sort by.
    HeaderFocus,
    /// Typing a search text.
    Filtering,
    /// Typing a new entry.
    Editing,
}

/// State of the quality workspace. `selected` is the highlighted row of
/// the current table, if any; the `raw_` lists hold the data as loaded and
/// the shown lists are filtered from them.
pub struct QualityApp {
    pub mode: QualityMode,
    pub is_loading: bool,
    pub active_tab: usize,
    pub selected: Option<usize>,
    pub column_index: usize,
    pub focus_on_detail: bool,
    pub filter_query: String,
    pub edit_buffer: String,
    pub projects: Vec<Project>,
    pub tasks: Vec<TaskRecord>,
    pub bugs: Vec<BugRecord>,
    pub acceptance: Vec<String>,
    pub assets: Vec<(String, String)>,
    pub raw_projects: Vec<Project>,
    pub raw_tasks: Vec<TaskRecord>,
    pub raw_bugs: Vec<BugRecord>,
    pub raw_acceptance: Vec<String>,
    pub raw_assets: Vec<(String, String)>,
    pub error_msg: Option<String>,
}

/// Mathematical value of a [`QualityApp`]. The `raw_` lists are the data as
/// loaded, which the shown lists are filtered from.
pub struct QualityView {
    pub mode: QualityMode,
    pub is_loading: bool,
    pub active_tab: usize,
    pub selected: Option<usize>,
    pub column_index: usize,
    pub focus_on_detail: bool,
    pub filter_query: Seq<char>,
    pub edit_buffer: Seq<char>,
    pub projects: Seq<Project>,
    pub tasks: Seq<TaskRecord>,
    pub bugs: Seq<BugRecord>,
    pub acceptance: Seq<String>,
    pub assets: Seq<(String, String)>,
    pub raw_projects: Seq<Project>,
    pub raw_tasks: Seq<TaskRecord>,
    pub raw_bugs: Seq<BugRecord>,
    pub raw_acceptance: Seq<String>,
    pub raw_assets: Seq<(String, String)>,
    pub error_msg: Option<String>,
}

impl View for QualityApp {
    type V = QualityView;

    open spec fn view(&self) -> QualityView {
        QualityView {
            mode: self.mode,
            is_loading: self.is_loading,
            active_tab: self.active_tab,
            selected: self.selected,
            column_index: self.column_index,
            focus_on_detail: self.focus_on_detail,
            filter_query: self.filter_query@,
            edit_buffer: self.edit_buffer@,
            projects: self.projects@,
            tasks: self.tasks@,
            bugs: self.bugs@,
            acceptance: self.acceptance@,
            assets: self.assets@,
            raw_projects: self.raw_projects@,
            raw_tasks: self.raw_tasks@,
            raw_bugs: self.raw_bugs@,
            raw_acceptance: self.raw_acceptance@,
            raw_assets: self.raw_assets@,
            error_msg: self.error_msg,
        }
    }
}

// ---------------------------------------------------------------------------
// Rules

/// The configuration key of the table shown in tab `t`.
pub open spec fn tab_key(t: usize) -> Seq<char> {
    if t == 0 {
        "projects"@
    } else if t == 1 {
        "tasks"@
    } else if t == 2 {
        "bugs"@
    } else if t == 3 {
        "acceptance"@
    } else if t == 4 {
        "assets"@
    } else {
        "default"@
    }
}

/// The last column position the header cursor can reach in tab `t`.
pub open spec fn max_column(t: usize) -> usize {
    if t == 0 {
        1
    } else if t == 1 {
        2
    } else if t == 2 {
        3
    } else if t == 4 {
        1
    } else {
        0
    }
}

/// Number of rows shown in the current table.
pub open spec fn list_len(q: QualityView) -> nat {
    if q.active_tab == 0 {
        q.projects.len()
    } else if q.active_tab == 1 {
        q.tasks.len()
    } else if q.active_tab == 2 {
        q.bugs.len()
    } else if q.active_tab == 3 {
        q.acceptance.len()
    } else if q.active_tab == 4 {
        q.assets.len()
    } else {
        0
    }
}

/// The selection kept valid for a table of `len` rows: nothing is selected
/// in an empty table, and a selection past the end goes back to the first
/// row.
pub open spec fn checked_selection(len: nat, sel: Option<usize>) -> Option<usize> {
    if len == 0 {
        None
    } else if (match sel {
        Some(i) => i as int,
        None => 0,
    }) >= len {
        Some(0)
    } else {
        sel
    }
}

/// The lists after the search is applied: with an empty (lowercased) search
/// text every table shows all its rows again; otherwise the current table
/// shows the rows whose lowercased search text contains it and the other
/// tables stay as they are. The selection is then checked.
pub open spec fn filtered(q: QualityView) -> QualityView {
    let query = lowercase(q.filter_query);
    let r = if query.len() == 0 {
        QualityView {
            projects: q.raw_projects,
            tasks: q.raw_tasks,
            bugs: q.raw_bugs,
            acceptance: q.raw_acceptance,
            assets: q.raw_assets,
            ..q
        }
    } else if q.active_tab == 0 {
        QualityView { projects: matching_rows(q.raw_projects, query), ..q }
    } else if q.active_tab == 1 {
        QualityView { tasks: matching_rows(q.raw_tasks, query), ..q }
    } else if q.active_tab == 2 {
        QualityView { bugs: matching_rows(q.raw_bugs, query), ..q }
    } else if q.active_tab == 3 {
        QualityView { acceptance: matching_rows(q.raw_acceptance, query), ..q }
    } else if q.active_tab == 4 {
        QualityView { assets: matching_rows(q.raw_assets, query), ..q }
    } else {
        q
    };
    QualityView { selected: checked_selection(list_len(r), r.selected), ..r }
}

/// Switching to a table: first row selected, header cursor on the first
/// column, search applied.
pub open spec fn reset(q: QualityView) -> QualityView {
    filtered(QualityView { selected: Some(0), column_index: 0, ..q })
}

/// Moving the selection down, wrapping from the last row to the first.
pub open spec fn step_down(q: QualityView) -> QualityView {
    let len = list_len(q);
    if len > 0 {
        QualityView {
            selected: Some(
                match q.selected {
                    Some(i) => if i >= len - 1 {
                        0
                    } else {
                        (i + 1) as usize
                    },
                    None => 0,
                },
            ),
            ..q
        }
    } else {
        q
    }
}

/// Moving the selection up, wrapping from the first row to the last.
pub open spec fn step_up(q: QualityView) -> QualityView {
    let len = list_len(q);
    if len > 0 {
        QualityView {
            selected: Some(
                match q.selected {
                    Some(i) => if i == 0 {
                        (len - 1) as usize
                    } else {
                        (i - 1) as usize
                    },
                    None => 0,
                },
            ),
            ..q
        }
    } else {
        q
    }
}

/// The table that digit keys 1 to 5 switch to.
pub open spec fn digit_tab(c: char) -> Option<usize> {
    if c == '1' {
        Some(0)
    } else if c == '2' {
        Some(1)
    } else if c == '3' {
        Some(2)
    } else if c == '4' {
        Some(3)
    } else if c == '5' {
        Some(4)
    } else {
        None
    }
}

/// What a key does in each mode: the new state, the action handed back,
/// and the outside work asked for. In normal mode `f` (or `s`) focuses the
/// table header for sorting, and in header focus `f`, `s`, `q` or Esc leave
/// it; Enter there asks for the column under the cursor to be sorted.
pub open spec fn key_step(q: QualityView, k: KeyCode) -> (QualityView, Option<CustomAction>, Option<EffectView>) {
    match q.mode {
        QualityMode::Normal => match k {
            KeyCode::Char(c) => if digit_tab(c) is Some {
                (reset(QualityView { active_tab: digit_tab(c)->0, ..q }), None, None)
            } else if c == '/' {
                (QualityView { mode: QualityMode::Filtering, ..q }, None, None)
            } else if c == 'f' || c == 's' {
                (QualityView { mode: QualityMode::HeaderFocus, column_index: 0, ..q }, None, None)
            } else if c == 'r' {
                (q, Some(CustomAction::RefreshData), None)
            } else if c == 'i' || c == 'a' {
                (QualityView { mode: QualityMode::Editing, edit_buffer: Seq::empty(), ..q }, None, None)
            } else if c == 'j' {
                (step_down(q), None, None)
            } else if c == 'k' {
                (step_up(q), None, None)
            } else if c == 'h' {
                (QualityView { focus_on_detail: false, ..q }, None, None)
            } else if c == 'l' {
                (QualityView { focus_on_detail: true, ..q }, None, None)
            } else {
                (q, None, None)
            },
            KeyCode::Down => (step_down(q), None, None),
            KeyCode::Up => (step_up(q), None, None),
            KeyCode::Left => (QualityView { focus_on_detail: false, ..q }, None, None),
            KeyCode::Right => (QualityView { focus_on_detail: true, ..q }, None, None),
            _ => (q, None, None),
        },
        QualityMode::Filtering => match k {
            KeyCode::Esc | KeyCode::Enter => (QualityView { mode: QualityMode::Normal, ..q }, None, None),
            KeyCode::Backspace => (
                filtered(
                    QualityView {
                        filter_query: if q.filter_query.len() > 0 {
                            q.filter_query.drop_last()
                        } else {
                            q.filter_query
                        },
                        ..q
                    },
                ),
                None,
                None,
            ),
            KeyCode::Char(c) => (filtered(QualityView { filter_query: q.filter_query.push(c), ..q }), None, None),
            _ => (q, None, None),
        },
        QualityMode::Editing => match k {
            KeyCode::Esc => (QualityView { mode: QualityMode::Normal, ..q }, None, None),
            KeyCode::Enter => (
                QualityView { mode: QualityMode::Normal, ..q },
                Some(CustomAction::RefreshData),
                if q.edit_buffer.len() > 0 && q.active_tab == 3 {
                    Some(EffectView::SubmitAcceptance(q.edit_buffer))
                } else {
                    None
                },
            ),
            KeyCode::Backspace => (
                QualityView {
                    edit_buffer: if q.edit_buffer.len() > 0 {
                        q.edit_buffer.drop_last()
                    } else {
                        q.edit_buffer
                    },
                    ..q
                },
                None,
                None,
            ),
            KeyCode::Char(c) => (QualityView { edit_buffer: q.edit_buffer.push(c), ..q }, None, None),
            _ => (q, None, None),
        },
        QualityMode::HeaderFocus => match k {
            KeyCode::Left | KeyCode::Char('h') => (
                QualityView {
                    column_index: if q.column_index > 0 {
                        (q.column_index - 1) as usize
                    } else {
                        q.column_index
                    },
                    ..q
                },
                None,
                None,
            ),
            KeyCode::Right | KeyCode::Char('l') => (
                QualityView {
                    column_index: if q.column_index < max_column(q.active_tab) {
                        (q.column_index + 1) as usize
                    } else {
                        q.column_index
                    },
                    ..q
                },
                None,
                None,
            ),
            KeyCode::Enter => (q, Some(CustomAction::SaveConfig), None),
            KeyCode::Esc | KeyCode::Char('q') | KeyCode::Char('s') | KeyCode::Char('f') => (
                QualityView { mode: QualityMode::Normal, ..q },
                None,
                None,
            ),
            _ => (q, None, None),
        },
    }
}

/// What an event does to the quality workspace: keys as [`key_step`] says,
/// every other event nothing.
pub open spec fn quality_step(q: QualityView, e: AppEvent) -> (QualityView, Option<CustomAction>, Option<EffectView>) {
    match e {
        AppEvent::Key(k) => key_step(q, k),
        _ => (q, None, None),
    }
}

/// The value of an optional effect.
pub open spec fn opt_effect_view(e: Option<Effect>) -> Option<EffectView> {
    match e {
        Some(x) => Some(x@),
        None => None,
    }
}

/// Positions of the shown columns, in order.
pub open spec fn visible_positions(cols: Seq<ColumnView>) -> Seq<usize>
    decreases cols.len(),
{
    if cols.len() == 0 {
        Seq::empty()
    } else {
        let r = visible_positions(cols.drop_last());
        if cols.last().visible {
            r.push((cols.len() - 1) as usize)
        } else {
            r
        }
    }
}

/// The column list after the header at shown position `ci` is activated:
/// that column's sort state advances; out of range nothing changes.
pub open spec fn toggled_columns(cols: Seq<ColumnView>, ci: usize) -> Seq<ColumnView> {
    let vp = visible_positions(cols);
    if ci < vp.len() {
        let i = vp[ci as int] as int;
        cols.update(i, ColumnView { sort: next_order(cols[i].sort), ..cols[i] })
    } else {
        cols
    }
}

/// The configuration after the header at shown position `ci` of table
/// `key` is activated; a table without a layout is left alone.
pub open spec fn toggled_config(c: AppConfigView, key: Seq<char>, ci: usize) -> AppConfigView {
    if c.table_columns.dom().contains(key) {
        AppConfigView {
            table_columns: c.table_columns.insert(key, toggled_columns(c.table_columns[key], ci)),
            ..c
        }
    } else {
        c
    }
}

/// The column a header title sorts in tab `tab`, if any.
pub open spec fn sort_field_for(tab: usize, name: Seq<char>) -> Option<SortField> {
    if tab == 0 {
        if name == "项目"@ {
            Some(SortField::ProjectName)
        } else if name == "状态"@ {
            Some(SortField::ProjectStatus)
        } else {
            None
        }
    } else if tab == 1 {
        if name == "任务标题"@ {
            Some(SortField::TaskTitle)
        } else if name == "状态"@ {
            Some(SortField::TaskStatus)
        } else if name == "优先级"@ {
            Some(SortField::TaskPriority)
        } else {
            None
        }
    } else if tab == 2 {
        if name == "ID"@ {
            Some(SortField::BugId)
        } else if name == "标题"@ {
            Some(SortField::BugTitle)
        } else if name == "级别"@ {
            Some(SortField::BugSeverity)
        } else if name == "状态"@ {
            Some(SortField::BugStatus)
        } else {
            None
        }
    } else if tab == 4 {
        if name == "资产名称"@ || name == "Name"@ {
            Some(SortField::AssetName)
        } else if name == "状态"@ || name == "Status"@ {
            Some(SortField::AssetStatus)
        } else {
            None
        }
    } else {
        None
    }
}

/// The workspace after sorting the current table by the column titled
/// `name` (surrounding white space ignored) in direction `order`; no order,
/// or a title that names no column of the table, changes nothing.
pub open spec fn sorted_view(q: QualityView, name: Seq<char>, order: SortOrder) -> QualityView {
    if order == SortOrder::Unsorted {
        q
    } else {
        let asc = order == SortOrder::Asc;
        match sort_field_for(q.active_tab, trimmed(name)) {
            Some(f) => if q.active_tab == 0 {
                QualityView { projects: sorted_rows(q.projects, f, asc), ..q }
            } else if q.active_tab == 1 {
                QualityView { tasks: sorted_rows(q.tasks, f, asc), ..q }
            } else if q.active_tab == 2 {
                QualityView { bugs: sorted_rows(q.bugs, f, asc), ..q }
            } else {
                QualityView { assets: sorted_rows(q.assets, f, asc), ..q }
            },
            None => q,
        }
    }
}

/// The workspace after data is loaded: the loaded lists become the base of
/// the search, loading is over and the search is applied.
pub open spec fn loaded(
    q: QualityView,
    projects: Seq<Project>,
    tasks: Seq<TaskRecord>,
    bugs: Seq<BugRecord>,
    acceptance: Seq<String>,
    assets: Seq<(String, String)>,
) -> QualityView {
    filtered(
        QualityView {
            raw_projects: projects,
            raw_tasks: tasks,
            raw_bugs: bugs,
            raw_acceptance: acceptance,
            raw_assets: assets,
            is_loading: false,
            ..q
        },
    )
}

/// The workspace when it starts: normal mode, first table, first row
/// selected, no search, no data.
pub open spec fn initial_quality() -> QualityView {
    QualityView {
        mode: QualityMode::Normal,
        is_loading: false,
        active_tab: 0,
        selected: Some(0),
        column_index: 0,
        focus_on_detail: false,
        filter_query: Seq::empty(),
        edit_buffer: Seq::empty(),
        projects: Seq::empty(),
        tasks: Seq::empty(),
        bugs: Seq::empty(),
        acceptance: Seq::empty(),
        assets: Seq::empty(),
        raw_projects: Seq::empty(),
        raw_tasks: Seq::empty(),
        raw_bugs: Seq::empty(),
        raw_acceptance: Seq::empty(),
        raw_assets: Seq::empty(),
        error_msg: None,
    }
}

// ---------------------------------------------------------------------------
// Operations

impl QualityApp {
    /// A fresh workspace (see [`initial_quality`]).
    pub fn new() -> (r: QualityApp)
        ensures
            r@ == initial_quality(),
    {
        QualityApp {
            mode: QualityMode::Normal,
            is_loading: false,
            active_tab: 0,
            selected: Some(0),
            column_index: 0,
            focus_on_detail: false,
            filter_query: String::new(),
            edit_buffer: String::new(),
            projects: Vec::new(),
            tasks: Vec::new(),
            bugs: Vec::new(),
            acceptance: Vec::new(),
            assets: Vec::new(),
            raw_projects: Vec::new(),
            raw_tasks: Vec::new(),
            raw_bugs: Vec::new(),
            raw_acceptance: Vec::new(),
            raw_assets: Vec::new(),
            error_msg: None,
        }
    }

    /// The configuration key of the current table.
    pub fn get_current_tab_key(&self) -> (r: &'static str)
        ensures
            r@ == tab_key(self.active_tab),
    {
        match self.active_tab {
            0 => "projects",
            1 => "tasks",
            2 => "bugs",
            3 => "acceptance",
            4 => "assets",
            _ => "default",
        }
    }

    /// The last column position the header cursor can reach.
    pub fn get_current_tab_max_col(&self) -> (r: usize)
        ensures
            r == max_column(self.active_tab),
    {
        match self.active_tab {
            0 => 1,
            1 => 2,
            2 => 3,
            4 => 1,
            _ => 0,
        }
    }

    /// Number of rows shown in the current table.
    pub fn get_current_list_len(&self) -> (r: usize)
        ensures
            r == list_len(self@),
    {
        match self.active_tab {
            0 => self.projects.len(),
            1 => self.tasks.len(),
            2 => self.bugs.len(),
            3 => self.acceptance.len(),
            4 => self.assets.len(),
            _ => 0,
        }
    }

    /// Keeps the selection inside the current table (see
    /// [`checked_selection`]).
    pub fn validate_selection(&mut self)
        ensures
            final(self)@ == (QualityView { selected: checked_selection(list_len(old(self)@), old(self).selected), ..old(self)@ }),
    {
        let len = self.get_current_list_len();
        if len == 0 {
            self.selected = None;
        } else {
            let cur = match self.selected {
                Some(i) => i,
                None => 0,
            };
            if cur >= len {
                self.selected = Some(0);
            }
        }
    }

    /// Applies the search text to the tables (see [`filtered`]).
    pub fn apply_filter(&mut self)
        ensures
            final(self)@ == filtered(old(self)@),
    {
        let lowered = to_lowercase(self.filter_query.as_str());
        let query = chars_of(lowered.as_str());
        if query.len() == 0 {
            self.projects = duplicate_rows(&self.raw_projects);
            self.tasks = duplicate_rows(&self.raw_tasks);
            self.bugs = duplicate_rows(&self.raw_bugs);
            self.acceptance = duplicate_rows(&self.raw_acceptance);
            self.assets = duplicate_rows(&self.raw_assets);
        } else if self.active_tab == 0 {
            self.projects = filter_rows(&self.raw_projects, &query);
        } else if self.active_tab == 1 {
            self.tasks = filter_rows(&self.raw_tasks, &query);
        } else if self.active_tab == 2 {
            self.bugs = filter_rows(&self.raw_bugs, &query);
        } else if self.active_tab == 3 {
            self.acceptance = filter_rows(&self.raw_acceptance, &query);
        } else if self.active_tab == 4 {
            self.assets = filter_rows(&self.raw_assets, &query);
        }
        self.validate_selection();
    }

    /// Switches to the current table afresh (see [`reset`]).
    pub fn reset_view(&mut self)
        ensures
            final(self)@ == reset(old(self)@),
    {
        self.selected = Some(0);
        self.column_index = 0;
        self.apply_filter();
    }

    /// Installs freshly loaded data (see [`loaded`]).
    pub fn load_data(
        &mut self,
        projects: Vec<Project>,
        tasks: Vec<TaskRecord>,
        bugs: Vec<BugRecord>,
        acceptance: Vec<String>,
        assets: Vec<(String, String)>,
    )
        ensures
            final(self)@ == loaded(old(self)@, projects@, tasks@, bugs@, acceptance@, assets@),
    {
        self.raw_projects = projects;
        self.raw_tasks = tasks;
        self.raw_bugs = bugs;
        self.raw_acceptance = acceptance;
        self.raw_assets = assets;
        self.is_loading = false;
        self.apply_filter();
    }
}

pub(crate) proof fn lemma_visible_positions_bounds(cols: Seq<ColumnView>)
    ensures
        forall|j: int| 0 <= j < visible_positions(cols).len() ==> #[trigger] visible_positions(cols)[j] < cols.len(),
    decreases cols.len(),
{
    if cols.len() > 0 {
        let r = visible_positions(cols.drop_last());
        lemma_visible_positions_bounds(cols.drop_last());
        assert forall|j: int| 0 <= j < visible_positions(cols).len() implies #[trigger] visible_positions(cols)[j] < cols.len() by {
            if j < r.len() {
                assert(visible_positions(cols)[j] == r[j]);
            }
        }
    }
}

impl QualityApp {
    /// Records that the database could not be opened or read: loading ends
    /// and the error shown is `Database Error: ` followed by `detail`;
    /// nothing else changes.
    pub fn database_failed(&mut self, detail: &str)
        ensures
            final(self).error_msg matches Some(m) && m@ == "Database Error: "@ + detail@,
            final(self)@ == (QualityView { is_loading: false, error_msg: final(self).error_msg, ..old(self)@ }),
    {
        let mut m = String::new();
        crate::text::push_text(&mut m, "Database Error: ");
        crate::text::push_text(&mut m, detail);
        assert(Seq::<char>::empty() + "Database Error: "@ =~= "Database Error: "@);
        self.error_msg = Some(m);
        self.is_loading = false;
    }
}

/// The column a header title sorts in tab `tab` (see [`sort_field_for`]).
pub fn sort_field_of(tab: usize, name: &str) -> (r: Option<SortField>)
    ensures
        r == sort_field_for(tab, name@),
{
    if tab == 0 {
        if text_eq(name, "项目") {
            Some(SortField::ProjectName)
        } else if text_eq(name, "状态") {
            Some(SortField::ProjectStatus)
        } else {
            None
        }
    } else if tab == 1 {
        if text_eq(name, "任务标题") {
            Some(SortField::TaskTitle)
        } else if text_eq(name, "状态") {
            Some(SortField::TaskStatus)
        } else if text_eq(name, "优先级") {
            Some(SortField::TaskPriority)
        } else {
            None
        }
    } else if tab == 2 {
        if text_eq(name, "ID") {
            Some(SortField::BugId)
        } else if text_eq(name, "标题") {
            Some(SortField::BugTitle)
        } else if text_eq(name, "级别") {
            Some(SortField::BugSeverity)
        } else if text_eq(name, "状态") {
            Some(SortField::BugStatus)
        } else {
            None
        }
    } else if tab == 4 {
        if text_eq(name, "资产名称") || text_eq(name, "Name") {
            Some(SortField::AssetName)
        } else if text_eq(name, "状态") || text_eq(name, "Status") {
            Some(SortField::AssetStatus)
        } else {
            None
        }
    } else {
        None
    }
}

/// Positions of the shown columns of `cols`, in order.
pub fn visible_positions_of(cols: &Vec<ColumnConfig>) -> (r: Vec<usize>)
    ensures
        r@ == visible_positions(columns_view(cols@)),
        forall|j: int| 0 <= j < r@.len() ==> #[trigger] r@[j] < cols@.len(),
{
    let ghost cv = columns_view(cols@);
    let mut visible: Vec<usize> = Vec::new();
    let mut i: usize = 0;
    assert(cv.take(0) =~= Seq::<ColumnView>::empty());
    while i < cols.len()
        invariant
            i <= cols@.len(),
            cv == columns_view(cols@),
            visible@ == visible_positions(cv.take(i as int)),
        decreases cols@.len() - i,
    {
        proof {
            assert(cv.take(i + 1).drop_last() =~= cv.take(i as int));
            assert(cv[i as int] == cols@[i as int]@);
        }
        if cols[i].visible {
            visible.push(i);
        }
        i = i + 1;
    }
    proof {
        assert(cv.take(i as int) =~= cv);
        lemma_visible_positions_bounds(cv);
    }
    visible
}

impl QualityApp {
    /// Activates the header at the cursor of the current table in `config`
    /// (see [`toggled_config`]).
    pub fn toggle_sort(&self, config: &mut AppConfig)
        ensures
            final(config)@ == toggled_config(old(config)@, tab_key(self.active_tab), self.column_index),
    {
        let key = self.get_current_tab_key();
        let found = match config.table_columns.get(key) {
            Some(cols) => Some(duplicate_columns(cols)),
            None => None,
        };
        if let Some(cols0) = found {
            let mut cols = cols0;
            let ghost cv = columns_view(cols@);
            let visible = visible_positions_of(&cols);
            if self.column_index < visible.len() {
                let idx = visible[self.column_index];
                let mut c = ColumnConfig {
                    name: String::new(),
                    visible: false,
                    width: 0,
                    sort: SortOrder::Unsorted,
                };
                let ghost before = cols@;
                cols.set_and_swap(idx, &mut c);
                assert(c == before[idx as int]);
                c.sort = c.sort.next();
                cols.set(idx, c);
                proof {
                    assert(cols@ == before.update(idx as int, c));
                    assert(columns_view(cols@) =~= cv.update(idx as int, ColumnView { sort: next_order(cv[idx as int].sort), ..cv[idx as int] }));
                }
            }
            config.table_columns.insert(key.to_string(), cols);
        }
    }

    /// Sorts the current table by the column titled `col_name` (see
    /// [`sorted_view`]); `_tab_key` is not consulted.
    pub fn apply_sort(&mut self, _tab_key: &str, col_name: &str, order: SortOrder)
        ensures
            final(self)@ == sorted_view(old(self)@, col_name@, order),
    {
        if order == SortOrder::Unsorted {
            return;
        }
        let asc = order == SortOrder::Asc;
        let clean = trim(col_name);
        match sort_field_of(self.active_tab, clean.as_str()) {
            Some(f) => {
                if self.active_tab == 0 {
                    sort_rows(&mut self.projects, f, asc);
                } else if self.active_tab == 1 {
                    sort_rows(&mut self.tasks, f, asc);
                } else if self.active_tab == 2 {
                    sort_rows(&mut self.bugs, f, asc);
                } else {
                    sort_rows(&mut self.assets, f, asc);
                }
            },
            None => {},
        }
    }

    fn select_next(&mut self)
        ensures
            final(self)@ == step_down(old(self)@),
    {
        let len = self.get_current_list_len();
        if len > 0 {
            let i = match self.selected {
                Some(i) => if i >= len - 1 {
                    0
                } else {
                    i + 1
                },
                None => 0,
            };
            self.selected = Some(i);
        }
    }

    fn select_prev(&mut self)
        ensures
            final(self)@ == step_up(old(self)@),
    {
        let len = self.get_current_list_len();
        if len > 0 {
            let i = match self.selected {
                Some(i) => if i == 0 {
                    len - 1
                } else {
                    i - 1
                },
                None => 0,
            };
            self.selected = Some(i);
        }
    }

    fn normal_key(&mut self, k: KeyCode) -> (r: (Option<CustomAction>, Option<Effect>))
        requires
            old(self).mode == QualityMode::Normal,
        ensures
            ({
                let s = key_step(old(self)@, k);
                final(self)@ == s.0 && r.0 == s.1 && opt_effect_view(r.1) == s.2
            }),
    {
        match k {
            KeyCode::Char(c) => {
                if c == '1' {
                    self.active_tab = 0;
                    self.reset_view();
                } else if c == '2' {
                    self.active_tab = 1;
                    self.reset_view();
                } else if c == '3' {
                    self.active_tab = 2;
                    self.reset_view();
                } else if c == '4' {
                    self.active_tab = 3;
                    self.reset_view();
                } else if c == '5' {
                    self.active_tab = 4;
                    self.reset_view();
                } else if c == '/' {
                    self.mode = QualityMode::Filtering;
                } else if c == 'f' || c == 's' {
                    self.mode = QualityMode::HeaderFocus;
                    self.column_index = 0;
                } else if c == 'r' {
                    return (Some(CustomAction::RefreshData), None);
                } else if c == 'i' || c == 'a' {
                    self.mode = QualityMode::Editing;
                    self.edit_buffer = String::new();
                } else if c == 'j' {
                    self.select_next();
                } else if c == 'k' {
                    self.select_prev();
                } else if c == 'h' {
                    self.focus_on_detail = false;
                } else if c == 'l' {
                    self.focus_on_detail = true;
                }
            },
            KeyCode::Down => self.select_next(),
            KeyCode::Up => self.select_prev(),
            KeyCode::Left => self.focus_on_detail = false,
            KeyCode::Right => self.focus_on_detail = true,
            _ => {},
        }
        (None, None)
    }

    fn filtering_key(&mut self, k: KeyCode) -> (r: (Option<CustomAction>, Option<Effect>))
        requires
            old(self).mode == QualityMode::Filtering,
        ensures
            ({
                let s = key_step(old(self)@, k);
                final(self)@ == s.0 && r.0 == s.1 && opt_effect_view(r.1) == s.2
            }),
    {
        match k {
            KeyCode::Esc | KeyCode::Enter => self.mode = QualityMode::Normal,
            KeyCode::Backspace => {
                let _ = pop_char(&mut self.filter_query);
                self.apply_filter();
            },
            KeyCode::Char(c) => {
                push_char(&mut self.filter_query, c);
                self.apply_filter();
            },
            _ => {},
        }
        (None, None)
    }

    fn editing_key(&mut self, k: KeyCode) -> (r: (Option<CustomAction>, Option<Effect>))
        requires
            old(self).mode == QualityMode::Editing,
        ensures
            ({
                let s = key_step(old(self)@, k);
                final(self)@ == s.0 && r.0 == s.1 && opt_effect_view(r.1) == s.2
            }),
    {
        match k {
            KeyCode::Esc => self.mode = QualityMode::Normal,
            KeyCode::Enter => {
                let effect = if !self.edit_buffer.as_str().is_empty() && self.active_tab == 3 {
                    Some(Effect::SubmitAcceptance(self.edit_buffer.clone()))
                } else {
                    None
                };
                self.mode = QualityMode::Normal;
                return (Some(CustomAction::RefreshData), effect);
            },
            KeyCode::Backspace => {
                let _ = pop_char(&mut self.edit_buffer);
            },
            KeyCode::Char(c) => push_char(&mut self.edit_buffer, c),
            _ => {},
        }
        (None, None)
    }

    fn header_key(&mut self, k: KeyCode) -> (r: (Option<CustomAction>, Option<Effect>))
        requires
            old(self).mode == QualityMode::HeaderFocus,
        ensures
            ({
                let s = key_step(old(self)@, k);
                final(self)@ == s.0 && r.0 == s.1 && opt_effect_view(r.1) == s.2
            }),
    {
        match k {
            KeyCode::Left | KeyCode::Char('h') => {
                if self.column_index > 0 {
                    self.column_index = self.column_index - 1;
                }
            },
            KeyCode::Right | KeyCode::Char('l') => {
                let max_col = self.get_current_tab_max_col();
                if self.column_index < max_col {
                    self.column_index = self.column_index + 1;
                }
            },
            KeyCode::Enter => {
                return (Some(CustomAction::SaveConfig), None);
            },
            KeyCode::Esc | KeyCode::Char('q') | KeyCode::Char('s') | KeyCode::Char('f') => {
                self.mode = QualityMode::Normal;
            },
            _ => {},
        }
        (None, None)
    }

    /// Reacts to an event (see [`quality_step`]): the action handed back and
    /// the outside work asked for come back.
    pub fn handle_event(&mut self, event: &AppEvent) -> (r: (Option<CustomAction>, Option<Effect>))
        ensures
            ({
                let s = quality_step(old(self)@, *event);
                final(self)@ == s.0 && r.0 == s.1 && opt_effect_view(r.1) == s.2
            }),
    {
        match event {
            AppEvent::Key(k) => match self.mode {
                QualityMode::Normal => self.normal_key(*k),
                QualityMode::Filtering => self.filtering_key(*k),
                QualityMode::Editing => self.editing_key(*k),
                QualityMode::HeaderFocus => self.header_key(*k),
            },
            _ => (None, None),
        }
    }
}

// ---------------------------------------------------------------------------
// Laws

/// After the search is applied the selection is valid: an empty table has
/// none, and a selected row exists.
pub proof fn lemma_filtered_selection_valid(q: QualityView)
    ensures
        list_len(filtered(q)) == 0 ==> filtered(q).selected is None,
        filtered(q).selected matches Some(i) ==> i < list_len(filtered(q)),
{
}

/// Each table shows exactly the loaded rows that match the search, in their
/// loaded order: every shown row matches and was loaded, and every loaded
/// row that matches is shown. With an empty search every loaded row is
/// shown.
pub proof fn lemma_matching_rows_exact<T: Row>(rows: Seq<T>, query: Seq<char>)
    ensures
        forall|i: int| 0 <= i < matching_rows(rows, query).len() ==> crate::rows::row_matches(#[trigger] matching_rows(rows, query)[i], query)
            && rows.contains(matching_rows(rows, query)[i]),
        forall|i: int| 0 <= i < rows.len() && crate::rows::row_matches(#[trigger] rows[i], query) ==> matching_rows(rows, query).contains(rows[i]),
        matching_rows(rows, query).len() <= rows.len(),
{
    let pred = |r: T| crate::rows::row_matches(r, query);
    rows.lemma_filter_len(pred);
    assert forall|i: int| 0 <= i < matching_rows(rows, query).len() implies crate::rows::row_matches(#[trigger] matching_rows(rows, query)[i], query)
        && rows.contains(matching_rows(rows, query)[i]) by {
        rows.lemma_filter_pred(pred, i);
        let f = matching_rows(rows, query);
        assert(f.contains(f[i]));
        rows.lemma_filter_contains_rev(pred, f[i]);
    }
    assert forall|i: int| 0 <= i < rows.len() && crate::rows::row_matches(#[trigger] rows[i], query) implies matching_rows(rows, query).contains(rows[i]) by {
        rows.lemma_filter_contains(pred, i);
    }
}

/// Applying the search a second time changes nothing.
pub proof fn lemma_filtered_idempotent(q: QualityView)
    ensures
        filtered(filtered(q)) == filtered(q),
{
}

/// Esc always brings the workspace back to normal mode.
pub proof fn lemma_escape_returns_to_normal(q: QualityView)
    ensures
        key_step(q, KeyCode::Esc).0.mode == QualityMode::Normal,
{
}

/// While taking a new entry, typing a character and then deleting it gives
/// back the same state.
pub proof fn lemma_typing_then_backspace(q: QualityView, c: char)
    requires
        q.mode == QualityMode::Editing,
    ensures
        key_step(key_step(q, KeyCode::Char(c)).0, KeyCode::Backspace).0 == q,
{
    assert(q.edit_buffer.push(c).drop_last() =~= q.edit_buffer);
}

/// The current table shows the same rows in `a` and `b`.
pub open spec fn same_current_rows(a: QualityView, b: QualityView) -> bool {
    &&& a.active_tab == b.active_tab
    &&& (a.active_tab == 0 ==> a.projects == b.projects)
    &&& (a.active_tab == 1 ==> a.tasks == b.tasks)
    &&& (a.active_tab == 2 ==> a.bugs == b.bugs)
    &&& (a.active_tab == 3 ==> a.acceptance == b.acceptance)
    &&& (a.active_tab == 4 ==> a.assets == b.assets)
}

/// While searching, typing a character and then deleting it gives back the
/// search text, and the current table shows the rows the search gave before.
pub proof fn lemma_search_typing_then_backspace(q: QualityView, c: char)
    requires
        q.mode == QualityMode::Filtering,
    ensures
        ({
            let r = key_step(key_step(q, KeyCode::Char(c)).0, KeyCode::Backspace).0;
            &&& r.filter_query == q.filter_query
            &&& r.mode == QualityMode::Filtering
            &&& same_current_rows(r, filtered(q))
        }),
{
    assert(q.filter_query.push(c).drop_last() =~= q.filter_query);
}

/// Moving down and then up returns to the selected row.
pub proof fn lemma_down_then_up(q: QualityView)
    requires
        q.selected matches Some(i) && i < list_len(q),
        list_len(q) <= usize::MAX,
    ensures
        step_up(step_down(q)) == q,
{
}

/// Moving down from the last row wraps to the first, and moving up from the
/// first row wraps to the last.
pub proof fn lemma_selection_wraps(q: QualityView)
    requires
        0 < list_len(q) <= usize::MAX,
    ensures
        q.selected == Some((list_len(q) - 1) as usize) ==> step_down(q).selected == Some(0usize),
        q.selected == Some(0usize) ==> step_up(q).selected == Some((list_len(q) - 1) as usize),
{
}

/// In header mode the cursor never goes past the last column of the table.
pub proof fn lemma_header_cursor_bounded(q: QualityView, k: KeyCode)
    requires
        q.mode == QualityMode::HeaderFocus,
        q.column_index <= max_column(q.active_tab),
    ensures
        key_step(q, k).0.column_index <= max_column(key_step(q, k).0.active_tab),
{
}

pub(crate) proof fn lemma_toggled_keeps_visibility(cols: Seq<ColumnView>, ci: usize)
    ensures
        toggled_columns(cols, ci).len() == cols.len(),
        forall|i: int| 0 <= i < cols.len() ==> #[trigger] toggled_columns(cols, ci)[i].visible == cols[i].visible,
        visible_positions(toggled_columns(cols, ci)) == visible_positions(cols),
{
    lemma_visible_positions_bounds(cols);
    lemma_same_visibility_same_positions(toggled_columns(cols, ci), cols);
}

proof fn lemma_same_visibility_same_positions(a: Seq<ColumnView>, b: Seq<ColumnView>)
    requires
        a.len() == b.len(),
        forall|i: int| 0 <= i < a.len() ==> #[trigger] a[i].visible == b[i].visible,
    ensures
        visible_positions(a) == visible_positions(b),
    decreases a.len(),
{
    if a.len() > 0 {
        lemma_same_visibility_same_positions(a.drop_last(), b.drop_last());
        assert(a.last().visible == b.last().visible);
    }
}

/// Activating the same header three times gives the layout back.
pub proof fn lemma_toggle_three_times(c: AppConfigView, key: Seq<char>, ci: usize)
    ensures
        toggled_config(toggled_config(toggled_config(c, key, ci), key, ci), key, ci) == c,
{
    if c.table_columns.dom().contains(key) {
        let cols = c.table_columns[key];
        let t1 = toggled_columns(cols, ci);
        let t2 = toggled_columns(t1, ci);
        let t3 = toggled_columns(t2, ci);
        lemma_toggled_keeps_visibility(cols, ci);
        lemma_toggled_keeps_visibility(t1, ci);
        lemma_toggled_keeps_visibility(t2, ci);
        lemma_visible_positions_bounds(cols);
        let vp = visible_positions(cols);
        if ci < vp.len() {
            let i = vp[ci as int] as int;
            crate::config::lemma_sort_cycle(cols[i].sort);
            assert(t3 =~= cols);
        } else {
            assert(t3 =~= cols);
        }
        let m = c.table_columns;
        assert(m.insert(key, t1).insert(key, t2).insert(key, t3) =~= m);
    }
}

// ---------------------------------------------------------------------------
// What the tables show

/// The marker after a header title for a sort state.
pub open spec fn sort_marker(o: SortOrder) -> Seq<char> {
    match o {
        SortOrder::Asc => "▲"@,
        SortOrder::Desc => "▼"@,
        SortOrder::Unsorted => "  "@,
    }
}

/// The text of a column header: the title between spaces, then the sort
/// marker.
pub open spec fn header_label(c: ColumnView) -> Seq<char> {
    seq![' '] + c.name + seq![' '] + sort_marker(c.sort)
}

/// The title of the table of tab `t`: its key in capitals between spaces.
pub open spec fn table_title_text(t: usize) -> Seq<char> {
    if t == 0 {
        " PROJECTS "@
    } else if t == 1 {
        " TASKS "@
    } else if t == 2 {
        " BUGS "@
    } else if t == 3 {
        " ACCEPTANCE "@
    } else if t == 4 {
        " ASSETS "@
    } else {
        " DEFAULT "@
    }
}

/// The cells of each shown row of the current table.
pub open spec fn table_cells(q: QualityView) -> Seq<Seq<Seq<char>>> {
    if q.active_tab == 0 {
        q.projects.map_values(|p: Project| seq![p.name@, crate::models::biz::project_status_text(p.status)])
    } else if q.active_tab == 1 {
        q.tasks.map_values(|t: TaskRecord| seq![t.title@, t.status@, crate::text::signed_decimal(t.priority as int)])
    } else if q.active_tab == 2 {
        q.bugs.map_values(|b: BugRecord| seq![crate::text::signed_decimal(b.id as int), b.title@, b.severity@, b.status@])
    } else if q.active_tab == 3 {
        q.acceptance.map_values(|a: String| seq![a@])
    } else if q.active_tab == 4 {
        q.assets.map_values(|x: (String, String)| seq![x.0@, x.1@])
    } else {
        Seq::empty()
    }
}

/// The labelled lines of the detail panel for the selected row, if a row of
/// a table with details is selected.
pub open spec fn detail_lines(q: QualityView) -> Option<Seq<(Seq<char>, Seq<char>)>> {
    match q.selected {
        Some(i) => if q.active_tab == 0 && i < q.projects.len() {
            Some(seq![("项目: "@, q.projects[i as int].name@), ("状态: "@, crate::models::biz::project_status_text(q.projects[i as int].status))])
        } else if q.active_tab == 1 && i < q.tasks.len() {
            Some(seq![("任务: "@, q.tasks[i as int].title@), ("状态: "@, q.tasks[i as int].status@)])
        } else if q.active_tab == 2 && i < q.bugs.len() {
            Some(seq![("缺陷: "@, q.bugs[i as int].title@), ("状态: "@, q.bugs[i as int].status@)])
        } else if q.active_tab == 3 && i < q.acceptance.len() {
            Some(seq![("验收标准: "@, q.acceptance[i as int]@)])
        } else {
            None
        },
        None => None,
    }
}

pub open spec fn strings_view(v: Seq<String>) -> Seq<Seq<char>> {
    v.map_values(|s: String| s@)
}

pub open spec fn rows_view(v: Seq<Vec<String>>) -> Seq<Seq<Seq<char>>> {
    v.map_values(|r: Vec<String>| strings_view(r@))
}

proof fn lemma_rows_view_push(v: Seq<Vec<String>>, row: Vec<String>)
    ensures
        rows_view(v.push(row)) == rows_view(v).push(strings_view(row@)),
{
    assert(rows_view(v.push(row)) =~= rows_view(v).push(strings_view(row@)));
}

fn cell(s: &String) -> (r: String)
    ensures
        r@ == s@,
{
    s.clone()
}

fn cells2(a: String, b: String) -> (r: Vec<String>)
    ensures
        strings_view(r@) == seq![a@, b@],
{
    let mut r: Vec<String> = Vec::new();
    r.push(a);
    r.push(b);
    assert(strings_view(r@) =~= seq![a@, b@]);
    r
}

fn cells4(a: String, b: String, c: String, d: String) -> (r: Vec<String>)
    ensures
        strings_view(r@) == seq![a@, b@, c@, d@],
{
    let mut r: Vec<String> = Vec::new();
    r.push(a);
    r.push(b);
    r.push(c);
    r.push(d);
    assert(strings_view(r@) =~= seq![a@, b@, c@, d@]);
    r
}

impl QualityApp {
    /// The header texts of the shown columns of the current table in
    /// `config`, each with whether the header cursor is on it and the
    /// column's width; empty when the table has no layout.
    pub fn header_cells(&self, config: &AppConfig) -> (r: Vec<(String, bool, u16)>)
        ensures
            ({
                let key = tab_key(self.active_tab);
                let cols = if config@.table_columns.dom().contains(key) {
                    config@.table_columns[key]
                } else {
                    Seq::empty()
                };
                let vp = visible_positions(cols);
                &&& r@.len() == vp.len()
                &&& forall|i: int| 0 <= i < vp.len() ==> (#[trigger] r@[i]).0@ == header_label(cols[vp[i] as int])
                    && r@[i].1 == (self.mode == QualityMode::HeaderFocus && i == self.column_index)
                    && r@[i].2 == cols[vp[i] as int].width
            }),
    {
        let key = self.get_current_tab_key();
        let mut out: Vec<(String, bool, u16)> = Vec::new();
        match config.table_columns.get(key) {
            Some(cols) => {
                let vp = visible_positions_of(cols);
                let mut i: usize = 0;
                while i < vp.len()
                    invariant
                        i <= vp@.len(),
                        vp@ == visible_positions(columns_view(cols@)),
                        forall|j: int| 0 <= j < vp@.len() ==> #[trigger] vp@[j] < cols@.len(),
                        out@.len() == i,
                        forall|j: int| 0 <= j < i ==> (#[trigger] out@[j]).0@ == header_label(columns_view(cols@)[vp@[j] as int])
                            && out@[j].1 == (self.mode == QualityMode::HeaderFocus && j == self.column_index)
                            && out@[j].2 == columns_view(cols@)[vp@[j] as int].width,
                    decreases vp@.len() - i,
                {
                    let c = &cols[vp[i]];
                    let mut label = String::new();
                    push_char(&mut label, ' ');
                    crate::text::push_text(&mut label, c.name.as_str());
                    push_char(&mut label, ' ');
                    let marker = match c.sort {
                        SortOrder::Asc => "▲",
                        SortOrder::Desc => "▼",
                        SortOrder::Unsorted => "  ",
                    };
                    crate::text::push_text(&mut label, marker);
                    proof {
                        assert(columns_view(cols@)[vp@[i as int] as int] == c@);
                        assert(label@ =~= header_label(c@));
                    }
                    let focused = self.mode == QualityMode::HeaderFocus && i == self.column_index;
                    out.push((label, focused, c.width));
                    i = i + 1;
                }
                out
            },
            None => {
                proof {
                    assert(visible_positions(Seq::<ColumnView>::empty()) =~= Seq::<usize>::empty());
                }
                out
            },
        }
    }

    /// Whether the search bar is shown: while searching, or while a search
    /// text is set.
    pub fn search_bar_visible(&self) -> (r: bool)
        ensures
            r == (self.mode == QualityMode::Filtering || self.filter_query@.len() > 0),
    {
        self.mode == QualityMode::Filtering || !self.filter_query.as_str().is_empty()
    }

    /// The title of the entry box: on the acceptance table it names the new
    /// criterion and the keys that submit and cancel it.
    pub fn modal_title(&self) -> (r: &'static str)
        ensures
            r@ == (if self.active_tab == 3 {
                " 新增验收标准 (Enter 提交 / Esc 取消) "@
            } else {
                " 快速录入 "@
            }),
    {
        if self.active_tab == 3 {
            " 新增验收标准 (Enter 提交 / Esc 取消) "
        } else {
            " 快速录入 "
        }
    }

    /// The title of the current table: its key in capitals between spaces.
    pub fn table_title(&self) -> (r: &'static str)
        ensures
            r@ == table_title_text(self.active_tab),
    {
        match self.active_tab {
            0 => " PROJECTS ",
            1 => " TASKS ",
            2 => " BUGS ",
            3 => " ACCEPTANCE ",
            4 => " ASSETS ",
            _ => " DEFAULT ",
        }
    }

    /// The cells of each shown row of the current table (see
    /// [`table_cells`]).
    pub fn table_rows(&self) -> (r: Vec<Vec<String>>)
        ensures
            rows_view(r@) == table_cells(self@),
    {
        let mut out: Vec<Vec<String>> = Vec::new();
        let ghost target = table_cells(self@);
        let n = self.get_current_list_len();
        let mut i: usize = 0;
        while i < n
            invariant
                n == list_len(self@),
                target == table_cells(self@),
                0 <= self.active_tab <= 4 || n == 0,
                i <= n,
                rows_view(out@) == target.take(i as int),
            decreases n - i,
        {
            let row = if self.active_tab == 0 {
                let p = &self.projects[i];
                cells2(cell(&p.name), p.status.to_string())
            } else if self.active_tab == 1 {
                let t = &self.tasks[i];
                let mut r = Vec::new();
                r.push(cell(&t.title));
                r.push(cell(&t.status));
                r.push(crate::text::i64_to_string(t.priority as i64));
                assert(strings_view(r@) =~= target[i as int]);
                r
            } else if self.active_tab == 2 {
                let b = &self.bugs[i];
                cells4(crate::text::i64_to_string(b.id as i64), cell(&b.title), cell(&b.severity), cell(&b.status))
            } else if self.active_tab == 3 {
                let mut r = Vec::new();
                r.push(cell(&self.acceptance[i]));
                assert(strings_view(r@) =~= target[i as int]);
                r
            } else {
                let x = &self.assets[i];
                cells2(cell(&x.0), cell(&x.1))
            };
            assert(strings_view(row@) == target[i as int]);
            proof {
                lemma_rows_view_push(out@, row);
                assert(target.take(i + 1) =~= target.take(i as int).push(target[i as int]));
            }
            out.push(row);
            i = i + 1;
        }
        assert(target.len() == n);
        assert(target.take(n as int) =~= target);
        out
    }

    /// The labelled lines of the detail panel (see [`detail_lines`]).
    pub fn detail(&self) -> (r: Option<Vec<(String, String)>>)
        ensures
            match r {
                Some(v) => detail_lines(self@) == Some(v@.map_values(|p: (String, String)| (p.0@, p.1@))),
                None => detail_lines(self@) is None,
            },
    {
        let idx = match self.selected {
            Some(i) => i,
            None => return None,
        };
        let mut lines: Vec<(String, String)> = Vec::new();
        if self.active_tab == 0 && idx < self.projects.len() {
            let p = &self.projects[idx];
            lines.push(("项目: ".to_string(), p.name.clone()));
            lines.push(("状态: ".to_string(), p.status.to_string()));
        } else if self.active_tab == 1 && idx < self.tasks.len() {
            let t = &self.tasks[idx];
            lines.push(("任务: ".to_string(), t.title.clone()));
            lines.push(("状态: ".to_string(), t.status.clone()));
        } else if self.active_tab == 2 && idx < self.bugs.len() {
            let b = &self.bugs[idx];
            lines.push(("缺陷: ".to_string(), b.title.clone()));
            lines.push(("状态: ".to_string(), b.status.clone()));
        } else if self.active_tab == 3 && idx < self.acceptance.len() {
            lines.push(("验收标准: ".to_string(), self.acceptance[idx].clone()));
        } else {
            return None;
        }
        assert(detail_lines(self@) == Some(lines@.map_values(|p: (String, String)| (p.0@, p.1@))));
        Some(lines)
    }
}

} // verus!

verus! {

// ---------------------------------------------------------------------------
// Laws on what each column and line shows

/// A title with no white space at either end is its own trimmed form.
proof fn lemma_plain_title(s: Seq<char>)
    requires
        s.len() > 0,
        !crate::text::is_white_space(s[0]),
        !crate::text::is_white_space(s.last()),
    ensures
        trimmed(s) == s,
{
    assert(crate::text::trimmed_start(s) == s);
    assert(crate::text::trimmed_end(s) == s);
}

/// Sorting the task table by a column orders the tasks by the field the
/// column's title names, in the requested direction, and keeps every task:
/// 任务标题 by title and 状态 by state in code-point order, 优先级 by
/// priority.
pub proof fn lemma_task_columns_sort_by_their_fields(q: QualityView, order: SortOrder)
    requires
        q.active_tab == 1,
        order != SortOrder::Unsorted,
    ensures
        ({
            let asc = order == SortOrder::Asc;
            let by_title = sorted_view(q, "任务标题"@, order).tasks;
            let by_state = sorted_view(q, "状态"@, order).tasks;
            let by_priority = sorted_view(q, "优先级"@, order).tasks;
            &&& by_title.to_multiset() == q.tasks.to_multiset()
            &&& by_state.to_multiset() == q.tasks.to_multiset()
            &&& by_priority.to_multiset() == q.tasks.to_multiset()
            &&& forall|i: int, j: int|
                0 <= i < j < by_title.len() ==> if asc {
                    !crate::text::text_lt(#[trigger] by_title[j].title@, #[trigger] by_title[i].title@)
                } else {
                    !crate::text::text_lt(by_title[i].title@, by_title[j].title@)
                }
            &&& forall|i: int, j: int|
                0 <= i < j < by_state.len() ==> if asc {
                    !crate::text::text_lt(#[trigger] by_state[j].status@, #[trigger] by_state[i].status@)
                } else {
                    !crate::text::text_lt(by_state[i].status@, by_state[j].status@)
                }
            &&& forall|i: int, j: int|
                0 <= i < j < by_priority.len() ==> if asc {
                    (#[trigger] by_priority[i]).priority <= (#[trigger] by_priority[j]).priority
                } else {
                    by_priority[i].priority >= by_priority[j].priority
                }
        }),
{
    reveal_strlit("任务标题");
    reveal_strlit("状态");
    reveal_strlit("优先级");
    lemma_plain_title("任务标题"@);
    lemma_plain_title("状态"@);
    lemma_plain_title("优先级"@);
    let asc = order == SortOrder::Asc;
    assert(sort_field_for(1, "任务标题"@) == Some(SortField::TaskTitle));
    assert(sort_field_for(1, "状态"@) == Some(SortField::TaskStatus));
    assert(sort_field_for(1, "优先级"@) == Some(SortField::TaskPriority));
    crate::rows::lemma_sorted_rows_permutes(q.tasks, SortField::TaskTitle, asc);
    crate::rows::lemma_sorted_rows_permutes(q.tasks, SortField::TaskStatus, asc);
    crate::rows::lemma_sorted_rows_permutes(q.tasks, SortField::TaskPriority, asc);
    crate::rows::lemma_sorted_rows_ordered(q.tasks, SortField::TaskTitle, asc);
    crate::rows::lemma_sorted_rows_ordered(q.tasks, SortField::TaskStatus, asc);
    crate::rows::lemma_sorted_rows_ordered(q.tasks, SortField::TaskPriority, asc);
    let by_title = sorted_view(q, "任务标题"@, order).tasks;
    let by_state = sorted_view(q, "状态"@, order).tasks;
    let by_priority = sorted_view(q, "优先级"@, order).tasks;
    assert(by_title == sorted_rows(q.tasks, SortField::TaskTitle, asc));
    assert(by_state == sorted_rows(q.tasks, SortField::TaskStatus, asc));
    assert(by_priority == sorted_rows(q.tasks, SortField::TaskPriority, asc));
    assert forall|i: int, j: int| 0 <= i < j < by_title.len() implies if asc {
        !crate::text::text_lt(#[trigger] by_title[j].title@, #[trigger] by_title[i].title@)
    } else {
        !crate::text::text_lt(by_title[i].title@, by_title[j].title@)
    } by {
        assert(!crate::sorting::before(by_title[j].key_of(SortField::TaskTitle), by_title[i].key_of(SortField::TaskTitle), asc));
    }
    assert forall|i: int, j: int| 0 <= i < j < by_state.len() implies if asc {
        !crate::text::text_lt(#[trigger] by_state[j].status@, #[trigger] by_state[i].status@)
    } else {
        !crate::text::text_lt(by_state[i].status@, by_state[j].status@)
    } by {
        assert(!crate::sorting::before(by_state[j].key_of(SortField::TaskStatus), by_state[i].key_of(SortField::TaskStatus), asc));
    }
    assert forall|i: int, j: int| 0 <= i < j < by_priority.len() implies if asc {
        (#[trigger] by_priority[i]).priority <= (#[trigger] by_priority[j]).priority
    } else {
        by_priority[i].priority >= by_priority[j].priority
    } by {
        assert(!crate::sorting::before(by_priority[j].key_of(SortField::TaskPriority), by_priority[i].key_of(SortField::TaskPriority), asc));
    }
}

/// Sorting the bug table by a column orders the bugs by the field the
/// column's title names, in the requested direction, and keeps every bug:
/// ID by number, 标题 by title, 级别 by severity and 状态 by state.
pub proof fn lemma_bug_columns_sort_by_their_fields(q: QualityView, order: SortOrder)
    requires
        q.active_tab == 2,
        order != SortOrder::Unsorted,
    ensures
        ({
            let asc = order == SortOrder::Asc;
            let by_id = sorted_view(q, "ID"@, order).bugs;
            let by_title = sorted_view(q, "标题"@, order).bugs;
            let by_severity = sorted_view(q, "级别"@, order).bugs;
            let by_state = sorted_view(q, "状态"@, order).bugs;
            &&& by_id.to_multiset() == q.bugs.to_multiset()
            &&& by_title.to_multiset() == q.bugs.to_multiset()
            &&& by_severity.to_multiset() == q.bugs.to_multiset()
            &&& by_state.to_multiset() == q.bugs.to_multiset()
            &&& forall|i: int, j: int|
                0 <= i < j < by_id.len() ==> if asc {
                    (#[trigger] by_id[i]).id <= (#[trigger] by_id[j]).id
                } else {
                    by_id[i].id >= by_id[j].id
                }
            &&& forall|i: int, j: int|
                0 <= i < j < by_title.len() ==> if asc {
                    !crate::text::text_lt(#[trigger] by_title[j].title@, #[trigger] by_title[i].title@)
                } else {
                    !crate::text::text_lt(by_title[i].title@, by_title[j].title@)
                }
            &&& forall|i: int, j: int|
                0 <= i < j < by_severity.len() ==> if asc {
                    !crate::text::text_lt(#[trigger] by_severity[j].severity@, #[trigger] by_severity[i].severity@)
                } else {
                    !crate::text::text_lt(by_severity[i].severity@, by_severity[j].severity@)
                }
            &&& forall|i: int, j: int|
                0 <= i < j < by_state.len() ==> if asc {
                    !crate::text::text_lt(#[trigger] by_state[j].status@, #[trigger] by_state[i].status@)
                } else {
                    !crate::text::text_lt(by_state[i].status@, by_state[j].status@)
                }
        }),
{
    reveal_strlit("ID");
    reveal_strlit("标题");
    reveal_strlit("级别");
    reveal_strlit("状态");
    lemma_plain_title("ID"@);
    lemma_plain_title("标题"@);
    lemma_plain_title("级别"@);
    lemma_plain_title("状态"@);
    let asc = order == SortOrder::Asc;
    assert(sort_field_for(2, "ID"@) == Some(SortField::BugId));
    assert(sort_field_for(2, "标题"@) == Some(SortField::BugTitle));
    assert(sort_field_for(2, "级别"@) == Some(SortField::BugSeverity));
    assert(sort_field_for(2, "状态"@) == Some(SortField::BugStatus));
    let by_id = sorted_view(q, "ID"@, order).bugs;
    let by_title = sorted_view(q, "标题"@, order).bugs;
    let by_severity = sorted_view(q, "级别"@, order).bugs;
    let by_state = sorted_view(q, "状态"@, order).bugs;
    assert(by_id == sorted_rows(q.bugs, SortField::BugId, asc));
    assert(by_title == sorted_rows(q.bugs, SortField::BugTitle, asc));
    assert(by_severity == sorted_rows(q.bugs, SortField::BugSeverity, asc));
    assert(by_state == sorted_rows(q.bugs, SortField::BugStatus, asc));
    crate::rows::lemma_sorted_rows_permutes(q.bugs, SortField::BugId, asc);
    crate::rows::lemma_sorted_rows_permutes(q.bugs, SortField::BugTitle, asc);
    crate::rows::lemma_sorted_rows_permutes(q.bugs, SortField::BugSeverity, asc);
    crate::rows::lemma_sorted_rows_permutes(q.bugs, SortField::BugStatus, asc);
    crate::rows::lemma_sorted_rows_ordered(q.bugs, SortField::BugId, asc);
    crate::rows::lemma_sorted_rows_ordered(q.bugs, SortField::BugTitle, asc);
    crate::rows::lemma_sorted_rows_ordered(q.bugs, SortField::BugSeverity, asc);
    crate::rows::lemma_sorted_rows_ordered(q.bugs, SortField::BugStatus, asc);
    assert forall|i: int, j: int| 0 <= i < j < by_id.len() implies if asc {
        (#[trigger] by_id[i]).id <= (#[trigger] by_id[j]).id
    } else {
        by_id[i].id >= by_id[j].id
    } by {
        assert(!crate::sorting::before(by_id[j].key_of(SortField::BugId), by_id[i].key_of(SortField::BugId), asc));
    }
    assert forall|i: int, j: int| 0 <= i < j < by_title.len() implies if asc {
        !crate::text::text_lt(#[trigger] by_title[j].title@, #[trigger] by_title[i].title@)
    } else {
        !crate::text::text_lt(by_title[i].title@, by_title[j].title@)
    } by {
        assert(!crate::sorting::before(by_title[j].key_of(SortField::BugTitle), by_title[i].key_of(SortField::BugTitle), asc));
    }
    assert forall|i: int, j: int| 0 <= i < j < by_severity.len() implies if asc {
        !crate::text::text_lt(#[trigger] by_severity[j].severity@, #[trigger] by_severity[i].severity@)
    } else {
        !crate::text::text_lt(by_severity[i].severity@, by_severity[j].severity@)
    } by {
        assert(!crate::sorting::before(by_severity[j].key_of(SortField::BugSeverity), by_severity[i].key_of(SortField::BugSeverity), asc));
    }
    assert forall|i: int, j: int| 0 <= i < j < by_state.len() implies if asc {
        !crate::text::text_lt(#[trigger] by_state[j].status@, #[trigger] by_state[i].status@)
    } else {
        !crate::text::text_lt(by_state[i].status@, by_state[j].status@)
    } by {
        assert(!crate::sorting::before(by_state[j].key_of(SortField::BugStatus), by_state[i].key_of(SortField::BugStatus), asc));
    }
}

/// Sorting the project table by a column orders the projects by the field
/// the column's title names, in the requested direction, and keeps every
/// project: 项目 by name and 状态 by the state's text.
pub proof fn lemma_project_columns_sort_by_their_fields(q: QualityView, order: SortOrder)
    requires
        q.active_tab == 0,
        order != SortOrder::Unsorted,
    ensures
        ({
            let asc = order == SortOrder::Asc;
            let by_name = sorted_view(q, "项目"@, order).projects;
            let by_state = sorted_view(q, "状态"@, order).projects;
            &&& by_name.to_multiset() == q.projects.to_multiset()
            &&& by_state.to_multiset() == q.projects.to_multiset()
            &&& forall|i: int, j: int|
                0 <= i < j < by_name.len() ==> if asc {
                    !crate::text::text_lt(#[trigger] by_name[j].name@, #[trigger] by_name[i].name@)
                } else {
                    !crate::text::text_lt(by_name[i].name@, by_name[j].name@)
                }
            &&& forall|i: int, j: int|
                0 <= i < j < by_state.len() ==> if asc {
                    !crate::text::text_lt(
                        crate::models::biz::project_status_text((#[trigger] by_state[j]).status),
                        crate::models::biz::project_status_text((#[trigger] by_state[i]).status),
                    )
                } else {
                    !crate::text::text_lt(
                        crate::models::biz::project_status_text(by_state[i].status),
                        crate::models::biz::project_status_text(by_state[j].status),
                    )
                }
        }),
{
    reveal_strlit("项目");
    reveal_strlit("状态");
    lemma_plain_title("项目"@);
    lemma_plain_title("状态"@);
    let asc = order == SortOrder::Asc;
    assert(sort_field_for(0, "项目"@) == Some(SortField::ProjectName));
    assert(sort_field_for(0, "状态"@) == Some(SortField::ProjectStatus));
    let by_name = sorted_view(q, "项目"@, order).projects;
    let by_state = sorted_view(q, "状态"@, order).projects;
    assert(by_name == sorted_rows(q.projects, SortField::ProjectName, asc));
    assert(by_state == sorted_rows(q.projects, SortField::ProjectStatus, asc));
    crate::rows::lemma_sorted_rows_permutes(q.projects, SortField::ProjectName, asc);
    crate::rows::lemma_sorted_rows_permutes(q.projects, SortField::ProjectStatus, asc);
    crate::rows::lemma_sorted_rows_ordered(q.projects, SortField::ProjectName, asc);
    crate::rows::lemma_sorted_rows_ordered(q.projects, SortField::ProjectStatus, asc);
    assert forall|i: int, j: int| 0 <= i < j < by_name.len() implies if asc {
        !crate::text::text_lt(#[trigger] by_name[j].name@, #[trigger] by_name[i].name@)
    } else {
        !crate::text::text_lt(by_name[i].name@, by_name[j].name@)
    } by {
        assert(!crate::sorting::before(by_name[j].key_of(SortField::ProjectName), by_name[i].key_of(SortField::ProjectName), asc));
    }
    assert forall|i: int, j: int| 0 <= i < j < by_state.len() implies if asc {
        !crate::text::text_lt(
            crate::models::biz::project_status_text((#[trigger] by_state[j]).status),
            crate::models::biz::project_status_text((#[trigger] by_state[i]).status),
        )
    } else {
        !crate::text::text_lt(
            crate::models::biz::project_status_text(by_state[i].status),
            crate::models::biz::project_status_text(by_state[j].status),
        )
    } by {
        assert(!crate::sorting::before(by_state[j].key_of(SortField::ProjectStatus), by_state[i].key_of(SortField::ProjectStatus), asc));
    }
}

/// Sorting the asset table by a column orders the assets by the field the
/// column's title names, in the requested direction, and keeps every asset:
/// 资产名称 by name and 状态 by state.
pub proof fn lemma_asset_columns_sort_by_their_fields(q: QualityView, order: SortOrder)
    requires
        q.active_tab == 4,
        order != SortOrder::Unsorted,
    ensures
        ({
            let asc = order == SortOrder::Asc;
            let by_name = sorted_view(q, "资产名称"@, order).assets;
            let by_state = sorted_view(q, "状态"@, order).assets;
            &&& by_name.to_multiset() == q.assets.to_multiset()
            &&& by_state.to_multiset() == q.assets.to_multiset()
            &&& forall|i: int, j: int|
                0 <= i < j < by_name.len() ==> if asc {
                    !crate::text::text_lt((#[trigger] by_name[j]).0@, (#[trigger] by_name[i]).0@)
                } else {
                    !crate::text::text_lt(by_name[i].0@, by_name[j].0@)
                }
            &&& forall|i: int, j: int|
                0 <= i < j < by_state.len() ==> if asc {
                    !crate::text::text_lt((#[trigger] by_state[j]).1@, (#[trigger] by_state[i]).1@)
                } else {
                    !crate::text::text_lt(by_state[i].1@, by_state[j].1@)
                }
        }),
{
    reveal_strlit("资产名称");
    reveal_strlit("Name");
    reveal_strlit("状态");
    lemma_plain_title("资产名称"@);
    lemma_plain_title("状态"@);
    let asc = order == SortOrder::Asc;
    assert(sort_field_for(4, "资产名称"@) == Some(SortField::AssetName));
    assert(sort_field_for(4, "状态"@) == Some(SortField::AssetStatus));
    let by_name = sorted_view(q, "资产名称"@, order).assets;
    let by_state = sorted_view(q, "状态"@, order).assets;
    assert(by_name == sorted_rows(q.assets, SortField::AssetName, asc));
    assert(by_state == sorted_rows(q.assets, SortField::AssetStatus, asc));
    crate::rows::lemma_sorted_rows_permutes(q.assets, SortField::AssetName, asc);
    crate::rows::lemma_sorted_rows_permutes(q.assets, SortField::AssetStatus, asc);
    crate::rows::lemma_sorted_rows_ordered(q.assets, SortField::AssetName, asc);
    crate::rows::lemma_sorted_rows_ordered(q.assets, SortField::AssetStatus, asc);
    assert forall|i: int, j: int| 0 <= i < j < by_name.len() implies if asc {
        !crate::text::text_lt((#[trigger] by_name[j]).0@, (#[trigger] by_name[i]).0@)
    } else {
        !crate::text::text_lt(by_name[i].0@, by_name[j].0@)
    } by {
        assert(!crate::sorting::before(by_name[j].key_of(SortField::AssetName), by_name[i].key_of(SortField::AssetName), asc));
    }
    assert forall|i: int, j: int| 0 <= i < j < by_state.len() implies if asc {
        !crate::text::text_lt((#[trigger] by_state[j]).1@, (#[trigger] by_state[i]).1@)
    } else {
        !crate::text::text_lt(by_state[i].1@, by_state[j].1@)
    } by {
        assert(!crate::sorting::before(by_state[j].key_of(SortField::AssetStatus), by_state[i].key_of(SortField::AssetStatus), asc));
    }
}

proof fn lemma_matching_rows_contains<T: Row>(rows: Seq<T>, query: Seq<char>, x: T)
    ensures
        matching_rows(rows, query).contains(x) <==> rows.contains(x) && crate::rows::row_matches(x, query),
{
    let pred = |r: T| crate::rows::row_matches(r, query);
    if matching_rows(rows, query).contains(x) {
        rows.lemma_filter_contains_rev(pred, x);
    }
    if rows.contains(x) && crate::rows::row_matches(x, query) {
        let k = choose|k: int| 0 <= k < rows.len() && rows[k] == x;
        rows.lemma_filter_contains(pred, k);
    }
}

/// With a search text set, the current table shows exactly the loaded rows
/// whose first column, lowercased, contains the lowercased search text: the
/// project name, the task title, the bug title, the criterion, or the asset
/// name.
pub proof fn lemma_search_matches_first_column(q: QualityView)
    requires
        lowercase(q.filter_query).len() > 0,
    ensures
        ({
            let f = filtered(q);
            let query = lowercase(q.filter_query);
            &&& q.active_tab == 0 ==> forall|p: Project|
                #[trigger] f.projects.contains(p) <==> q.raw_projects.contains(p) && crate::text::contains_text(
                    lowercase(p.name@),
                    query,
                )
            &&& q.active_tab == 1 ==> forall|t: TaskRecord|
                #[trigger] f.tasks.contains(t) <==> q.raw_tasks.contains(t) && crate::text::contains_text(
                    lowercase(t.title@),
                    query,
                )
            &&& q.active_tab == 2 ==> forall|b: BugRecord|
                #[trigger] f.bugs.contains(b) <==> q.raw_bugs.contains(b) && crate::text::contains_text(
                    lowercase(b.title@),
                    query,
                )
            &&& q.active_tab == 3 ==> forall|a: String|
                #[trigger] f.acceptance.contains(a) <==> q.raw_acceptance.contains(a) && crate::text::contains_text(
                    lowercase(a@),
                    query,
                )
            &&& q.active_tab == 4 ==> forall|x: (String, String)|
                #[trigger] f.assets.contains(x) <==> q.raw_assets.contains(x) && crate::text::contains_text(
                    lowercase(x.0@),
                    query,
                )
        }),
{
    let query = lowercase(q.filter_query);
    let f = filtered(q);
    if q.active_tab == 0 {
        assert forall|p: Project| #[trigger] f.projects.contains(p) <==> q.raw_projects.contains(p)
            && crate::text::contains_text(lowercase(p.name@), query) by {
            lemma_matching_rows_contains(q.raw_projects, query, p);
        }
    } else if q.active_tab == 1 {
        assert forall|t: TaskRecord| #[trigger] f.tasks.contains(t) <==> q.raw_tasks.contains(t)
            && crate::text::contains_text(lowercase(t.title@), query) by {
            lemma_matching_rows_contains(q.raw_tasks, query, t);
        }
    } else if q.active_tab == 2 {
        assert forall|b: BugRecord| #[trigger] f.bugs.contains(b) <==> q.raw_bugs.contains(b)
            && crate::text::contains_text(lowercase(b.title@), query) by {
            lemma_matching_rows_contains(q.raw_bugs, query, b);
        }
    } else if q.active_tab == 3 {
        assert forall|a: String| #[trigger] f.acceptance.contains(a) <==> q.raw_acceptance.contains(a)
            && crate::text::contains_text(lowercase(a@), query) by {
            lemma_matching_rows_contains(q.raw_acceptance, query, a);
        }
    } else if q.active_tab == 4 {
        assert forall|x: (String, String)| #[trigger] f.assets.contains(x) <==> q.raw_assets.contains(x)
            && crate::text::contains_text(lowercase(x.0@), query) by {
            lemma_matching_rows_contains(q.raw_assets, query, x);
        }
    }
}

/// In header focus the cursor reaches the last column of each table and no
/// further: the last cursor position is one less than the number of cells
/// every row of the table shows, and for the projects, tasks and bugs tables
/// one less than the number of columns of the built-in layout.
pub proof fn lemma_header_cursor_spans_the_columns(q: QualityView)
    ensures
        forall|i: int| 0 <= i < list_len(q) ==> (#[trigger] table_cells(q)[i]).len() == max_column(q.active_tab) + 1,
        crate::config::default_table()["projects"@].len() == max_column(0) + 1,
        crate::config::default_table()["tasks"@].len() == max_column(1) + 1,
        crate::config::default_table()["bugs"@].len() == max_column(2) + 1,
{
    reveal_strlit("projects");
    reveal_strlit("tasks");
    reveal_strlit("bugs");
    assert("projects"@.len() == 8 && "tasks"@.len() == 5 && "bugs"@.len() == 4);
    assert("projects"@ != "bugs"@ && "projects"@ != "tasks"@ && "tasks"@ != "bugs"@);
}

/// The detail panel shows the fields of the selected row that its labels
/// name, the same texts the table shows in those columns: a project's name
/// (项目) and state (状态), a task's title (任务) and state (状态), a bug's
/// title (缺陷) and state (状态), a criterion's text (验收标准). With no row
/// selected, a selection past the end, or the asset table, there is none.
pub proof fn lemma_detail_shows_the_selected_fields(q: QualityView)
    ensures
        ({
            let d = detail_lines(q);
            match q.selected {
                Some(i) => {
                    &&& (q.active_tab == 0 && i < q.projects.len()) ==> d == Some(seq![
                        ("项目: "@, q.projects[i as int].name@),
                        ("状态: "@, crate::models::biz::project_status_text(q.projects[i as int].status)),
                    ]) && d->0[0].1 == table_cells(q)[i as int][0] && d->0[1].1 == table_cells(q)[i as int][1]
                    &&& (q.active_tab == 1 && i < q.tasks.len()) ==> d == Some(seq![
                        ("任务: "@, q.tasks[i as int].title@),
                        ("状态: "@, q.tasks[i as int].status@),
                    ]) && d->0[0].1 == table_cells(q)[i as int][0] && d->0[1].1 == table_cells(q)[i as int][1]
                    &&& (q.active_tab == 2 && i < q.bugs.len()) ==> d == Some(seq![
                        ("缺陷: "@, q.bugs[i as int].title@),
                        ("状态: "@, q.bugs[i as int].status@),
                    ]) && d->0[0].1 == table_cells(q)[i as int][1] && d->0[1].1 == table_cells(q)[i as int][3]
                    &&& (q.active_tab == 3 && i < q.acceptance.len()) ==> d == Some(seq![
                        ("验收标准: "@, q.acceptance[i as int]@),
                    ]) && d->0[0].1 == table_cells(q)[i as int][0]
                    &&& (q.active_tab > 3 || i >= list_len(q)) ==> d is None
                },
                None => d is None,
            }
        }),
{
}

} // verus!
