//! The shell around the pages: which page is shown, the sidebar (shown or
//! hidden, its width, dragging its edge), routing events to the pages and
//! the main loop's decisions.

use vstd::prelude::*;
use crate::config::{AppConfig, AppConfigView, ColumnTable, validated};
use crate::framework::{
    AppEvent, CustomAction, Effect, EffectView, KeyCode, MouseButton, MouseEvent, MouseEventKind,
    effects_view,
};
use crate::layout::Area;
use crate::monitor::{MonitorState, SortBy, monitor_step};
use crate::quality::{
    QualityApp, QualityMode, QualityView, initial_quality, opt_effect_view, quality_step, sorted_view,
    tab_key, toggled_config, visible_positions, visible_positions_of,
};
use crate::settings::{SettingsApp, settings_step};

verus! {

broadcast use vstd::string::group_string_axioms;

/// The page in the main area.
#[derive(Debug, Clone, Copy, PartialEq, Eq, Structural)]
pub enum ActiveApp {
    Monitor,
    Settings,
    Info,
    Quality,
}

/// The page after `t` in the cycle monitor, settings, info, quality.
pub open spec fn next_app(t: ActiveApp) -> ActiveApp {
    match t {
        ActiveApp::Monitor => ActiveApp::Settings,
        ActiveApp::Settings => ActiveApp::Info,
        ActiveApp::Info => ActiveApp::Quality,
        ActiveApp::Quality => ActiveApp::Monitor,
    }
}

/// The shell's state. `sidebar_width` is the width the sidebar opens to,
/// `target_sidebar_width` the width it is moving towards.
pub struct RootApp {
    pub active_tab: ActiveApp,
    pub show_sidebar: bool,
    pub monitor: MonitorState,
    pub settings: SettingsApp,
    pub quality: QualityApp,
    pub sidebar_width: u16,
    pub target_sidebar_width: u16,
    pub is_animating: bool,
    pub is_dragging: bool,
    pub config: AppConfig,
}

/// Mathematical value of a [`RootApp`].
pub struct RootView {
    pub active_tab: ActiveApp,
    pub show_sidebar: bool,
    pub monitor: MonitorState,
    pub settings: SettingsApp,
    pub quality: QualityView,
    pub sidebar_width: u16,
    pub target_sidebar_width: u16,
    pub is_animating: bool,
    pub is_dragging: bool,
    pub config: AppConfigView,
}

impl View for RootApp {
    type V = RootView;

    open spec fn view(&self) -> RootView {
        RootView {
            active_tab: self.active_tab,
            show_sidebar: self.show_sidebar,
            monitor: self.monitor,
            settings: self.settings,
            quality: self.quality@,
            sidebar_width: self.sidebar_width,
            target_sidebar_width: self.target_sidebar_width,
            is_animating: self.is_animating,
            is_dragging: self.is_dragging,
            config: self.config@,
        }
    }
}

/// What the host knows about the pointer when it hands over an event: that
/// a drag comes less than 16 ms after the last handled one, the width the
/// sidebar is drawn at right now, and the area last drawn.
#[derive(Debug, Clone, Copy, PartialEq, Eq, Structural)]
pub struct PointerContext {
    pub drag_throttled: bool,
    pub visual_width: u16,
    pub last_size: Area,
}

/// The shell as it starts from a loaded configuration: the configuration is
/// repaired, the monitor page is shown, the sidebar opens to its configured
/// width if it is shown (else stays closed), and the pages start with the
/// configured history depth.
pub open spec fn started(config: AppConfigView) -> RootView {
    let c = validated(config);
    RootView {
        active_tab: ActiveApp::Monitor,
        show_sidebar: c.show_sidebar,
        monitor: MonitorState { max_points: c.max_points, sort_by: SortBy::Cpu },
        settings: SettingsApp { current_points: c.max_points },
        quality: initial_quality(),
        sidebar_width: c.sidebar_width,
        target_sidebar_width: if c.show_sidebar { c.sidebar_width } else { 0 },
        is_animating: false,
        is_dragging: false,
        config: c,
    }
}

/// The settings written to the configuration file: the configuration with
/// the sidebar's width and visibility and the monitor's depth as they are
/// now.
pub open spec fn persisted(r: RootView) -> AppConfigView {
    AppConfigView {
        sidebar_width: r.sidebar_width,
        show_sidebar: r.show_sidebar,
        max_points: r.monitor.max_points,
        ..r.config
    }
}

/// A left press whose edge test would overflow: on the edge of a sidebar
/// 65535 cells wide, where the cell right of the edge is past the largest
/// column.
pub open spec fn press_overflows(m: MouseEvent, width: u16) -> bool {
    &&& m.kind == MouseEventKind::Down(MouseButton::Left)
    &&& width == 65535
    &&& m.column >= 65533
}

/// The events on which the shell's arithmetic would overflow: the up arrow on
/// the settings page at a depth within 5 of the largest `usize`, and a left
/// press on the edge of a sidebar 65535 cells wide.
pub open spec fn step_overflows(r: RootView, e: AppEvent, ctx: PointerContext) -> bool {
    ||| (r.active_tab == ActiveApp::Settings && e == AppEvent::Key(KeyCode::Up) && r.settings.current_points > usize::MAX - 5)
    ||| (e matches AppEvent::Mouse(m) && press_overflows(m, ctx.visual_width))
}

/// What a mouse event does within the sidebar `area`: a left press on the
/// sidebar's edge (the two cells left of it and the cell right of it, or
/// on it) starts dragging; a left press inside, on rows 4 or 5 below the
/// top, asks for the next page; releasing ends a drag and keeps the width;
/// dragging sets the width to the pointer's column clamped into 10..=60.
pub open spec fn mouse_step(r: RootView, m: MouseEvent, area: Area) -> (RootView, Option<CustomAction>, Seq<EffectView>) {
    let vw = area.width;
    match m.kind {
        MouseEventKind::Down(MouseButton::Left) => {
            let edge_start: int = if vw < 2 { 0 } else { vw - 2 };
            if m.column >= edge_start && m.column <= vw + 1 {
                (RootView { is_dragging: true, is_animating: false, ..r }, None, Seq::empty())
            } else if m.column < vw {
                let rel: int = if m.row < area.y { 0 } else { m.row - area.y };
                if 4 <= rel <= 5 {
                    (r, Some(CustomAction::NextApp), Seq::empty())
                } else {
                    (r, None, Seq::empty())
                }
            } else {
                (r, None, Seq::empty())
            }
        },
        MouseEventKind::Up(MouseButton::Left) => if r.is_dragging {
            (
                RootView { is_dragging: false, sidebar_width: vw, target_sidebar_width: vw, ..r },
                None,
                seq![EffectView::PersistUiState],
            )
        } else {
            (r, None, Seq::empty())
        },
        MouseEventKind::Drag(MouseButton::Left) => if r.is_dragging {
            let w: u16 = if m.column < 10 { 10 } else if m.column > 60 { 60 } else { m.column };
            (RootView { sidebar_width: w, ..r }, None, seq![EffectView::SetVisualWidth(w)])
        } else {
            (r, None, Seq::empty())
        },
        _ => (r, None, Seq::empty()),
    }
}

/// The shell after the quality page's sort header was confirmed: the header
/// at the cursor of the current table is activated in the configuration,
/// the table is sorted by that column in its new state, the page returns to
/// normal mode, and the configuration is to be stored.
pub open spec fn sort_confirmed(r: RootView) -> RootView {
    let key = tab_key(r.quality.active_tab);
    let ci = r.quality.column_index;
    let c1 = toggled_config(r.config, key, ci);
    let q1 = if c1.table_columns.dom().contains(key) {
        let cols = c1.table_columns[key];
        let vp = visible_positions(cols);
        if ci < vp.len() {
            let col = cols[vp[ci as int] as int];
            sorted_view(r.quality, col.name, col.sort)
        } else {
            r.quality
        }
    } else {
        r.quality
    };
    RootView { config: c1, quality: QualityView { mode: QualityMode::Normal, ..q1 }, ..r }
}

/// The shell's own reaction to an event, before the page sees it: the new
/// state, an action it proposes, the outside work asked for, and whether
/// handling stops here (a drag that comes too soon after the last one).
pub open spec fn shell_step(r: RootView, e: AppEvent, ctx: PointerContext) -> (RootView, Option<CustomAction>, Seq<EffectView>, bool) {
    match e {
        AppEvent::Mouse(m) => {
            let is_drag = m.kind is Drag;
            if is_drag && ctx.drag_throttled {
                (r, None, Seq::empty(), true)
            } else {
                let area = Area {
                    x: ctx.last_size.x,
                    y: ctx.last_size.y,
                    width: ctx.visual_width,
                    height: ctx.last_size.height,
                };
                let ms = mouse_step(r, m, area);
                let stamp: Seq<EffectView> = if is_drag { seq![EffectView::StampDrag] } else { Seq::empty() };
                (ms.0, ms.1, stamp + ms.2, false)
            }
        },
        AppEvent::Key(k) => match k {
            KeyCode::Tab => (r, Some(CustomAction::NextApp), Seq::empty(), false),
            KeyCode::Char(c) => if c == 'b' {
                (r, Some(CustomAction::ToggleSidebar), Seq::empty(), false)
            } else {
                (r, None, Seq::empty(), false)
            },
            _ => (r, None, Seq::empty(), false),
        },
        AppEvent::Action(a) => match a {
            CustomAction::ToggleSidebar => {
                let show = !r.show_sidebar;
                (
                    RootView {
                        show_sidebar: show,
                        target_sidebar_width: if show { r.sidebar_width } else { 0 },
                        is_animating: true,
                        ..r
                    },
                    None,
                    seq![EffectView::PersistUiState],
                    false,
                )
            },
            CustomAction::NextApp => (RootView { active_tab: next_app(r.active_tab), ..r }, None, Seq::empty(), false),
            CustomAction::SaveConfig => (sort_confirmed(r), None, seq![EffectView::PersistConfig], false),
            _ => (r, None, Seq::empty(), false),
        },
        AppEvent::Tick => (r, None, Seq::empty(), false),
    }
}

/// The page shown reacts to the event: the new state, the action it hands
/// back and the outside work it asks for.
pub open spec fn page_step(r: RootView, e: AppEvent) -> (RootView, Option<CustomAction>, Seq<EffectView>) {
    match r.active_tab {
        ActiveApp::Monitor => {
            let ms = monitor_step(r.monitor, e);
            (
                RootView { monitor: ms.0, ..r },
                None,
                match ms.1 {
                    Some(x) => seq![x@],
                    None => Seq::empty(),
                },
            )
        },
        ActiveApp::Info => (r, None, if e is Tick { seq![EffectView::TickInfo] } else { Seq::empty() }),
        ActiveApp::Quality => {
            let qs = quality_step(r.quality, e);
            (
                RootView { quality: qs.0, ..r },
                qs.1,
                match qs.2 {
                    Some(x) => seq![x],
                    None => Seq::empty(),
                },
            )
        },
        ActiveApp::Settings => {
            let ss = settings_step(r.settings.current_points, e);
            (RootView { settings: SettingsApp { current_points: ss.0 }, ..r }, ss.1, Seq::empty())
        },
    }
}

/// The action that comes out of an event: the page's if it gave one, else
/// the shell's. A new history depth is taken into the configuration, handed
/// on to the monitor when it came from the settings page, and the settings
/// are to be stored.
pub open spec fn settle(r: RootView, action: Option<CustomAction>) -> (RootView, Seq<EffectView>) {
    match action {
        Some(CustomAction::SetHistory(n)) => {
            let c = AppConfigView { max_points: n, ..r.config };
            if r.active_tab == ActiveApp::Settings {
                let ms = monitor_step(r.monitor, AppEvent::Action(CustomAction::SetHistory(n)));
                (
                    RootView { config: c, monitor: ms.0, ..r },
                    seq![EffectView::ResizeHistory(n), EffectView::PersistUiState],
                )
            } else {
                (RootView { config: c, ..r }, seq![EffectView::PersistUiState])
            }
        },
        _ => (r, Seq::empty()),
    }
}

/// Everything an event does to the shell: a key while the quality page is
/// taking a new entry goes to that page alone; otherwise the shell reacts
/// ([`shell_step`]), then the page shown ([`page_step`]), and the resulting
/// action is settled ([`settle`]).
pub open spec fn root_step(r: RootView, e: AppEvent, ctx: PointerContext) -> (RootView, Option<CustomAction>, Seq<EffectView>) {
    if e is Key && r.active_tab == ActiveApp::Quality && r.quality.mode == QualityMode::Editing {
        let qs = quality_step(r.quality, e);
        (
            RootView { quality: qs.0, ..r },
            qs.1,
            match qs.2 {
                Some(x) => seq![x],
                None => Seq::empty(),
            },
        )
    } else {
        let s = shell_step(r, e, ctx);
        if s.3 {
            (s.0, None, s.2)
        } else {
            let p = page_step(s.0, e);
            let action = match p.1 {
                Some(a) => Some(a),
                None => s.1,
            };
            let f = settle(p.0, action);
            (f.0, action, s.2 + p.2 + f.1)
        }
    }
}

fn push_effect(effects: &mut Vec<Effect>, e: Effect)
    ensures
        effects_view(final(effects)@) == effects_view(old(effects)@) + seq![e@],
{
    proof {
        crate::framework::lemma_effects_view_push(effects@, e);
    }
    effects.push(e);
}

impl RootApp {
    /// The shell started from a loaded configuration (see [`started`]).
    pub fn new(config: AppConfig) -> (r: RootApp)
        ensures
            r@ == started(config@),
    {
        let mut config = config;
        config.validate();
        let initial_width = if config.show_sidebar { config.sidebar_width } else { 0 };
        RootApp {
            active_tab: ActiveApp::Monitor,
            show_sidebar: config.show_sidebar,
            monitor: MonitorState::with_config(config.max_points),
            settings: SettingsApp { current_points: config.max_points },
            quality: QualityApp::new(),
            sidebar_width: config.sidebar_width,
            target_sidebar_width: initial_width,
            is_animating: false,
            is_dragging: false,
            config,
        }
    }

    /// The settings to write to the configuration file (see [`persisted`]).
    pub fn persisted_config(&self) -> (c: AppConfig)
        ensures
            c@ == persisted(self@),
    {
        AppConfig {
            sidebar_width: self.sidebar_width,
            max_points: self.monitor.max_points,
            show_sidebar: self.show_sidebar,
            table_columns: self.config.table_columns.duplicate(),
        }
    }

    /// Reacts to a mouse event within the sidebar `sidebar_area` (see
    /// [`mouse_step`]). A left press on the edge of a sidebar 65535 cells
    /// wide would overflow the edge test and is left out.
    pub fn handle_mouse_logic(&mut self, mouse: MouseEvent, sidebar_area: Area) -> (r: (Option<CustomAction>, Vec<Effect>))
        requires
            !press_overflows(mouse, sidebar_area.width),
        ensures
            ({
                let s = mouse_step(old(self)@, mouse, sidebar_area);
                final(self)@ == s.0 && r.0 == s.1 && effects_view(r.1@) == s.2
            }),
    {
        let visual_width = sidebar_area.width;
        let mut effects: Vec<Effect> = Vec::new();
        assert(effects_view(effects@) =~= Seq::<EffectView>::empty());
        match mouse.kind {
            MouseEventKind::Down(MouseButton::Left) => {
                let edge_start = if visual_width < 2 { 0 } else { visual_width - 2 };
                if mouse.column >= edge_start && mouse.column <= visual_width + 1 {
                    self.is_dragging = true;
                    self.is_animating = false;
                    (None, effects)
                } else if mouse.column < visual_width {
                    let relative_row = if mouse.row < sidebar_area.y { 0 } else { mouse.row - sidebar_area.y };
                    if 4 <= relative_row && relative_row <= 5 {
                        (Some(CustomAction::NextApp), effects)
                    } else {
                        (None, effects)
                    }
                } else {
                    (None, effects)
                }
            },
            MouseEventKind::Up(MouseButton::Left) => {
                if self.is_dragging {
                    self.is_dragging = false;
                    self.sidebar_width = visual_width;
                    self.target_sidebar_width = visual_width;
                    push_effect(&mut effects, Effect::PersistUiState);
                }
                (None, effects)
            },
            MouseEventKind::Drag(MouseButton::Left) => {
                if self.is_dragging {
                    let new_w = if mouse.column < 10 {
                        10
                    } else if mouse.column > 60 {
                        60
                    } else {
                        mouse.column
                    };
                    self.sidebar_width = new_w;
                    push_effect(&mut effects, Effect::SetVisualWidth(new_w));
                }
                (None, effects)
            },
            _ => (None, effects),
        }
    }

    fn confirm_sort(&mut self)
        ensures
            final(self)@ == sort_confirmed(old(self)@),
    {
        let key = self.quality.get_current_tab_key();
        self.quality.toggle_sort(&mut self.config);
        let found: Option<(String, crate::config::SortOrder)> = match self.config.table_columns.get(key) {
            Some(cols) => {
                let vp = visible_positions_of(cols);
                if self.quality.column_index < vp.len() {
                    let idx = vp[self.quality.column_index];
                    assert(crate::config::columns_view(cols@)[idx as int] == cols@[idx as int]@);
                    Some((cols[idx].name.clone(), cols[idx].sort))
                } else {
                    None
                }
            },
            None => None,
        };
        if let Some((name, order)) = found {
            self.quality.apply_sort(key, name.as_str(), order);
        }
        self.quality.mode = QualityMode::Normal;
    }

    fn shell_reaction(&mut self, event: &AppEvent, ctx: &PointerContext, effects: &mut Vec<Effect>) -> (r: (Option<CustomAction>, bool))
        requires
            *event matches AppEvent::Mouse(m) ==> !press_overflows(m, ctx.visual_width),
        ensures
            ({
                let s = shell_step(old(self)@, *event, *ctx);
                &&& final(self)@ == s.0
                &&& r.0 == s.1
                &&& effects_view(final(effects)@) == effects_view(old(effects)@) + s.2
                &&& r.1 == s.3
            }),
    {
        match event {
            AppEvent::Mouse(mouse) => {
                let is_drag = match mouse.kind {
                    MouseEventKind::Drag(_) => true,
                    _ => false,
                };
                if is_drag && ctx.drag_throttled {
                    assert(effects_view(effects@) =~= effects_view(effects@) + Seq::<EffectView>::empty());
                    return (None, true);
                }
                if is_drag {
                    push_effect(effects, Effect::StampDrag);
                } else {
                    assert(effects_view(effects@) =~= effects_view(effects@) + Seq::<EffectView>::empty());
                }
                let area = Area {
                    x: ctx.last_size.x,
                    y: ctx.last_size.y,
                    width: ctx.visual_width,
                    height: ctx.last_size.height,
                };
                let ghost before = effects_view(effects@);
                let (pending, mut more) = self.handle_mouse_logic(*mouse, area);
                let ghost more_view = effects_view(more@);
                effects.append(&mut more);
                assert(effects_view(effects@) =~= before + more_view);
                proof {
                    let stamp: Seq<EffectView> = if is_drag { seq![EffectView::StampDrag] } else { Seq::empty() };
                    assert(before + more_view =~= effects_view(old(effects)@) + (stamp + more_view));
                }
                (pending, false)
            },
            AppEvent::Key(k) => {
                assert(effects_view(effects@) =~= effects_view(effects@) + Seq::<EffectView>::empty());
                match k {
                    KeyCode::Tab => (Some(CustomAction::NextApp), false),
                    KeyCode::Char(c) => if *c == 'b' {
                        (Some(CustomAction::ToggleSidebar), false)
                    } else {
                        (None, false)
                    },
                    _ => (None, false),
                }
            },
            AppEvent::Action(a) => match a {
                CustomAction::ToggleSidebar => {
                    self.show_sidebar = !self.show_sidebar;
                    self.target_sidebar_width = if self.show_sidebar { self.sidebar_width } else { 0 };
                    self.is_animating = true;
                    push_effect(effects, Effect::PersistUiState);
                    (None, false)
                },
                CustomAction::NextApp => {
                    self.active_tab = match self.active_tab {
                        ActiveApp::Monitor => ActiveApp::Settings,
                        ActiveApp::Settings => ActiveApp::Info,
                        ActiveApp::Info => ActiveApp::Quality,
                        ActiveApp::Quality => ActiveApp::Monitor,
                    };
                    assert(effects_view(effects@) =~= effects_view(effects@) + Seq::<EffectView>::empty());
                    (None, false)
                },
                CustomAction::SaveConfig => {
                    self.confirm_sort();
                    push_effect(effects, Effect::PersistConfig);
                    (None, false)
                },
                _ => {
                    assert(effects_view(effects@) =~= effects_view(effects@) + Seq::<EffectView>::empty());
                    (None, false)
                },
            },
            AppEvent::Tick => {
                assert(effects_view(effects@) =~= effects_view(effects@) + Seq::<EffectView>::empty());
                (None, false)
            },
        }
    }

    fn page_reaction(&mut self, event: &AppEvent, effects: &mut Vec<Effect>) -> (r: Option<CustomAction>)
        requires
            old(self).active_tab == ActiveApp::Settings && *event == AppEvent::Key(KeyCode::Up)
                ==> old(self).settings.current_points <= usize::MAX - 5,
        ensures
            ({
                let s = page_step(old(self)@, *event);
                &&& final(self)@ == s.0
                &&& r == s.1
                &&& effects_view(final(effects)@) == effects_view(old(effects)@) + s.2
            }),
    {
        match self.active_tab {
            ActiveApp::Monitor => {
                let e = self.monitor.handle_event(event);
                match e {
                    Some(x) => push_effect(effects, x),
                    None => {
                        assert(effects_view(effects@) =~= effects_view(effects@) + Seq::<EffectView>::empty());
                    },
                }
                None
            },
            ActiveApp::Info => {
                match event {
                    AppEvent::Tick => push_effect(effects, Effect::TickInfo),
                    _ => {
                        assert(effects_view(effects@) =~= effects_view(effects@) + Seq::<EffectView>::empty());
                    },
                }
                None
            },
            ActiveApp::Quality => {
                let (a, e) = self.quality.handle_event(event);
                match e {
                    Some(x) => push_effect(effects, x),
                    None => {
                        assert(effects_view(effects@) =~= effects_view(effects@) + Seq::<EffectView>::empty());
                    },
                }
                a
            },
            ActiveApp::Settings => {
                let a = self.settings.handle_event(event);
                assert(effects_view(effects@) =~= effects_view(effects@) + Seq::<EffectView>::empty());
                a
            },
        }
    }

    fn settle_action(&mut self, action: &Option<CustomAction>, effects: &mut Vec<Effect>)
        ensures
            ({
                let s = settle(old(self)@, *action);
                &&& final(self)@ == s.0
                &&& effects_view(final(effects)@) == effects_view(old(effects)@) + s.1
            }),
    {
        match action {
            Some(CustomAction::SetHistory(n)) => {
                self.config.max_points = *n;
                if self.active_tab == ActiveApp::Settings {
                    let forwarded = AppEvent::Action(CustomAction::SetHistory(*n));
                    let e = self.monitor.handle_event(&forwarded);
                    assert(e == Some(Effect::ResizeHistory(*n)));
                    push_effect(effects, Effect::ResizeHistory(*n));
                    push_effect(effects, Effect::PersistUiState);
                    assert(effects_view(effects@) =~= effects_view(old(effects)@) + seq![EffectView::ResizeHistory(*n), EffectView::PersistUiState]);
                } else {
                    push_effect(effects, Effect::PersistUiState);
                }
            },
            _ => {
                assert(effects_view(effects@) =~= effects_view(effects@) + Seq::<EffectView>::empty());
            },
        }
    }

    /// Reacts to an event (see [`root_step`]): the action to feed back into
    /// the event queue and the outside work to perform, in order, come back.
    /// The events whose arithmetic would overflow ([`step_overflows`]) are
    /// left out.
    pub fn handle_event(&mut self, event: &AppEvent, ctx: &PointerContext) -> (r: (Option<CustomAction>, Vec<Effect>))
        requires
            !step_overflows(old(self)@, *event, *ctx),
        ensures
            ({
                let s = root_step(old(self)@, *event, *ctx);
                final(self)@ == s.0 && r.0 == s.1 && effects_view(r.1@) == s.2
            }),
    {
        let mut effects: Vec<Effect> = Vec::new();
        assert(effects_view(effects@) =~= Seq::<EffectView>::empty());
        let is_key = match event {
            AppEvent::Key(_) => true,
            _ => false,
        };
        if is_key && self.active_tab == ActiveApp::Quality && self.quality.mode == QualityMode::Editing {
            let (a, e) = self.quality.handle_event(event);
            match e {
                Some(x) => push_effect(&mut effects, x),
                None => {},
            }
            assert(effects_view(effects@) =~= match opt_effect_view(e) {
                Some(x) => seq![x],
                None => Seq::<EffectView>::empty(),
            });
            return (a, effects);
        }
        let (pending, stop) = self.shell_reaction(event, ctx, &mut effects);
        if stop {
            return (None, effects);
        }
        let ghost after_shell = effects_view(effects@);
        let child = self.page_reaction(event, &mut effects);
        let ghost after_page = effects_view(effects@);
        let action = match child {
            Some(a) => Some(a),
            None => pending,
        };
        self.settle_action(&action, &mut effects);
        proof {
            assert(effects_view(effects@) =~= after_shell + (after_page.skip(after_shell.len() as int)) + effects_view(effects@).skip(after_page.len() as int));
        }
        (action, effects)
    }
}

/// What the main loop does with an event taken from the queue.
#[derive(Debug, Clone, Copy, PartialEq, Eq, Structural)]
pub enum LoopStep {
    /// Store the settings and leave.
    Quit,
    /// Open the database if needed and reload the quality data.
    EnsureDatabase,
    /// The reload has finished: loading is over.
    FinishSync,
    /// Hand the event to the shell.
    Dispatch,
}

/// How the main loop routes an event: `q` leaves, unless the quality page is
/// in a mode other than normal; a refresh request reloads the data; the end
/// of a reload ends loading; everything else goes to the shell, which also
/// carries out a confirmed sort header (sorting the table and storing the
/// configuration).
pub open spec fn route(e: AppEvent, mode: QualityMode) -> LoopStep {
    match e {
        AppEvent::Key(KeyCode::Char(c)) => if c == 'q' && mode == QualityMode::Normal {
            LoopStep::Quit
        } else {
            LoopStep::Dispatch
        },
        AppEvent::Action(CustomAction::RefreshData) => LoopStep::EnsureDatabase,
        AppEvent::Action(CustomAction::SyncDatabaseFinished) => LoopStep::FinishSync,
        _ => LoopStep::Dispatch,
    }
}

/// Routes an event of the main loop (see [`route`]).
pub fn route_event(event: &AppEvent, mode: QualityMode) -> (r: LoopStep)
    ensures
        r == route(*event, mode),
{
    match event {
        AppEvent::Key(KeyCode::Char(c)) => if *c == 'q' && mode == QualityMode::Normal {
            LoopStep::Quit
        } else {
            LoopStep::Dispatch
        },
        AppEvent::Action(CustomAction::RefreshData) => LoopStep::EnsureDatabase,
        AppEvent::Action(CustomAction::SyncDatabaseFinished) => LoopStep::FinishSync,
        _ => LoopStep::Dispatch,
    }
}

/// Whether the quality data has been requested once already.
#[derive(Debug, Clone, Copy, PartialEq, Eq, Structural)]
pub struct DataLoader {
    pub db_initialized: bool,
}

impl DataLoader {
    /// Nothing requested yet.
    pub fn new() -> (r: DataLoader)
        ensures
            !r.db_initialized,
    {
        DataLoader { db_initialized: false }
    }

    /// At the top of each loop turn: the first time the quality page is
    /// shown, it starts loading and a refresh is to be requested (`true`);
    /// afterwards nothing happens.
    pub fn begin_iteration(&mut self, root: &mut RootApp) -> (r: bool)
        ensures
            r == (old(root).active_tab == ActiveApp::Quality && !old(self).db_initialized),
            final(self).db_initialized == (old(self).db_initialized || r),
            final(root)@ == if r {
                RootView { quality: QualityView { is_loading: true, ..old(root)@.quality }, ..old(root)@ }
            } else {
                old(root)@
            },
    {
        if root.active_tab == ActiveApp::Quality && !self.db_initialized {
            root.quality.is_loading = true;
            self.db_initialized = true;
            true
        } else {
            false
        }
    }
}

/// The marker before a sidebar menu entry: an arrow on the page shown,
/// blank otherwise.
pub fn menu_prefix(item: ActiveApp, active: ActiveApp) -> (r: &'static str)
    ensures
        r@ == (if item == active { "> "@ } else { "  "@ }),
{
    if item == active {
        "> "
    } else {
        "  "
    }
}

/// Length of the separator line in a sidebar `width` cells wide: the width
/// inside its borders.
pub fn separator_width(width: u16) -> (r: usize)
    ensures
        r == (if width < 2 { 0 } else { width - 2 }),
{
    if width < 2 {
        0
    } else {
        (width - 2) as usize
    }
}

// ---------------------------------------------------------------------------
// Laws

/// Four page switches come back to the same page.
pub proof fn lemma_page_cycle(t: ActiveApp)
    ensures
        next_app(next_app(next_app(next_app(t)))) == t,
        next_app(t) != t,
{
}

/// Toggling the sidebar twice restores whether it is shown and the width it
/// moves towards.
pub proof fn lemma_toggle_sidebar_twice(r: RootView, ctx: PointerContext)
    ensures
        ({
            let e = AppEvent::Action(CustomAction::ToggleSidebar);
            let twice = root_step(root_step(r, e, ctx).0, e, ctx).0;
            &&& twice.show_sidebar == r.show_sidebar
            &&& twice.target_sidebar_width == (if r.show_sidebar { r.sidebar_width } else { 0 })
        }),
{
}

/// While the quality page takes a new entry, keys reach that page alone:
/// the shell keeps its page, sidebar, settings, monitor and configuration.
pub proof fn lemma_editing_keys_stay_in_quality(r: RootView, k: KeyCode, ctx: PointerContext)
    requires
        r.active_tab == ActiveApp::Quality,
        r.quality.mode == QualityMode::Editing,
    ensures
        ({
            let s = root_step(r, AppEvent::Key(k), ctx).0;
            s == RootView { quality: s.quality, ..r }
        }),
{
}

/// Dragging the sidebar's edge keeps its width within 10..=60.
pub proof fn lemma_drag_width_bounded(r: RootView, m: MouseEvent, area: Area)
    requires
        r.is_dragging,
        m.kind == MouseEventKind::Drag(MouseButton::Left),
    ensures
        10 <= mouse_step(r, m, area).0.sidebar_width <= 60,
{
}

/// The `q` key ends the program exactly when the quality page is in normal
/// mode.
pub proof fn lemma_quit_only_in_normal_mode(mode: QualityMode)
    ensures
        (route(AppEvent::Key(KeyCode::Char('q')), mode) == LoopStep::Quit) <==> mode == QualityMode::Normal,
{
}

/// The shell starts from a valid configuration, whatever was loaded.
pub proof fn lemma_started_config_valid(c: AppConfigView)
    ensures
        crate::config::is_valid_config(started(c).config),
        10 <= started(c).settings.current_points <= 500,
{
    crate::config::lemma_validated_is_valid(c);
}

/// Adjusting the history depth on the settings page takes effect at once
/// everywhere: the page, the monitor and the configuration hold the new
/// depth, which is handed back, the monitor's history is refitted to it and
/// the settings, with that depth, are to be stored.
pub proof fn lemma_settings_depth_syncs(r: RootView, k: KeyCode, ctx: PointerContext)
    requires
        r.active_tab == ActiveApp::Settings,
        k == KeyCode::Up || k == KeyCode::Down,
    ensures
        ({
            let s = root_step(r, AppEvent::Key(k), ctx);
            let n = s.0.settings.current_points;
            &&& s.0.monitor.max_points == n
            &&& s.0.config.max_points == n
            &&& persisted(s.0).max_points == n
            &&& s.1 == Some(CustomAction::SetHistory(n))
            &&& s.2 == seq![EffectView::ResizeHistory(n), EffectView::PersistUiState]
        }),
{
    let e = AppEvent::Key(k);
    let sh = shell_step(r, e, ctx);
    assert(sh.0 == r && sh.1 is None && sh.2 == Seq::<EffectView>::empty() && !sh.3);
    let p = page_step(sh.0, e);
    let f = settle(p.0, p.1);
    assert(root_step(r, e, ctx).2 == sh.2 + p.2 + f.1);
    assert(sh.2 + p.2 + f.1 =~= f.1);
}

/// Settings stored from a running shell come back unchanged when the shell
/// starts from them: the configuration, the sidebar's width and visibility
/// and the history depth. This holds exactly when the stored settings are
/// ones repair leaves as they are.
pub proof fn lemma_restart_restores_settings(r: RootView)
    requires
        crate::config::is_valid_config(persisted(r)),
    ensures
        ({
            let s = started(persisted(r));
            &&& s.config == persisted(r)
            &&& s.sidebar_width == r.sidebar_width
            &&& s.show_sidebar == r.show_sidebar
            &&& s.monitor.max_points == r.monitor.max_points
            &&& s.settings.current_points == r.monitor.max_points
        }),
{
    crate::config::lemma_valid_config_unchanged(persisted(r));
}

/// A tick reaches the page shown and no other: the monitor samples only
/// while it is shown, the information page refreshes only while it is
/// shown, and nothing else changes.
pub proof fn lemma_ticks_reach_shown_page_only(r: RootView, ctx: PointerContext)
    ensures
        root_step(r, AppEvent::Tick, ctx) == (r, None::<CustomAction>, match r.active_tab {
            ActiveApp::Monitor => seq![EffectView::TickMonitor],
            ActiveApp::Info => seq![EffectView::TickInfo],
            _ => Seq::<EffectView>::empty(),
        }),
{
    let s = root_step(r, AppEvent::Tick, ctx);
    let expected: Seq<EffectView> = match r.active_tab {
        ActiveApp::Monitor => seq![EffectView::TickMonitor],
        ActiveApp::Info => seq![EffectView::TickInfo],
        _ => Seq::<EffectView>::empty(),
    };
    let p = page_step(r, AppEvent::Tick);
    assert(p.2 == expected);
    assert(Seq::<EffectView>::empty() + p.2 + Seq::<EffectView>::empty() =~= expected);
}

/// Confirming a sort header reaches the shell through the main loop: the
/// request is handed to the shell, which advances the sort state of the
/// column under the cursor, sorts the table by it, returns the quality page
/// to normal mode and asks for the configuration to be stored.
pub proof fn lemma_confirmed_sort_is_carried_out(r: RootView, mode: QualityMode, ctx: PointerContext)
    ensures
        route(AppEvent::Action(CustomAction::SaveConfig), mode) == LoopStep::Dispatch,
        root_step(r, AppEvent::Action(CustomAction::SaveConfig), ctx) == (
            sort_confirmed(r),
            None::<CustomAction>,
            seq![EffectView::PersistConfig],
        ),
        sort_confirmed(r).quality.mode == QualityMode::Normal,
{
    let e = AppEvent::Action(CustomAction::SaveConfig);
    let sh = shell_step(r, e, ctx);
    let p = page_step(sh.0, e);
    assert(p.0 == sh.0 && p.1 is None && p.2 == Seq::<EffectView>::empty());
    assert(sh.2 + p.2 + Seq::<EffectView>::empty() =~= seq![EffectView::PersistConfig]);
}

/// Confirming a sort header advances the column under the cursor from
/// unsorted to ascending, from ascending to descending and from descending
/// back to unsorted, and sorts the current table by that column in the
/// direction the column is left in (left unsorted, the rows stay as they
/// are); the page returns to normal mode.
pub proof fn lemma_confirmed_sort_follows_new_state(r: RootView)
    requires
        r.config.table_columns.dom().contains(tab_key(r.quality.active_tab)),
        r.quality.column_index < visible_positions(r.config.table_columns[tab_key(r.quality.active_tab)]).len(),
    ensures
        ({
            let key = tab_key(r.quality.active_tab);
            let cols = r.config.table_columns[key];
            let k = visible_positions(cols)[r.quality.column_index as int] as int;
            let before = cols[k].sort;
            let after = if before == crate::config::SortOrder::Unsorted {
                crate::config::SortOrder::Asc
            } else if before == crate::config::SortOrder::Asc {
                crate::config::SortOrder::Desc
            } else {
                crate::config::SortOrder::Unsorted
            };
            let s = sort_confirmed(r);
            &&& 0 <= k < cols.len()
            &&& s.config.table_columns[key].len() == cols.len()
            &&& s.config.table_columns[key][k].sort == after
            &&& s.config.table_columns[key][k].name == cols[k].name
            &&& s.quality == (QualityView { mode: QualityMode::Normal, ..crate::quality::sorted_view(r.quality, cols[k].name, after) })
        }),
{
    let key = tab_key(r.quality.active_tab);
    let ci = r.quality.column_index;
    let cols = r.config.table_columns[key];
    crate::quality::lemma_visible_positions_bounds(cols);
    crate::quality::lemma_toggled_keeps_visibility(cols, ci);
    let vp = visible_positions(cols);
    let k = vp[ci as int] as int;
    let c1 = crate::quality::toggled_config(r.config, key, ci);
    assert(c1.table_columns[key] == crate::quality::toggled_columns(cols, ci));
    assert(visible_positions(c1.table_columns[key]) == vp);
    assert(c1.table_columns[key][k] == crate::config::ColumnView { sort: crate::config::next_order(cols[k].sort), ..cols[k] });
}

} // verus!
