//! Events that reach the application, the actions components hand back and
//! the outside work the shell asks its host to perform.

use vstd::prelude::*;

verus! {

/// Keys the application reacts to; every other key is `Other`.
#[derive(Debug, Clone, Copy, PartialEq, Eq, Structural)]
pub enum KeyCode {
    Char(char),
    Tab,
    Enter,
    Esc,
    Backspace,
    Up,
    Down,
    Left,
    Right,
    Other,
}

/// Mouse buttons.
#[derive(Debug, Clone, Copy, PartialEq, Eq, Structural)]
pub enum MouseButton {
    Left,
    Right,
    Middle,
}

/// What the mouse did.
#[derive(Debug, Clone, Copy, PartialEq, Eq, Structural)]
pub enum MouseEventKind {
    Down(MouseButton),
    Up(MouseButton),
    Drag(MouseButton),
    Moved,
    ScrollDown,
    ScrollUp,
    ScrollLeft,
    ScrollRight,
}

/// A mouse event at a terminal cell.
#[derive(Debug, Clone, Copy, PartialEq, Eq, Structural)]
pub struct MouseEvent {
    pub kind: MouseEventKind,
    pub column: u16,
    pub row: u16,
}

/// Requests that components hand back to the shell.
#[derive(Debug, Clone, PartialEq)]
pub enum CustomAction {
    /// A CPU reading, carried as the bit pattern of its `f32` value.
    UpdateCpu(u32),
    UpdateMemory { used: u64, total: u64 },
    ToggleSidebar,
    NextApp,
    SetHistory(usize),
    ResizeSidebar(u16),
    RefreshData,
    SyncDatabaseFinished,
    SaveConfig,
    NotifySuccess(String),
    NotifyError(String),
}

/// An event delivered to the application.
#[derive(Debug, Clone, PartialEq)]
pub enum AppEvent {
    Tick,
    Key(KeyCode),
    Mouse(MouseEvent),
    Action(CustomAction),
}

/// Outside work that handling an event asks for, in the order it was asked.
#[derive(Debug, Clone, PartialEq)]
pub enum Effect {
    /// Store a new acceptance criterion with the given text.
    SubmitAcceptance(String),
    /// Store the shell's settings (`RootApp::persisted_config`) in the
    /// configuration file.
    PersistUiState,
    /// Store the configuration (`RootApp::config`) in the configuration file.
    PersistConfig,
    /// Sample CPU, memory and processes.
    TickMonitor,
    /// Refresh the system information.
    TickInfo,
    /// Fit the CPU history to the given number of points.
    ResizeHistory(usize),
    /// Remember now as the time of the last handled drag.
    StampDrag,
    /// Show the sidebar at the given width right away.
    SetVisualWidth(u16),
}

/// Mathematical value of an [`Effect`].
pub enum EffectView {
    SubmitAcceptance(Seq<char>),
    PersistUiState,
    PersistConfig,
    TickMonitor,
    TickInfo,
    ResizeHistory(usize),
    StampDrag,
    SetVisualWidth(u16),
}

impl View for Effect {
    type V = EffectView;

    open spec fn view(&self) -> EffectView {
        match self {
            Effect::SubmitAcceptance(s) => EffectView::SubmitAcceptance(s@),
            Effect::PersistUiState => EffectView::PersistUiState,
            Effect::PersistConfig => EffectView::PersistConfig,
            Effect::TickMonitor => EffectView::TickMonitor,
            Effect::TickInfo => EffectView::TickInfo,
            Effect::ResizeHistory(n) => EffectView::ResizeHistory(*n),
            Effect::StampDrag => EffectView::StampDrag,
            Effect::SetVisualWidth(w) => EffectView::SetVisualWidth(*w),
        }
    }
}

/// The values of a list of effects.
pub open spec fn effects_view(s: Seq<Effect>) -> Seq<EffectView> {
    s.map_values(|e: Effect| e@)
}

pub proof fn lemma_effects_view_push(s: Seq<Effect>, e: Effect)
    ensures
        effects_view(s.push(e)) == effects_view(s) + seq![e@],
{
    assert(effects_view(s.push(e)) =~= effects_view(s) + seq![e@]);
}

} // verus!
