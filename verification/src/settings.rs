//! The settings page: the depth of the CPU history, adjusted with the arrow
//! keys, and how that depth is described.

use vstd::prelude::*;
use crate::framework::{AppEvent, CustomAction, KeyCode};

verus! {

broadcast use vstd::string::group_string_axioms;

/// The settings page: the number of CPU samples the chart keeps.
#[derive(Debug, Clone, Copy, PartialEq, Eq, Structural)]
pub struct SettingsApp {
    pub current_points: usize,
}

/// How a history depth behaves for the viewer.
#[derive(Debug, Clone, Copy, PartialEq, Eq, Structural)]
pub enum DurationMode {
    /// Up to 40 points: catches short spikes.
    Instant,
    /// Up to 120 points: balances reaction and trend.
    Standard,
    /// More points: follows long-running load.
    Trend,
}

/// The mode of a depth of `points` samples.
pub open spec fn duration_mode(points: usize) -> DurationMode {
    if points <= 40 {
        DurationMode::Instant
    } else if points <= 120 {
        DurationMode::Standard
    } else {
        DurationMode::Trend
    }
}

/// The description shown for a mode.
pub open spec fn mode_text(m: DurationMode) -> Seq<char> {
    match m {
        DurationMode::Instant => " [ 瞬时模式 ] 捕捉极短时间的性能尖峰 (Spikes)"@,
        DurationMode::Standard => " [ 标准模式 ] 兼顾实时性与短期趋势 (Balanced)"@,
        DurationMode::Trend => " [ 趋势模式 ] 适合观察长时任务负载流向 (Trend)"@,
    }
}

impl DurationMode {
    /// The description of the mode.
    pub fn description(&self) -> (r: &'static str)
        ensures
            r@ == mode_text(*self),
    {
        match self {
            DurationMode::Instant => " [ 瞬时模式 ] 捕捉极短时间的性能尖峰 (Spikes)",
            DurationMode::Standard => " [ 标准模式 ] 兼顾实时性与短期趋势 (Balanced)",
            DurationMode::Trend => " [ 趋势模式 ] 适合观察长时任务负载流向 (Trend)",
        }
    }
}

/// What an event does to the depth: the up arrow adds 5 up to at most 200,
/// the down arrow takes 5 away down to at least 10, and either hands the new
/// depth back; nothing else changes it.
pub open spec fn settings_step(points: usize, e: AppEvent) -> (usize, Option<CustomAction>) {
    match e {
        AppEvent::Key(KeyCode::Up) => {
            let n: usize = if points + 5 > 200 { 200 } else { (points + 5) as usize };
            (n, Some(CustomAction::SetHistory(n)))
        },
        AppEvent::Key(KeyCode::Down) => {
            let lowered: int = if points < 5 { 0 } else { points - 5 };
            let n: usize = if lowered < 10 { 10 } else { lowered as usize };
            (n, Some(CustomAction::SetHistory(n)))
        },
        _ => (points, None),
    }
}

impl SettingsApp {
    /// The page with the default depth of 50 samples.
    pub fn new() -> (r: SettingsApp)
        ensures
            r.current_points == 50,
    {
        SettingsApp { current_points: 50 }
    }

    /// The mode of the current depth.
    pub fn duration_mode(&self) -> (r: DurationMode)
        ensures
            r == duration_mode(self.current_points),
    {
        if self.current_points <= 40 {
            DurationMode::Instant
        } else if self.current_points <= 120 {
            DurationMode::Standard
        } else {
            DurationMode::Trend
        }
    }

    /// Reacts to an event (see [`settings_step`]). The up arrow adds 5 to the
    /// depth first, so on that key the depth must leave room for it.
    pub fn handle_event(&mut self, event: &AppEvent) -> (r: Option<CustomAction>)
        requires
            *event == AppEvent::Key(KeyCode::Up) ==> old(self).current_points <= usize::MAX - 5,
        ensures
            (final(self).current_points, r) == settings_step(old(self).current_points, *event),
    {
        if let AppEvent::Key(k) = event {
            match k {
                KeyCode::Up => {
                    let raised = self.current_points + 5;
                    self.current_points = if raised > 200 { 200 } else { raised };
                    return Some(CustomAction::SetHistory(self.current_points));
                },
                KeyCode::Down => {
                    let lowered = if self.current_points < 5 { 0 } else { self.current_points - 5 };
                    self.current_points = if lowered < 10 { 10 } else { lowered };
                    return Some(CustomAction::SetHistory(self.current_points));
                },
                _ => {},
            }
        }
        None
    }
}

/// The up arrow never leaves the depth above 200, the down arrow never below
/// 10, and a depth in 10..=200 stays there under either; the new depth is the
/// one handed back.
pub proof fn lemma_arrows_keep_depth_in_range(points: usize, k: KeyCode)
    requires
        k == KeyCode::Up || k == KeyCode::Down,
    ensures
        k == KeyCode::Up ==> settings_step(points, AppEvent::Key(k)).0 <= 200,
        k == KeyCode::Down ==> settings_step(points, AppEvent::Key(k)).0 >= 10,
        10 <= points <= 200 ==> 10 <= settings_step(points, AppEvent::Key(k)).0 <= 200,
        settings_step(points, AppEvent::Key(k)).1 == Some(
            CustomAction::SetHistory(settings_step(points, AppEvent::Key(k)).0),
        ),
{
}

/// Inside the range, one step up and one step down cancel out.
pub proof fn lemma_up_then_down(points: usize)
    requires
        10 <= points <= 195,
    ensures
        settings_step(settings_step(points, AppEvent::Key(KeyCode::Up)).0, AppEvent::Key(KeyCode::Down)).0
            == points,
{
}

} // verus!
