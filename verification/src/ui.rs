use crate::timer::{NANOS_PER_SEC, TimerState};
use vstd::prelude::*;

verus! {

/// Longest focus session that the settings allow, in minutes.
pub const MAX_POMODORO_MINUTES: u64 = 90;

/// Longest short break that the settings allow, in minutes.
pub const MAX_SHORT_BREAK_MINUTES: u64 = 30;

/// Longest long break that the settings allow, in minutes.
pub const MAX_LONG_BREAK_MINUTES: u64 = 60;

/// Number of settings tabs: focus, short break, long break.
pub const TAB_COUNT: usize = 3;

/// What the screen shows and what the user has set.
pub struct App {
    pub state: TimerState,
    /// Focus session length, in minutes.
    pub pomodoro_duration: u64,
    /// Short break length, in minutes.
    pub short_break_duration: u64,
    /// Long break length, in minutes.
    pub long_break_duration: u64,
    pub pomodoros_completed: u64,
    pub is_paused: bool,
    /// Time left, in whole seconds.
    pub remaining: u64,
    pub selected_tab: usize,
    pub quitting: bool,
}

/// The tab after `tab`, wrapping around after the last one.
pub open spec fn next_tab(tab: usize) -> usize {
    ((tab + 1) % 3) as usize
}

/// The tab before `tab`: the last one before the first.
pub open spec fn previous_tab(tab: usize) -> usize {
    if tab == 0 {
        2
    } else {
        (tab - 1) as usize
    }
}

/// The candidate value of a setting `value` moved by `delta`: the setting read
/// as an `i64`, as a cast of it gives, plus `delta`.
pub open spec fn moved(value: u64, delta: i64) -> int {
    (value as i64) as int + delta as int
}

/// Whether moving `value` by `delta` stays within `i64`.
pub open spec fn move_fits(value: u64, delta: i64) -> bool {
    i64::MIN <= moved(value, delta) <= i64::MAX
}

/// A setting moved by `delta` where the result lies in `1..=max`, and left as
/// it is otherwise.
pub open spec fn adjusted(value: u64, delta: i64, max: u64) -> u64 {
    if 1 <= moved(value, delta) <= max {
        moved(value, delta) as u64
    } else {
        value
    }
}

/// Whether every setting lies in its allowed range.
pub open spec fn settings_in_bounds(app: App) -> bool {
    &&& 1 <= app.pomodoro_duration <= MAX_POMODORO_MINUTES
    &&& 1 <= app.short_break_duration <= MAX_SHORT_BREAK_MINUTES
    &&& 1 <= app.long_break_duration <= MAX_LONG_BREAK_MINUTES
}

impl App {
    /// The app as it first appears.
    pub open spec fn initial() -> App {
        App {
            state: TimerState::Idle,
            pomodoro_duration: 25,
            short_break_duration: 5,
            long_break_duration: 15,
            pomodoros_completed: 0,
            is_paused: false,
            remaining: 0,
            selected_tab: 0,
            quitting: false,
        }
    }

    /// The app after a reset.
    pub open spec fn reset_spec(self) -> App {
        App { state: TimerState::Idle, is_paused: false, remaining: 0, ..self }
    }

    /// Whether moving the selected setting by `delta` stays within `i64`.
    pub open spec fn adjust_fits(self, delta: i64) -> bool {
        match self.selected_tab {
            0 => move_fits(self.pomodoro_duration, delta),
            1 => move_fits(self.short_break_duration, delta),
            2 => move_fits(self.long_break_duration, delta),
            _ => true,
        }
    }

    /// The app after moving the selected setting by `delta`.
    pub open spec fn adjusted_spec(self, delta: i64) -> App {
        match self.selected_tab {
            0 => App {
                pomodoro_duration: adjusted(self.pomodoro_duration, delta, MAX_POMODORO_MINUTES),
                ..self
            },
            1 => App {
                short_break_duration: adjusted(
                    self.short_break_duration,
                    delta,
                    MAX_SHORT_BREAK_MINUTES,
                ),
                ..self
            },
            2 => App {
                long_break_duration: adjusted(self.long_break_duration, delta, MAX_LONG_BREAK_MINUTES),
                ..self
            },
            _ => self,
        }
    }

    pub fn new() -> (app: App)
        ensures
            app == App::initial(),
    {
        App {
            state: TimerState::Idle,
            pomodoro_duration: 25,
            short_break_duration: 5,
            long_break_duration: 15,
            pomodoros_completed: 0,
            is_paused: false,
            remaining: 0,
            selected_tab: 0,
            quitting: false,
        }
    }

    pub fn set_state(&mut self, state: TimerState)
        ensures
            *final(self) == (App { state: state, ..*old(self) }),
    {
        self.state = state;
    }

    pub fn set_paused(&mut self, paused: bool)
        ensures
            *final(self) == (App { is_paused: paused, ..*old(self) }),
    {
        self.is_paused = paused;
    }

    /// Shows `remaining_nanos` nanoseconds as the time left, in whole seconds.
    pub fn update_remaining(&mut self, remaining_nanos: u128)
        requires
            remaining_nanos / NANOS_PER_SEC <= u64::MAX,
        ensures
            *final(self) == (App {
                remaining: (remaining_nanos / NANOS_PER_SEC) as u64,
                ..*old(self)
            }),
    {
        self.remaining = (remaining_nanos / NANOS_PER_SEC) as u64;
    }

    pub fn reset(&mut self)
        ensures
            *final(self) == old(self).reset_spec(),
    {
        self.state = TimerState::Idle;
        self.is_paused = false;
        self.remaining = 0;
    }

    pub fn cycle_tab(&mut self)
        requires
            old(self).selected_tab < usize::MAX,
        ensures
            *final(self) == (App { selected_tab: next_tab(old(self).selected_tab), ..*old(self) }),
    {
        self.selected_tab = (self.selected_tab + 1) % TAB_COUNT;
    }

    pub fn cycle_tab_reverse(&mut self)
        ensures
            *final(self) == (App {
                selected_tab: previous_tab(old(self).selected_tab),
                ..*old(self)
            }),
    {
        self.selected_tab = if self.selected_tab == 0 {
            2
        } else {
            self.selected_tab - 1
        };
    }

    /// Moves the setting of the selected tab by `delta` minutes, unless that
    /// would leave its allowed range.
    pub fn adjust_setting(&mut self, delta: i64)
        requires
            old(self).adjust_fits(delta),
        ensures
            *final(self) == old(self).adjusted_spec(delta),
    {
        if self.selected_tab == 0 {
            let new: i64 = self.pomodoro_duration as i64 + delta;
            if new >= 1 && new <= 90 {
                self.pomodoro_duration = new as u64;
            }
        } else if self.selected_tab == 1 {
            let new: i64 = self.short_break_duration as i64 + delta;
            if new >= 1 && new <= 30 {
                self.short_break_duration = new as u64;
            }
        } else if self.selected_tab == 2 {
            let new: i64 = self.long_break_duration as i64 + delta;
            if new >= 1 && new <= 60 {
                self.long_break_duration = new as u64;
            }
        }
    }

    pub fn quit(&mut self)
        ensures
            *final(self) == (App { quitting: true, ..*old(self) }),
    {
        self.quitting = true;
    }

    /// Whether moving the selected setting by `delta` stays within `i64`,
    /// which `adjust_setting` requires.
    pub fn can_adjust(&self, delta: i64) -> (fits: bool)
        ensures
            fits == self.adjust_fits(delta),
    {
        let value: u64 = if self.selected_tab == 0 {
            self.pomodoro_duration
        } else if self.selected_tab == 1 {
            self.short_break_duration
        } else if self.selected_tab == 2 {
            self.long_break_duration
        } else {
            return true;
        };
        let start: i64 = value as i64;
        if delta >= 0 {
            start <= i64::MAX - delta
        } else {
            start >= i64::MIN - delta
        }
    }

    /// The value, in minutes, of the setting under the selected tab.
    pub fn selected_setting(&self) -> (minutes: Option<u64>)
        ensures
            minutes == (match self.selected_tab {
                0 => Some(self.pomodoro_duration),
                1 => Some(self.short_break_duration),
                2 => Some(self.long_break_duration),
                _ => None::<u64>,
            }),
    {
        match self.selected_tab {
            0 => Some(self.pomodoro_duration),
            1 => Some(self.short_break_duration),
            2 => Some(self.long_break_duration),
            _ => None,
        }
    }
}

/// The heading of the timer panel.
#[derive(Debug, Clone, Copy, PartialEq, Eq, Structural)]
pub enum StatusLabel {
    Ready,
    Paused,
    Focus,
    ShortBreak,
    LongBreak,
}

pub open spec fn status_label_spec(state: TimerState, is_paused: bool) -> StatusLabel {
    match state {
        TimerState::Idle => StatusLabel::Ready,
        TimerState::Pomodoro => if is_paused {
            StatusLabel::Paused
        } else {
            StatusLabel::Focus
        },
        TimerState::ShortBreak => if is_paused {
            StatusLabel::Paused
        } else {
            StatusLabel::ShortBreak
        },
        TimerState::LongBreak => if is_paused {
            StatusLabel::Paused
        } else {
            StatusLabel::LongBreak
        },
    }
}

/// The heading for a phase: a paused session reads as paused, whatever its
/// phase; an idle timer reads as ready.
pub fn status_label(state: TimerState, is_paused: bool) -> (label: StatusLabel)
    ensures
        label == status_label_spec(state, is_paused),
{
    match state {
        TimerState::Idle => StatusLabel::Ready,
        TimerState::Pomodoro => if is_paused {
            StatusLabel::Paused
        } else {
            StatusLabel::Focus
        },
        TimerState::ShortBreak | TimerState::LongBreak => if is_paused {
            StatusLabel::Paused
        } else if state == TimerState::ShortBreak {
            StatusLabel::ShortBreak
        } else {
            StatusLabel::LongBreak
        },
    }
}

impl StatusLabel {
    /// The words of the heading.
    pub fn text(&self) -> (text: &'static str)
        ensures
            text@ == (match *self {
                StatusLabel::Ready => "READY"@,
                StatusLabel::Paused => "PAUSED"@,
                StatusLabel::Focus => "FOCUS"@,
                StatusLabel::ShortBreak => "SHORT BREAK"@,
                StatusLabel::LongBreak => "LONG BREAK"@,
            }),
    {
        match self {
            StatusLabel::Ready => "READY",
            StatusLabel::Paused => "PAUSED",
            StatusLabel::Focus => "FOCUS",
            StatusLabel::ShortBreak => "SHORT BREAK",
            StatusLabel::LongBreak => "LONG BREAK",
        }
    }
}

/// Splits a time left in seconds into the minutes and seconds of the clock.
pub fn clock_parts(remaining_secs: u64) -> (parts: (u64, u64))
    ensures
        parts.0 == remaining_secs / 60,
        parts.1 == remaining_secs % 60,
        parts.0 * 60 + parts.1 == remaining_secs,
        parts.1 < 60,
{
    (remaining_secs / 60, remaining_secs % 60)
}

/// Whether the session count earns a celebration: it is a positive multiple
/// of four.
pub fn show_celebration(completed: u64) -> (celebrate: bool)
    ensures
        celebrate == (completed > 0 && completed % 4 == 0),
{
    completed > 0 && completed % 4 == 0
}

/// Cycling through the tabs keeps the selection on one of the three tabs;
/// three steps forward, or a step forward and one back, return to the start.
pub proof fn lemma_tab_cycle(tab: usize)
    requires
        tab < TAB_COUNT,
    ensures
        next_tab(tab) < TAB_COUNT,
        previous_tab(tab) < TAB_COUNT,
        previous_tab(next_tab(tab)) == tab,
        next_tab(previous_tab(tab)) == tab,
        next_tab(next_tab(next_tab(tab))) == tab,
{
}

/// Adjusting a setting never takes it out of its allowed range.
pub proof fn lemma_adjust_keeps_bounds(app: App, delta: i64)
    requires
        settings_in_bounds(app),
    ensures
        settings_in_bounds(app.adjusted_spec(delta)),
{
}

/// Raising the selected setting by a minute and lowering it again restores
/// it, when the raise was allowed; likewise lowering and then raising.
pub proof fn lemma_adjust_undo(app: App)
    requires
        settings_in_bounds(app),
    ensures
        app.adjusted_spec(1i64).adjusted_spec(-1i64) == app || app.adjusted_spec(1i64) == app,
        app.adjusted_spec(-1i64).adjusted_spec(1i64) == app || app.adjusted_spec(-1i64) == app,
{
}

} // verus!
