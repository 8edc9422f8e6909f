use crate::timer::{minutes_fit, Timer, TimerState, TimerView, NANOS_PER_SEC};
use crate::ui::{next_tab, previous_tab, App};
use vstd::prelude::*;

verus! {

/// The commands that the keys give.
#[derive(Debug, Clone, Copy, PartialEq, Eq, Structural)]
pub enum Key {
    /// Leave the program.
    Quit,
    /// Start, pause or resume.
    Toggle,
    /// Stop and reset.
    Stop,
    /// Skip to the next phase.
    Skip,
    /// Select the next settings tab.
    NextTab,
    /// Select the previous settings tab.
    PreviousTab,
    /// Raise the selected setting by a minute.
    Increase,
    /// Lower the selected setting by a minute.
    Decrease,
}

/// The notifications that mark the edges of sessions.
#[derive(Debug, Clone, Copy, PartialEq, Eq, Structural)]
pub enum Sound {
    PomodoroStart,
    PomodoroEnd,
    BreakStart,
    BreakEnd,
}

/// What the caller does after a key.
#[derive(Debug, Clone, Copy, PartialEq, Eq, Structural)]
pub enum Reaction {
    /// Go on.
    Continue,
    /// Leave the program.
    Quit,
    /// Play a notification and go on.
    Play(Sound),
}

/// A long break is due when the count of completed sessions is a multiple of
/// four.
pub open spec fn long_break_due(completed: int) -> bool {
    completed % 4 == 0
}

/// The length of the break that follows `completed` completed sessions.
pub open spec fn break_minutes(app: App, completed: int) -> u64 {
    if long_break_due(completed) {
        app.long_break_duration
    } else {
        app.short_break_duration
    }
}

/// The phase of the break that follows `completed` completed sessions.
pub open spec fn break_state(completed: int) -> TimerState {
    if long_break_due(completed) {
        TimerState::LongBreak
    } else {
        TimerState::ShortBreak
    }
}

/// Whether handling `key` stays within the machine's integers.
pub open spec fn key_allowed(app: App, t: TimerView, key: Key) -> bool {
    match key {
        Key::Toggle => t.is_idle() ==> minutes_fit(app.pomodoro_duration),
        Key::Skip => match app.state {
            TimerState::Pomodoro => minutes_fit(break_minutes(app, app.pomodoros_completed + 1)),
            _ => minutes_fit(app.pomodoro_duration),
        },
        Key::NextTab => app.selected_tab < usize::MAX,
        Key::Increase => app.adjust_fits(1i64),
        Key::Decrease => app.adjust_fits(-1i64),
        _ => true,
    }
}

/// The app, the timer and the reaction after `key`, where a pause happens
/// `elapsed` nanoseconds after the last start or resume.
pub open spec fn key_effect(app: App, t: TimerView, key: Key, elapsed: nat) -> (App, TimerView, Reaction) {
    match key {
        Key::Quit => (App { quitting: true, ..app }, t, Reaction::Quit),
        Key::Toggle => if t.is_idle() {
            (
                App { state: TimerState::Pomodoro, ..app },
                TimerView::started(app.pomodoro_duration),
                Reaction::Play(Sound::PomodoroStart),
            )
        } else if t.is_running() {
            (App { is_paused: true, ..app }, t.paused_after(elapsed as int), Reaction::Continue)
        } else if t.is_paused() {
            (App { is_paused: false, ..app }, t.resumed(), Reaction::Continue)
        } else {
            (app, t, Reaction::Continue)
        },
        Key::Stop => (app.reset_spec(), t.stopped(), Reaction::Continue),
        Key::Skip => match app.state {
            TimerState::Pomodoro => (
                App { state: break_state(app.pomodoros_completed + 1), ..app },
                TimerView::started(break_minutes(app, app.pomodoros_completed + 1)),
                Reaction::Play(Sound::BreakStart),
            ),
            _ => (
                App { state: TimerState::Pomodoro, ..app },
                TimerView::started(app.pomodoro_duration),
                Reaction::Play(Sound::PomodoroStart),
            ),
        },
        Key::NextTab => (App { selected_tab: next_tab(app.selected_tab), ..app }, t, Reaction::Continue),
        Key::PreviousTab => (
            App { selected_tab: previous_tab(app.selected_tab), ..app },
            t,
            Reaction::Continue,
        ),
        Key::Increase => (app.adjusted_spec(1i64), t, Reaction::Continue),
        Key::Decrease => (app.adjusted_spec(-1i64), t, Reaction::Continue),
    }
}

/// Whether moving to the next phase, once a session ends, stays within the
/// machine's integers.
pub open spec fn finish_allowed(app: App) -> bool {
    match app.state {
        TimerState::Pomodoro => {
            &&& app.pomodoros_completed < u64::MAX
            &&& minutes_fit(break_minutes(app, app.pomodoros_completed + 1))
        },
        TimerState::ShortBreak | TimerState::LongBreak => minutes_fit(app.pomodoro_duration),
        TimerState::Idle => true,
    }
}

/// The app, the timer and the notifications once the session of `app.state`
/// has ended: a focus session counts as completed and is followed by a break,
/// long after every fourth; a break is followed by a focus session.
pub open spec fn finish_effect(app: App, t: TimerView) -> (App, TimerView, Seq<Sound>) {
    match app.state {
        TimerState::Pomodoro => {
            let completed = app.pomodoros_completed + 1;
            (
                App {
                    pomodoros_completed: completed as u64,
                    state: break_state(completed),
                    ..app
                },
                TimerView::started(break_minutes(app, completed)),
                seq![Sound::PomodoroEnd, Sound::BreakStart],
            )
        },
        TimerState::ShortBreak | TimerState::LongBreak => (
            App { state: TimerState::Pomodoro, ..app },
            TimerView::started(app.pomodoro_duration),
            seq![Sound::BreakEnd, Sound::PomodoroStart],
        ),
        TimerState::Idle => (app, t, Seq::empty()),
    }
}

/// One turn of the clock: a check for the end of the session `check_elapsed`
/// nanoseconds after the last start or resume, the move to the next phase if
/// it ended, and the time left read `read_elapsed` nanoseconds after the last
/// start or resume of the timer that results.
pub open spec fn tick_effect(app: App, t: TimerView, check_elapsed: nat, read_elapsed: nat) -> (
    App,
    TimerView,
    Seq<Sound>,
) {
    let checked = t.checked_after(check_elapsed as int);
    let next = if t.finish_due(check_elapsed as int) {
        finish_effect(app, checked)
    } else {
        (app, checked, Seq::empty())
    };
    (
        App {
            remaining: (next.1.remaining_after(read_elapsed as int) / NANOS_PER_SEC as nat) as u64,
            ..next.0
        },
        next.1,
        next.2,
    )
}

/// Whether a long break follows `completed` completed sessions.
pub fn is_long_break_due(completed: u64) -> (long: bool)
    ensures
        long == long_break_due(completed as int),
{
    completed % 4 == 0
}

/// Whether the break after the session under way, which would be session
/// number `completed + 1`, is the long one.
pub fn is_long_break_next(completed: u64) -> (long: bool)
    ensures
        long == long_break_due(completed + 1),
{
    completed % 4 == 3
}

/// Whether a session of `minutes` minutes can be started.
pub fn can_start(minutes: u64) -> (fits: bool)
    ensures
        fits == minutes_fit(minutes),
{
    minutes <= u64::MAX / 60
}

/// Whether `handle_key` can handle `key` now.
pub fn can_handle_key(app: &App, timer: &Timer, key: Key) -> (ok: bool)
    ensures
        ok == key_allowed(*app, timer@, key),
{
    match key {
        Key::Toggle => !timer.is_idle() || can_start(app.pomodoro_duration),
        Key::Skip => match app.state {
            TimerState::Pomodoro => if is_long_break_next(app.pomodoros_completed) {
                can_start(app.long_break_duration)
            } else {
                can_start(app.short_break_duration)
            },
            _ => can_start(app.pomodoro_duration),
        },
        Key::NextTab => app.selected_tab < usize::MAX,
        Key::Increase => app.can_adjust(1),
        Key::Decrease => app.can_adjust(-1),
        _ => true,
    }
}

/// Whether `finish_session` and `handle_tick` can move `app` to its next
/// phase.
pub fn can_finish(app: &App) -> (ok: bool)
    ensures
        ok == finish_allowed(*app),
{
    match app.state {
        TimerState::Pomodoro => {
            if app.pomodoros_completed == u64::MAX {
                return false;
            }
            if is_long_break_due(app.pomodoros_completed + 1) {
                can_start(app.long_break_duration)
            } else {
                can_start(app.short_break_duration)
            }
        },
        TimerState::ShortBreak | TimerState::LongBreak => can_start(app.pomodoro_duration),
        TimerState::Idle => true,
    }
}

/// Handles one key: starts, pauses, resumes, stops or skips the session, or
/// changes the settings, and says what the caller does next.
pub fn handle_key(app: &mut App, timer: &mut Timer, key: Key) -> (reaction: Reaction)
    requires
        key_allowed(*old(app), old(timer)@, key),
    ensures
        exists|elapsed: nat|
            (*final(app), final(timer)@, reaction) == #[trigger] key_effect(
                *old(app),
                old(timer)@,
                key,
                elapsed,
            ),
{
    let ghost app0 = *app;
    let ghost t0 = timer@;
    match key {
        Key::Quit => {
            app.quit();
            assert((*app, timer@, Reaction::Quit) == key_effect(app0, t0, key, 0));
            Reaction::Quit
        },
        Key::Toggle => {
            if timer.is_idle() {
                timer.start_pomodoro(app.pomodoro_duration);
                app.set_state(TimerState::Pomodoro);
                assert((*app, timer@, Reaction::Play(Sound::PomodoroStart)) == key_effect(
                    app0,
                    t0,
                    key,
                    0,
                ));
                Reaction::Play(Sound::PomodoroStart)
            } else if timer.is_running() {
                timer.pause();
                app.set_paused(true);
                let ghost e: nat = choose|e: nat| timer@ == #[trigger] t0.paused_after(e as int);
                assert((*app, timer@, Reaction::Continue) == key_effect(app0, t0, key, e));
                Reaction::Continue
            } else if timer.is_paused() {
                timer.resume();
                app.set_paused(false);
                assert((*app, timer@, Reaction::Continue) == key_effect(app0, t0, key, 0));
                Reaction::Continue
            } else {
                assert((*app, timer@, Reaction::Continue) == key_effect(app0, t0, key, 0));
                Reaction::Continue
            }
        },
        Key::Stop => {
            timer.stop();
            app.reset();
            assert((*app, timer@, Reaction::Continue) == key_effect(app0, t0, key, 0));
            Reaction::Continue
        },
        Key::Skip => {
            timer.stop();
            match app.state {
                TimerState::Pomodoro => {
                    let long: bool = is_long_break_next(app.pomodoros_completed);
                    let minutes: u64 = if long {
                        app.long_break_duration
                    } else {
                        app.short_break_duration
                    };
                    timer.start_break(minutes);
                    if long {
                        app.set_state(TimerState::LongBreak);
                    } else {
                        app.set_state(TimerState::ShortBreak);
                    }
                    assert((*app, timer@, Reaction::Play(Sound::BreakStart)) == key_effect(
                        app0,
                        t0,
                        key,
                        0,
                    ));
                    Reaction::Play(Sound::BreakStart)
                },
                _ => {
                    timer.start_pomodoro(app.pomodoro_duration);
                    app.set_state(TimerState::Pomodoro);
                    assert((*app, timer@, Reaction::Play(Sound::PomodoroStart)) == key_effect(
                        app0,
                        t0,
                        key,
                        0,
                    ));
                    Reaction::Play(Sound::PomodoroStart)
                },
            }
        },
        Key::NextTab => {
            app.cycle_tab();
            assert((*app, timer@, Reaction::Continue) == key_effect(app0, t0, key, 0));
            Reaction::Continue
        },
        Key::PreviousTab => {
            app.cycle_tab_reverse();
            assert((*app, timer@, Reaction::Continue) == key_effect(app0, t0, key, 0));
            Reaction::Continue
        },
        Key::Increase => {
            app.adjust_setting(1);
            assert((*app, timer@, Reaction::Continue) == key_effect(app0, t0, key, 0));
            Reaction::Continue
        },
        Key::Decrease => {
            app.adjust_setting(-1);
            assert((*app, timer@, Reaction::Continue) == key_effect(app0, t0, key, 0));
            Reaction::Continue
        },
    }
}

/// Moves to the next phase once the session of `app.state` has ended, and
/// returns the notifications to play, in order.
pub fn finish_session(app: &mut App, timer: &mut Timer) -> (sounds: Vec<Sound>)
    requires
        finish_allowed(*old(app)),
    ensures
        (*final(app), final(timer)@, sounds@) == finish_effect(*old(app), old(timer)@),
{
    let mut sounds: Vec<Sound> = Vec::new();
    match app.state {
        TimerState::Pomodoro => {
            app.pomodoros_completed = app.pomodoros_completed + 1;
            sounds.push(Sound::PomodoroEnd);
            let long: bool = is_long_break_due(app.pomodoros_completed);
            let minutes: u64 = if long {
                app.long_break_duration
            } else {
                app.short_break_duration
            };
            timer.start_break(minutes);
            if long {
                app.set_state(TimerState::LongBreak);
            } else {
                app.set_state(TimerState::ShortBreak);
            }
            sounds.push(Sound::BreakStart);
        },
        TimerState::ShortBreak | TimerState::LongBreak => {
            sounds.push(Sound::BreakEnd);
            timer.start_pomodoro(app.pomodoro_duration);
            app.set_state(TimerState::Pomodoro);
            sounds.push(Sound::PomodoroStart);
        },
        TimerState::Idle => {},
    }
    sounds
}

/// One turn of the clock: reports the end of the session, moves to the next
/// phase if it ended, and shows the time left. Returns the notifications to
/// play, in order.
pub fn handle_tick(app: &mut App, timer: &mut Timer) -> (sounds: Vec<Sound>)
    requires
        finish_allowed(*old(app)),
    ensures
        exists|check_elapsed: nat, read_elapsed: nat|
            (*final(app), final(timer)@, sounds@) == #[trigger] tick_effect(
                *old(app),
                old(timer)@,
                check_elapsed,
                read_elapsed,
            ),
{
    let ghost app0 = *app;
    let ghost t0 = timer@;
    let fired: bool = timer.check_finished();
    let ghost e1: nat = choose|e: nat|
        {
            &&& fired == #[trigger] t0.finish_due(e as int)
            &&& timer@ == t0.checked_after(e as int)
        };
    let sounds: Vec<Sound> = if fired {
        finish_session(app, timer)
    } else {
        Vec::new()
    };
    proof {
        use_type_invariant(&*timer);
    }
    let left: u128 = timer.remaining();
    let ghost e2: nat = choose|e: nat| left == #[trigger] timer@.remaining_after(e as int);
    app.update_remaining(left);
    assert((*app, timer@, sounds@) == tick_effect(app0, t0, e1, e2));
    sounds
}

/// Completing a focus session adds one to the count and starts a break, which
/// is the long one exactly when the new count is a multiple of four.
pub proof fn lemma_long_break_every_fourth(app: App, t: TimerView)
    requires
        app.state == TimerState::Pomodoro,
        app.pomodoros_completed < u64::MAX,
    ensures
        finish_effect(app, t).0.pomodoros_completed == app.pomodoros_completed + 1,
        finish_effect(app, t).0.state == TimerState::LongBreak <==> (app.pomodoros_completed + 1)
            % 4 == 0,
        finish_effect(app, t).0.state == TimerState::ShortBreak <==> (app.pomodoros_completed + 1)
            % 4 != 0,
        finish_effect(app, t).1 == TimerView::started(
            if (app.pomodoros_completed + 1) % 4 == 0 {
                app.long_break_duration
            } else {
                app.short_break_duration
            },
        ),
        finish_effect(app, t).2 == seq![Sound::PomodoroEnd, Sound::BreakStart],
{
}

/// The end of a break starts a focus session of the set length and leaves the
/// count as it is; with no phase under way, nothing happens.
pub proof fn lemma_break_then_focus(app: App, t: TimerView)
    ensures
        (app.state == TimerState::ShortBreak || app.state == TimerState::LongBreak) ==> {
            &&& finish_effect(app, t).0.state == TimerState::Pomodoro
            &&& finish_effect(app, t).0.pomodoros_completed == app.pomodoros_completed
            &&& finish_effect(app, t).1 == TimerView::started(app.pomodoro_duration)
            &&& finish_effect(app, t).2 == seq![Sound::BreakEnd, Sound::PomodoroStart]
        },
        app.state == TimerState::Idle ==> finish_effect(app, t) == (app, t, Seq::<Sound>::empty()),
{
}

/// No key changes the count of completed sessions: skipping a focus session
/// does not complete it.
pub proof fn lemma_keys_keep_count(app: App, t: TimerView, key: Key, elapsed: nat)
    ensures
        key_effect(app, t, key, elapsed).0.pomodoros_completed == app.pomodoros_completed,
{
}

/// Only the quit key ends the program, and it changes nothing but the
/// quitting flag.
pub proof fn lemma_only_quit_quits(app: App, t: TimerView, key: Key, elapsed: nat)
    ensures
        (key_effect(app, t, key, elapsed).2 == Reaction::Quit) <==> key == Key::Quit,
        key == Key::Quit ==> key_effect(app, t, key, elapsed) == (
            App { quitting: true, ..app },
            t,
            Reaction::Quit,
        ),
{
}

/// The start key starts an idle timer; pressed twice on a counting timer it
/// pauses and resumes it, keeping the time left at the pause.
pub proof fn lemma_toggle_pause_resume(app: App, t: TimerView, first: nat, second: nat)
    requires
        t.valid(),
    ensures
        t.is_idle() ==> key_effect(app, t, Key::Toggle, first).1.is_running(),
        t.is_running() ==> {
            let once = key_effect(app, t, Key::Toggle, first);
            let twice = key_effect(once.0, once.1, Key::Toggle, second);
            &&& once.1.is_paused()
            &&& once.0.is_paused
            &&& twice.1.is_running()
            &&& !twice.0.is_paused
            &&& twice.1.remaining == t.remaining_after(first as int)
            &&& twice.0.state == app.state
        },
{
}

/// The stop key leaves an idle timer and a reset screen, whatever came
/// before.
pub proof fn lemma_stop_resets(app: App, t: TimerView, elapsed: nat)
    ensures
        key_effect(app, t, Key::Stop, elapsed).1.is_idle(),
        key_effect(app, t, Key::Stop, elapsed).0.state == TimerState::Idle,
        !key_effect(app, t, Key::Stop, elapsed).0.is_paused,
        key_effect(app, t, Key::Stop, elapsed).0.remaining == 0,
{
}

/// The paused flag on the screen matches the timer after every key and every
/// turn of the clock, as long as it matched before; the one exception is
/// skipping a paused session, which starts the next phase and leaves the flag
/// set.
pub proof fn lemma_paused_flag_tracks_timer(
    app: App,
    t: TimerView,
    key: Key,
    elapsed: nat,
    check_elapsed: nat,
    read_elapsed: nat,
)
    requires
        t.valid(),
        app.is_paused == t.is_paused(),
    ensures
        (key != Key::Skip || !app.is_paused) ==> key_effect(app, t, key, elapsed).0.is_paused
            == key_effect(app, t, key, elapsed).1.is_paused(),
        tick_effect(app, t, check_elapsed, read_elapsed).0.is_paused == tick_effect(
            app,
            t,
            check_elapsed,
            read_elapsed,
        ).1.is_paused(),
{
}

/// Keys and turns of the clock keep every setting in its allowed range.
pub proof fn lemma_settings_stay_in_bounds(
    app: App,
    t: TimerView,
    key: Key,
    elapsed: nat,
    check_elapsed: nat,
    read_elapsed: nat,
)
    requires
        crate::ui::settings_in_bounds(app),
    ensures
        crate::ui::settings_in_bounds(key_effect(app, t, key, elapsed).0),
        crate::ui::settings_in_bounds(tick_effect(app, t, check_elapsed, read_elapsed).0),
{
    crate::ui::lemma_adjust_keeps_bounds(app, 1i64);
    crate::ui::lemma_adjust_keeps_bounds(app, -1i64);
}


/// Skipping a focus session starts the same break, with the same length, that
/// the end of that session would start, but does not count the session.
pub proof fn lemma_skip_picks_next_break(app: App, t: TimerView, elapsed: nat)
    requires
        app.state == TimerState::Pomodoro,
    ensures
        key_effect(app, t, Key::Skip, elapsed).0.state == finish_effect(app, t).0.state,
        key_effect(app, t, Key::Skip, elapsed).1 == finish_effect(app, t).1,
        key_effect(app, t, Key::Skip, elapsed).0.pomodoros_completed == app.pomodoros_completed,
        key_effect(app, t, Key::Skip, elapsed).0.state == TimerState::LongBreak <==> (
        app.pomodoros_completed + 1) % 4 == 0,
{
}

/// The tab and setting keys change only the selected tab or the selected
/// setting: the timer, the phase and a session under way are left alone.
pub proof fn lemma_setting_keys_leave_session(app: App, t: TimerView, elapsed: nat)
    ensures
        key_effect(app, t, Key::NextTab, elapsed) == (
            App { selected_tab: next_tab(app.selected_tab), ..app },
            t,
            Reaction::Continue,
        ),
        key_effect(app, t, Key::PreviousTab, elapsed) == (
            App { selected_tab: previous_tab(app.selected_tab), ..app },
            t,
            Reaction::Continue,
        ),
        key_effect(app, t, Key::Increase, elapsed) == (app.adjusted_spec(1i64), t, Reaction::Continue),
        key_effect(app, t, Key::Decrease, elapsed) == (
            app.adjusted_spec(-1i64),
            t,
            Reaction::Continue,
        ),
        app.adjusted_spec(1i64).state == app.state,
        app.adjusted_spec(-1i64).state == app.state,
        app.adjusted_spec(1i64).selected_tab == app.selected_tab,
        app.adjusted_spec(-1i64).selected_tab == app.selected_tab,
{
}

/// Skipping from any phase but focus (idle, a short break or a long break)
/// starts a focus session of the set length, counting down, and asks for the
/// focus-start notification; the count of completed sessions stays.
pub proof fn lemma_skip_from_other_phases(app: App, t: TimerView, elapsed: nat)
    requires
        app.state != TimerState::Pomodoro,
    ensures
        key_effect(app, t, Key::Skip, elapsed).0.state == TimerState::Pomodoro,
        key_effect(app, t, Key::Skip, elapsed).1.is_running(),
        key_effect(app, t, Key::Skip, elapsed).1.total == app.pomodoro_duration * 60
            * 1_000_000_000,
        key_effect(app, t, Key::Skip, elapsed).1.remaining == app.pomodoro_duration * 60
            * 1_000_000_000,
        key_effect(app, t, Key::Skip, elapsed).2 == Reaction::Play(Sound::PomodoroStart),
        key_effect(app, t, Key::Skip, elapsed).0.pomodoros_completed == app.pomodoros_completed,
{
}

/// A turn of the clock whose check comes at or after the end of a counting
/// focus session ends it: the end and break-start notifications, one more
/// completed session, and a break counting down whose length is the long
/// break's when the new count is a multiple of four and the short break's
/// otherwise. A check before the end changes nothing but the time shown.
pub proof fn lemma_tick_ends_focus_when_time_is_up(
    app: App,
    t: TimerView,
    check_elapsed: nat,
    read_elapsed: nat,
)
    requires
        t.valid(),
        t.is_running(),
        !t.finished,
        app.state == TimerState::Pomodoro,
        app.pomodoros_completed < u64::MAX,
    ensures
        check_elapsed >= t.remaining ==> {
            let r = tick_effect(app, t, check_elapsed, read_elapsed);
            &&& r.2 == seq![Sound::PomodoroEnd, Sound::BreakStart]
            &&& r.0.pomodoros_completed == app.pomodoros_completed + 1
            &&& r.0.state == (if (app.pomodoros_completed + 1) % 4 == 0 {
                TimerState::LongBreak
            } else {
                TimerState::ShortBreak
            })
            &&& r.1.is_running()
            &&& r.1.total == (if (app.pomodoros_completed + 1) % 4 == 0 {
                app.long_break_duration
            } else {
                app.short_break_duration
            }) * 60 * 1_000_000_000
        },
        check_elapsed < t.remaining ==> {
            let r = tick_effect(app, t, check_elapsed, read_elapsed);
            &&& r.2 == Seq::<Sound>::empty()
            &&& r.0 == (App { remaining: r.0.remaining, ..app })
            &&& r.1 == t
        },
{
}

/// A turn of the clock whose check comes at or after the end of a counting
/// break starts a focus session of the set length, with the break-end and
/// focus-start notifications, and leaves the count as it is.
pub proof fn lemma_tick_ends_break_when_time_is_up(
    app: App,
    t: TimerView,
    check_elapsed: nat,
    read_elapsed: nat,
)
    requires
        t.valid(),
        t.is_running(),
        !t.finished,
        app.state == TimerState::ShortBreak || app.state == TimerState::LongBreak,
        check_elapsed >= t.remaining,
    ensures
        tick_effect(app, t, check_elapsed, read_elapsed).2 == seq![
            Sound::BreakEnd,
            Sound::PomodoroStart,
        ],
        tick_effect(app, t, check_elapsed, read_elapsed).0.state == TimerState::Pomodoro,
        tick_effect(app, t, check_elapsed, read_elapsed).0.pomodoros_completed
            == app.pomodoros_completed,
        tick_effect(app, t, check_elapsed, read_elapsed).1.is_running(),
        tick_effect(app, t, check_elapsed, read_elapsed).1.total == app.pomodoro_duration * 60
            * 1_000_000_000,
{
}

/// What holds of the screen and the timer at the top of every turn of the
/// event loop.
pub open spec fn loop_invariant(app: App, t: TimerView) -> bool {
    &&& t.valid()
    &&& (app.state == TimerState::Idle) == t.is_idle()
    &&& app.selected_tab < crate::ui::TAB_COUNT
    &&& crate::ui::settings_in_bounds(app)
}

/// One turn of the event loop: an optional key, its pause time `elapsed`, and
/// the two clock readings of the turn of the clock that follows.
pub open spec fn loop_step(
    app: App,
    t: TimerView,
    key: Option<Key>,
    elapsed: nat,
    check_elapsed: nat,
    read_elapsed: nat,
) -> (App, TimerView) {
    let after_key = match key {
        Some(k) => {
            let r = key_effect(app, t, k, elapsed);
            (r.0, r.1)
        },
        None => (app, t),
    };
    let r = tick_effect(after_key.0, after_key.1, check_elapsed, read_elapsed);
    (r.0, r.1)
}

/// The loop starts in a state that meets its invariant.
pub proof fn lemma_loop_starts_well()
    ensures
        loop_invariant(App::initial(), TimerView::initial()),
{
}

/// Every turn of the event loop keeps the invariant: the phase on the screen
/// is idle exactly when the timer is, the selected tab is one of the three,
/// and every setting stays in range. The count of completed sessions never
/// goes down, and the time shown is the time left on the timer, in whole
/// seconds, at the reading that ends the turn. (A count already at
/// `u64::MAX` is left out: the next completed session overflows it.)
pub proof fn lemma_loop_step(
    app: App,
    t: TimerView,
    key: Option<Key>,
    elapsed: nat,
    check_elapsed: nat,
    read_elapsed: nat,
)
    requires
        loop_invariant(app, t),
        key matches Some(k) ==> key_allowed(app, t, k),
        app.pomodoros_completed < u64::MAX,
    ensures
        loop_invariant(
            loop_step(app, t, key, elapsed, check_elapsed, read_elapsed).0,
            loop_step(app, t, key, elapsed, check_elapsed, read_elapsed).1,
        ),
        loop_step(app, t, key, elapsed, check_elapsed, read_elapsed).0.pomodoros_completed
            >= app.pomodoros_completed,
        loop_step(app, t, key, elapsed, check_elapsed, read_elapsed).0.remaining == (loop_step(
            app,
            t,
            key,
            elapsed,
            check_elapsed,
            read_elapsed,
        ).1.remaining_after(read_elapsed as int) / NANOS_PER_SEC as nat) as u64,
{
    crate::ui::lemma_adjust_keeps_bounds(app, 1i64);
    crate::ui::lemma_adjust_keeps_bounds(app, -1i64);
    let (a1, t1) = match key {
        Some(k) => {
            let r = key_effect(app, t, k, elapsed);
            (r.0, r.1)
        },
        None => (app, t),
    };
    match key {
        Some(k) => {
            crate::timer::lemma_operations_keep_valid(t, app.pomodoro_duration, elapsed);
            if k == Key::Skip && app.state == TimerState::Pomodoro {
                crate::timer::lemma_operations_keep_valid(
                    t,
                    break_minutes(app, app.pomodoros_completed + 1),
                    elapsed,
                );
            }
            assert(loop_invariant(a1, t1));
        },
        None => {},
    }
    crate::timer::lemma_operations_keep_valid(t1, a1.pomodoro_duration, check_elapsed);
    if t1.finish_due(check_elapsed as int) && a1.state == TimerState::Pomodoro {
        if a1.pomodoros_completed < u64::MAX {
            crate::timer::lemma_operations_keep_valid(
                t1,
                break_minutes(a1, a1.pomodoros_completed + 1),
                check_elapsed,
            );
        }
    }
}

} // verus!
