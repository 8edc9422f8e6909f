use pomodoro::control::{
    can_finish, can_handle_key, can_start, finish_session, handle_key, handle_tick, is_long_break_due,
    is_long_break_next, Key,
    Reaction, Sound,
};
use pomodoro::timer::{Timer, TimerState, NANOS_PER_SEC};
use pomodoro::ui::App;

const MINUTE: u128 = 60 * NANOS_PER_SEC;

#[test]
fn long_break_rule() {
    assert!(is_long_break_due(0));
    assert!(!is_long_break_due(1));
    assert!(!is_long_break_due(3));
    assert!(is_long_break_due(4));
    assert!(!is_long_break_next(0));
    assert!(is_long_break_next(3));
    assert!(!is_long_break_next(4));
    assert!(is_long_break_next(u64::MAX));
}

#[test]
fn toggle_starts_pauses_resumes() {
    let mut app = App::new();
    let mut timer = Timer::new();
    assert_eq!(handle_key(&mut app, &mut timer, Key::Toggle), Reaction::Play(Sound::PomodoroStart));
    assert_eq!(app.state, TimerState::Pomodoro);
    assert!(timer.is_running());
    assert_eq!(timer.total_duration(), 25 * MINUTE);
    assert_eq!(handle_key(&mut app, &mut timer, Key::Toggle), Reaction::Continue);
    assert!(timer.is_paused());
    assert!(app.is_paused);
    assert_eq!(handle_key(&mut app, &mut timer, Key::Toggle), Reaction::Continue);
    assert!(timer.is_running());
    assert!(!app.is_paused);
    assert_eq!(app.state, TimerState::Pomodoro);
}

#[test]
fn toggle_pauses_finished_session() {
    let mut app = App::new();
    let mut timer = Timer::new();
    timer.start_pomodoro(0);
    assert!(timer.check_finished());
    // a finished timer still counts as running, so the key pauses it
    assert_eq!(handle_key(&mut app, &mut timer, Key::Toggle), Reaction::Continue);
    assert!(timer.is_paused());
}

#[test]
fn stop_key_resets() {
    let mut app = App::new();
    let mut timer = Timer::new();
    handle_key(&mut app, &mut timer, Key::Toggle);
    assert_eq!(handle_key(&mut app, &mut timer, Key::Stop), Reaction::Continue);
    assert!(timer.is_idle());
    assert_eq!(app.state, TimerState::Idle);
    assert_eq!(app.remaining, 0);
    assert!(!app.is_paused);
}

#[test]
fn skip_from_focus_goes_to_break_without_counting() {
    let mut app = App::new();
    let mut timer = Timer::new();
    handle_key(&mut app, &mut timer, Key::Toggle);
    // skipping the first session starts the break that its end would start
    assert_eq!(handle_key(&mut app, &mut timer, Key::Skip), Reaction::Play(Sound::BreakStart));
    assert_eq!(app.state, TimerState::ShortBreak);
    assert_eq!(timer.total_duration(), 5 * MINUTE);
    assert_eq!(app.pomodoros_completed, 0);
    assert_eq!(handle_key(&mut app, &mut timer, Key::Skip), Reaction::Play(Sound::PomodoroStart));
    assert_eq!(app.state, TimerState::Pomodoro);
    assert_eq!(timer.total_duration(), 25 * MINUTE);
    // skipping the fourth session starts the long break
    app.pomodoros_completed = 3;
    assert_eq!(handle_key(&mut app, &mut timer, Key::Skip), Reaction::Play(Sound::BreakStart));
    assert_eq!(app.state, TimerState::LongBreak);
    assert_eq!(timer.total_duration(), 15 * MINUTE);
    assert_eq!(app.pomodoros_completed, 3);
    assert!(timer.is_running());
    app.state = TimerState::Pomodoro;
    app.pomodoros_completed = 4;
    handle_key(&mut app, &mut timer, Key::Skip);
    assert_eq!(app.state, TimerState::ShortBreak);
}

#[test]
fn skip_guard_at_count_limit() {
    let mut app = App::new();
    let mut timer = Timer::new();
    app.state = TimerState::Pomodoro;
    app.pomodoros_completed = u64::MAX;
    // u64::MAX % 4 == 3: the next session would be a multiple of four
    assert!(can_handle_key(&app, &timer, Key::Skip));
    handle_key(&mut app, &mut timer, Key::Skip);
    assert_eq!(app.state, TimerState::LongBreak);
    assert_eq!(app.pomodoros_completed, u64::MAX);
}

#[test]
fn skip_from_idle_starts_focus() {
    let mut app = App::new();
    let mut timer = Timer::new();
    assert_eq!(handle_key(&mut app, &mut timer, Key::Skip), Reaction::Play(Sound::PomodoroStart));
    assert_eq!(app.state, TimerState::Pomodoro);
    assert!(timer.is_running());
}

#[test]
fn skip_from_paused_keeps_flag() {
    let mut app = App::new();
    let mut timer = Timer::new();
    handle_key(&mut app, &mut timer, Key::Toggle);
    handle_key(&mut app, &mut timer, Key::Toggle);
    handle_key(&mut app, &mut timer, Key::Skip);
    assert!(timer.is_running());
    assert!(app.is_paused);
}

#[test]
fn settings_keys() {
    let mut app = App::new();
    let mut timer = Timer::new();
    assert_eq!(handle_key(&mut app, &mut timer, Key::Increase), Reaction::Continue);
    assert_eq!(app.pomodoro_duration, 26);
    assert_eq!(handle_key(&mut app, &mut timer, Key::NextTab), Reaction::Continue);
    assert_eq!(app.selected_tab, 1);
    handle_key(&mut app, &mut timer, Key::Decrease);
    assert_eq!(app.short_break_duration, 4);
    handle_key(&mut app, &mut timer, Key::PreviousTab);
    handle_key(&mut app, &mut timer, Key::PreviousTab);
    assert_eq!(app.selected_tab, 2);
    assert!(timer.is_idle());
}

#[test]
fn quit_key() {
    let mut app = App::new();
    let mut timer = Timer::new();
    assert_eq!(handle_key(&mut app, &mut timer, Key::Quit), Reaction::Quit);
    assert!(app.quitting);
}

#[test]
fn finishing_focus_counts_and_picks_break() {
    let mut app = App::new();
    let mut timer = Timer::new();
    app.state = TimerState::Pomodoro;
    let sounds = finish_session(&mut app, &mut timer);
    assert_eq!(sounds, vec![Sound::PomodoroEnd, Sound::BreakStart]);
    assert_eq!(app.pomodoros_completed, 1);
    assert_eq!(app.state, TimerState::ShortBreak);
    assert_eq!(timer.total_duration(), 5 * MINUTE);
    app.state = TimerState::Pomodoro;
    app.pomodoros_completed = 3;
    finish_session(&mut app, &mut timer);
    assert_eq!(app.pomodoros_completed, 4);
    assert_eq!(app.state, TimerState::LongBreak);
    assert_eq!(timer.total_duration(), 15 * MINUTE);
    assert!(timer.is_running());
}

#[test]
fn finishing_break_starts_focus() {
    let mut app = App::new();
    let mut timer = Timer::new();
    app.state = TimerState::LongBreak;
    app.pomodoros_completed = 4;
    let sounds = finish_session(&mut app, &mut timer);
    assert_eq!(sounds, vec![Sound::BreakEnd, Sound::PomodoroStart]);
    assert_eq!(app.state, TimerState::Pomodoro);
    assert_eq!(app.pomodoros_completed, 4);
    assert_eq!(timer.total_duration(), 25 * MINUTE);
}

#[test]
fn finishing_while_idle_does_nothing() {
    let mut app = App::new();
    let mut timer = Timer::new();
    let sounds = finish_session(&mut app, &mut timer);
    assert!(sounds.is_empty());
    assert!(timer.is_idle());
    assert_eq!(app.state, TimerState::Idle);
}

#[test]
fn tick_shows_time_left() {
    let mut app = App::new();
    let mut timer = Timer::new();
    handle_key(&mut app, &mut timer, Key::Toggle);
    let sounds = handle_tick(&mut app, &mut timer);
    assert!(sounds.is_empty());
    assert!(app.remaining <= 1500);
    assert!(app.remaining >= 1400);
    assert_eq!(app.state, TimerState::Pomodoro);
}

#[test]
fn tick_moves_to_break_when_time_runs_out() {
    let mut app = App::new();
    let mut timer = Timer::new();
    app.pomodoro_duration = 0;
    handle_key(&mut app, &mut timer, Key::Toggle);
    let sounds = handle_tick(&mut app, &mut timer);
    assert_eq!(sounds, vec![Sound::PomodoroEnd, Sound::BreakStart]);
    assert_eq!(app.pomodoros_completed, 1);
    assert_eq!(app.state, TimerState::ShortBreak);
    assert!(timer.is_running());
    assert!(app.remaining <= 300);
    assert!(app.remaining >= 200);
}

#[test]
fn tick_while_idle_does_nothing() {
    let mut app = App::new();
    let mut timer = Timer::new();
    let sounds = handle_tick(&mut app, &mut timer);
    assert!(sounds.is_empty());
    assert_eq!(app.remaining, 0);
    assert!(timer.is_idle());
}

#[test]
fn guards_on_machine_limits() {
    let mut app = App::new();
    let timer = Timer::new();
    assert!(can_start(25));
    assert!(can_start(u64::MAX / 60));
    assert!(!can_start(u64::MAX / 60 + 1));
    assert!(can_handle_key(&app, &timer, Key::Toggle));
    app.pomodoro_duration = u64::MAX;
    assert!(!can_handle_key(&app, &timer, Key::Toggle));
    assert!(!can_handle_key(&app, &timer, Key::Skip));
    assert!(can_handle_key(&app, &timer, Key::Quit));
    app.selected_tab = usize::MAX;
    assert!(!can_handle_key(&app, &timer, Key::NextTab));
    assert!(can_handle_key(&app, &timer, Key::PreviousTab));
    let mut app = App::new();
    app.state = TimerState::Pomodoro;
    assert!(can_finish(&app));
    app.pomodoros_completed = u64::MAX;
    assert!(!can_finish(&app));
    app.state = TimerState::Idle;
    assert!(can_finish(&app));
}
