use pomodoro::timer::{Timer, TimerState, NANOS_PER_SEC};

const MINUTE: u128 = 60 * NANOS_PER_SEC;

#[test]
fn new_timer_is_idle() {
    let timer = Timer::new();
    assert!(timer.is_idle());
    assert!(!timer.is_running());
    assert!(!timer.is_paused());
    assert_eq!(timer.total_duration(), 0);
    assert_eq!(timer.remaining(), 0);
}

#[test]
fn start_pomodoro_counts_down_whole_session() {
    let mut timer = Timer::new();
    timer.start_pomodoro(25);
    assert!(timer.is_running());
    assert!(!timer.is_idle());
    assert_eq!(timer.total_duration(), 25 * MINUTE);
    assert_eq!(timer.remaining_after(0), 25 * MINUTE);
    assert_eq!(timer.remaining_after(MINUTE), 24 * MINUTE);
    assert_eq!(timer.remaining_after(25 * MINUTE), 0);
    assert_eq!(timer.remaining_after(100 * MINUTE), 0);
    let left = timer.remaining();
    assert!(left <= 25 * MINUTE);
    assert!(left > 24 * MINUTE);
}

#[test]
fn start_break_sets_length() {
    let mut timer = Timer::new();
    timer.start_break(5);
    assert!(timer.is_running());
    assert_eq!(timer.total_duration(), 5 * MINUTE);
}

#[test]
fn pause_keeps_time_left_and_freezes() {
    let mut timer = Timer::new();
    timer.start_pomodoro(25);
    timer.pause_after(3 * MINUTE);
    assert!(timer.is_paused());
    assert!(!timer.is_running());
    assert_eq!(timer.remaining_after(0), 22 * MINUTE);
    assert_eq!(timer.remaining_after(10 * MINUTE), 22 * MINUTE);
    assert_eq!(timer.remaining(), 22 * MINUTE);
    // pausing again changes nothing
    timer.pause_after(MINUTE);
    assert_eq!(timer.remaining(), 22 * MINUTE);
    timer.pause();
    assert_eq!(timer.remaining(), 22 * MINUTE);
}

#[test]
fn pause_reads_clock() {
    let mut timer = Timer::new();
    timer.start_pomodoro(1);
    timer.pause();
    assert!(timer.is_paused());
    let left = timer.remaining();
    assert!(left <= MINUTE);
    assert!(left > MINUTE / 2);
}

#[test]
fn resume_counts_down_again() {
    let mut timer = Timer::new();
    timer.start_pomodoro(25);
    timer.pause_after(5 * MINUTE);
    timer.resume();
    assert!(timer.is_running());
    assert_eq!(timer.remaining_after(0), 20 * MINUTE);
    assert_eq!(timer.remaining_after(MINUTE), 19 * MINUTE);
    // resuming a running timer changes nothing
    timer.resume();
    assert_eq!(timer.remaining_after(0), 20 * MINUTE);
}

#[test]
fn resume_on_idle_does_nothing() {
    let mut timer = Timer::new();
    timer.resume();
    assert!(timer.is_idle());
}

#[test]
fn stop_makes_idle() {
    let mut timer = Timer::new();
    timer.start_pomodoro(25);
    timer.stop();
    assert!(timer.is_idle());
    assert_eq!(timer.remaining(), 0);
    assert_eq!(timer.total_duration(), 25 * MINUTE);
}

#[test]
fn finish_is_reported_once() {
    let mut timer = Timer::new();
    timer.start_pomodoro(1);
    assert!(!timer.check_finished_after(MINUTE - 1));
    assert!(timer.check_finished_after(MINUTE));
    assert!(!timer.check_finished_after(MINUTE));
    assert!(!timer.check_finished_after(10 * MINUTE));
    assert!(!timer.check_finished());
    // still counted as running, not idle
    assert!(timer.is_running());
    assert!(!timer.is_idle());
}

#[test]
fn finish_not_reported_while_paused() {
    let mut timer = Timer::new();
    timer.start_pomodoro(1);
    timer.pause_after(0);
    assert!(!timer.check_finished_after(10 * MINUTE));
    assert!(!timer.check_finished());
}

#[test]
fn zero_length_session_finishes_at_once() {
    let mut timer = Timer::new();
    timer.start_pomodoro(0);
    assert!(timer.check_finished());
    assert!(!timer.check_finished());
}

#[test]
fn fresh_session_not_finished_by_clock() {
    let mut timer = Timer::new();
    timer.start_pomodoro(25);
    assert!(!timer.check_finished());
    assert!(timer.is_running());
}

#[test]
fn timer_state_compares() {
    assert_eq!(TimerState::Idle, TimerState::Idle);
    assert_ne!(TimerState::ShortBreak, TimerState::LongBreak);
}

#[test]
fn end_reported_once_across_pause_and_stop() {
    let mut timer = Timer::new();
    timer.start_break(1);
    assert!(timer.check_finished_after(2 * MINUTE));
    timer.pause_after(0);
    timer.resume();
    assert!(!timer.check_finished_after(5 * MINUTE));
    timer.stop();
    assert!(!timer.check_finished_after(5 * MINUTE));
    timer.resume();
    assert!(timer.is_idle());
    timer.start_pomodoro(0);
    assert!(timer.check_finished_after(0));
}

#[test]
fn status_follows_history() {
    let mut timer = Timer::new();
    timer.pause();
    assert!(timer.is_idle());
    timer.start_pomodoro(25);
    timer.pause_after(MINUTE);
    timer.pause_after(MINUTE);
    assert!(timer.is_paused());
    timer.resume();
    assert!(timer.is_running());
    assert!(!timer.check_finished_after(MINUTE));
    assert!(timer.is_running());
    timer.stop();
    assert!(timer.is_idle());
    assert!(!timer.is_running());
    assert!(!timer.is_paused());
}
