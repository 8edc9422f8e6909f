//! A Pomodoro timer: focus sessions, short breaks and a long break after
//! every fourth completed session, with adjustable durations.
//!
//! `timer` holds the countdown, `ui` the state that the screen shows and the
//! settings that the user adjusts, and `control` the rules that turn key
//! presses and expired countdowns into the next state.

pub mod control;
pub mod timer;
pub mod ui;
