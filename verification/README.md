# pomodoro

A terminal Pomodoro timer: focus sessions, short breaks, and a long break after
every fourth completed session, with durations adjustable from the keyboard.

- `src/` is the verified library.
  - `timer.rs`: the countdown (`Timer`), its abstract view `TimerView`, and the
    proofs about its states.
  - `ui.rs`: the screen state and settings (`App`), and the choices the screen
    makes (headings, clock digits, the celebration mark).
  - `control.rs`: the rules that turn a key press or an expired countdown into
    the next state and the notification to play.
- `app/` is the program around it: the terminal, the event loop, drawing with
  ratatui, and sound playback through `paplay`. The sound file is read at run
  time from `assets/sui.wav` in the working directory.
- `tests/` runs the library on concrete values.
