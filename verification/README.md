# rioterm

The front end of a terminal emulator, without its windows: what tabs and panes
hold, what sessions send and are sent, what is drawn, which hints a screen has,
and how tabs move between windows and programs. Everything in `src/` is verified
with Verus; `app/` is the thin program around it.

- `src/context/`: tabs, their panes, and the sessions that the panes show. A
  session's worker sends frames, which `passive.rs` and `remote.rs` decode; the
  command queue is in `session.rs`, and `pump.rs` decides what goes over the
  wire next. `manager.rs` holds the tabs of a window, `handover.rs` and
  `adopt.rs` hand them to other windows and take them in, and `numbers.rs` says
  that no two panes get the same number on the way.
- `src/application/`: what happens between windows. Functions take what was
  observed (`WindowFacts`, a pointer's motion, a program's answer) and return or
  queue what is to be done (`Effect`, `WindowAction`, `PointerAction`).
- `src/hints.rs`: labels for what a screen shows, and what their choice does.
- `src/renderer/`: colours, wrapped and shortened text, messages.
- `app/`: `main`, the loop that performs what the library asks for, and what
  deals in floating point: geometry and the sound of the bell.
- `tests/`: the library's tests.

Each module states its contracts over models of its data. Public proof functions
whose names begin with `law_` state what holds across functions.
