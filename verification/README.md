# loopit

Sample-stream plumbing of a microphone-driven pitch tracker and looper,
verified with Verus.

- `src/` is the verified library:
  - `window`: the sliding analysis window (a doubled ring buffer) and the
    cadence at which pitch analyses fall due;
  - `hop`: a hop queue that hands out overlapping analysis windows;
  - `recorder`: the control-thread side of the looper (recording a loop and
    handing it to playback);
  - `player`: the output-callback side of the looper (playing the loop round
    and round on every channel);
  - `pitch_cell`: the shared cell holding the latest pitch estimate;
  - `queue`: the `rtrb` queue operations the library relies on, with the
    history of items that passed through each queue end (the looper's
    samples travel as `f32` bit patterns, `u32`);
  - `input`: the per-sample input stage.
- `app/` holds the programs: audio I/O through `cpal`, the analysis threads,
  the `pitch-detection` calls, the floating-point synthesis and the C
  interface of the browser build.
- `tests/` exercises the library on concrete streams.
