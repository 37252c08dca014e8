# ptimer

A terminal Pomodoro timer with animated ASCII art, written as a Verus
library with a thin terminal program around it.

## Layout

- `src/` — the verified library.
  - `text.rs`: text as character sequences (lines, joining, trimming,
    padding, decimal numbers).
  - `width.rs`: display widths (through `unicode-width`), cutting text to a
    width and centring it.
  - `canvas.rs`, `art.rs`, `animation.rs`: the frames of the art styles and
    the drawn scenes, with their sizes proved.
  - `settings.rs`: phases, styles and their cycling, preferences, the
    configuration and the command-line numbers.
  - `timer.rs`: the timer's state and what a key press, the passing of time
    and the animation do to it; the laws of the countdown and the settings.
  - `report.rs`: the session log lines and the alerts.
  - `screen.rs`: the clock, the progress bar and the main and settings
    screens for any terminal size; `fitting.rs`: how those screens fit.
- `tests/` — tests of the library on concrete values.
- `app/main.rs` — the program: command line, files, terminal, clock,
  sounds and notices. It carries out the effects the library decides.

The program reads the bundled art from `default_ascii.txt` in the working
directory when it starts.
