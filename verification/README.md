# j_gcal

A terminal calendar for Google Calendar: three days side by side, a time
gutter, and an insert cursor for creating events, driven by the keyboard.

The crate is written in Verus. The library (`src/`) holds the logic and its
proofs:

- `app` — the interface's state machine. Every key press, resize and
  message from background work is a step from a state to the next state and
  an `Effect` (the outside work to do: fetch, create, quit, edit a text
  field). Each step is specified by a `spec_*` function.
- `view` — which events show in a day's viewport, the rows they cover, and
  the rectangles they are drawn in, so that overlapping events stand side by
  side; the gutter labels and the day headers.
- `screen` — the plan of a whole frame, with the areas ratatui's layout gives.
- `time`, `clock` — instants and local wall-clock readings as nanoseconds,
  and the machine's clock and zone through chrono.
- `event`, `sort`, `text`, `calendar`, `config` — events as the calendar
  service returns them, a stable sort by start, joined text lines, the window
  of a fetch, and the settings.
- `laws` — properties that span several steps: what Tab and BackTab undo,
  that the view stays within the day, that the insert cursor stays a whole
  number of rows, that loaded events stay sorted, and more.

`app/` is the terminal program around it: it reads the settings, signs in to
Google, runs the event loop with ratatui and tokio, performs the effects the
library asks for and paints the frame plan.
