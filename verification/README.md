# skryn

A desktop GUI toolkit on webrender. This crate is its verified core: the data,
state and decisions of the toolkit, with their contracts proved by Verus.

- `src/data` — observable values and their observers.
- `src/gui/properties.rs` — element style properties (one per kind), input
  descriptions and the id generator.
- `src/gui/segment.rs` — how a text splits into segments by bidirectional
  class and script (the classes and levels come from `unicode_bidi`).
- `src/gui/font.rs` — how text segments group into paragraphs and direction
  runs, and the display order of the segments of a line (right-to-left text).
- `src/gui/window.rs` — the event loop's bookkeeping: items under the pointer,
  input to primitive events, where each event goes, frame timing.
- `src/elements` — the text box (editing, copy and paste, cursor, focus, hover), the button,
  how boxes pass events to their children, images.

`app/` holds what draws and talks to the system: the elements as webrender
objects, text shaping with harfbuzz, fonts, windows and the window manager.
Lengths and colours, which the renderer computes with as `f32`, travel through
the library as their bit patterns.
