# conapp

A toolkit for console applications (mostly roguelikes): colors and color
names, CSS-like selectors and style sheets, a tree of widget elements with its
layout and input rules, images and fonts. The logic is written in Verus and
proved against its contracts; the parts that need I/O, floating point or
process-wide state sit around it.

## Layout

- `src/` — the verified library
  - `color/` — `RGBA`, palettes of named colors, parsing of hex, rgb lists,
    names and shades
  - `css/` — selectors: tokens of one selector part (`tokens.rs`), parsing
    (`selector.rs`) and matching against an element tree (`matching.rs`)
  - `ui/` — the element tree (`element.rs`), layout of columns, rows and frames
    (`layout.rs`), style sheets and the styles elements end up with
    (`sheet.rs`, `sort.rs`, `computed.rs`), lists, selects and checkboxes,
    widget tags, and a `{:?}`-style description of an element (`debug.rs`)
  - `draw.rs` — the integer steps of drawing an image with subcell glyphs
  - `img.rs`, `font.rs`, `input.rs`, `value/`, `text.rs` — images, font file
    names and font images, keyboard and mouse state, keys, text helpers
- `app/` — the rest: the process-wide palette and style sheet, loading files,
  serde forms, floating-point color math, mouse positions and font loaders
- `tests/` — tests run against the compiled library
