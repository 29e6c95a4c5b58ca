# ui

The decision-making core of a small Wayland compositor and its widget
toolkit, written in Verus with its contracts proved:

- `src/` is the verified library: rectangle union and the damage algebra,
  per-widget pending damage, the damage-debugging tint cycle, raw to semantic
  pointer events, pointer focus and routing to clients, texture batching and
  glyph lookup for drawing, and window configure sizing. Coordinates are whole
  numbers (pixels, or the wire's fixed-point values).
- `app/` is the code around it that talks to the GPU through `glow`, lays
  widgets out with `taffy`, and works in floating point.
- `tests/` exercises the library.
