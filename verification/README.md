# Wardogs Arty Buddy

A small always-on-top window that turns two copied map points into a range
in meters for the game WARDOGS, with terrain heights and a self-update.

- `src/` is the verified library: reading release tags and choosing an
  update (`version`, `update`), the board of coordinate fields and the
  clipboard points (`range`, `board`), the inks (`ink`), the height grids'
  samples (`terrain`) and text helpers (`text`).
- `app/` is the program around it: the egui window, the floating-point
  range, color and height math, the network, files and processes.
- `tests/` runs the library on concrete values.
