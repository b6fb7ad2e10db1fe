# rusty_engine

The frame-by-frame core of a small 2D game engine on top of Bevy, verified
with Verus.

- `src/` is the verified library: the `Engine` that a game's logic reads and
  changes each frame (`engine.rs`), its sprites, SVG sprites, texts and
  collision events (`items.rs`), the label maps that hold them
  (`label_map.rs`, Bevy's `HashMap` behind small trusted wrappers), the
  decisions that bring the engine back into the world at the end of a frame
  (`sync.rs`), and the laws that every frame obeys (`laws.rs`).
- `app/` is the Bevy side: the `Game` that owns the Bevy `App`, the startup
  and per-frame systems, which fill the engine from the world, run the game's
  logic, and carry out the plan that `Engine::plan_frame` returns.
- `tests/` runs the library on concrete frames.
