# rstarwars

The rules of a Space Invaders–style terminal game, verified with Verus, and a
thin terminal front end around them.

- `src/game.rs` — the state of a match (`Game`), its mathematical view
  (`GameView`), the rules as spec functions, and the code that plays them:
  waves, the player's actions, the frame update (lasers, explosions, the
  formation's march, collisions, lives, wave changes).
- `src/laws.rs` — what holds of every match: points per enemy, lives only
  falling, when a match can end, waves growing harder, the ship staying in
  its lane, the invariant being kept, and more.
- `src/render.rs` — the field as a grid of coloured cells and the exact text,
  with ANSI colour codes, of a whole frame.
- `src/input.rs`, `src/screens.rs` — key bindings and the layout and
  decisions of the intro, menu and mission report.
- `src/outside.rs` — the clock of the standard library and the random
  generator of `rand`, with what is assumed of them.
- `app/` — `main`, terminal set-up and all reading and writing, built with
  `crossterm`.
