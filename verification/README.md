# ashfall

A small isometric survival game. The game rules live in the verified library
(`src/`): the tile grid and its walls, the inventory and what eating and drinking
take out of it, the player's moves, and the switch between playing and dead.
`app/` is the bevy program around it: rendering, input, the clock, and the
floating-point needs and health.

- `src/grid.rs` — tile coordinates.
- `src/world.rs` — the walkable grid, its solid tiles, the ground layout.
- `src/item.rs` — item kinds, the consume kinds the item table lists for them, the inventory, the starting item placements.
- `src/survival.rs` — eat and drink requests and which carried items, by the item table, answer them.
- `src/state.rs` — playing and dead, death and restart.
- `src/player.rs` — movement keys and moves.
- `src/iso.rs` — the lines of the drawn grid.
