# roguelike

Map generation and game rules of a tile-based roguelike, written in Verus: each
function states what it does in `requires` / `ensures`, and Verus proves it.

- `src/map.rs`, `src/tile.rs`, `src/rect.rs`, `src/components.rs`: the tile grid and
  its indexing, walkability, opacity and path exits.
- `src/map_builders/`: the level builders (cellular automata, diffusion-limited
  aggregation, prefabs and vaults, wave-function-collapse constraints, culling, exits,
  corner rounding, the yellow brick road, cave decoration) and the builder chains that
  plan a level from dice rolls.
- `src/ai.rs`, `src/player.rs`, `src/damage.rs`, `src/inventory.rs`,
  `src/visibility.rs`, `src/state.rs`: monster and player moves, damage and death,
  item use, what the player sees, and the run-state machine.
- `src/laws.rs`: properties that span several operations.
- `src/rng.rs`: the calls into rltk's dice and line drawing, with the contracts the
  library relies on.
- `app/`: a terminal front end that runs builder chains (with rltk's path-finding),
  draws the level and lets the player walk it; serde copies of the raw-file types;
  lighting, which is floating point.
