//! Map builders: each one shapes or decorates the map held in a `BuilderMap`.
pub mod waveform_collapse;
pub mod cellular_automata;
pub mod prefab_builder;
pub mod common;
pub mod limestone_cavern;
pub mod cull_unreachable;
pub mod distant_exit;
pub mod room_based_starting_position;
pub mod room_corner_rounding;
pub mod room_corridor_spawner;
pub mod yellow_brick_road;
pub mod dla;
pub mod chain;

use vstd::prelude::*;
use crate::map::{GameMap, is_snapshot_of, idx, in_grid, lemma_idx_in_bounds};
use crate::tile::{TileType, spec_tile_walkable};
use crate::components::Position;
use crate::rect::Rect;

verus! {

/// The state a chain of builders works on: the map, what to spawn where, the start,
/// the rooms and corridors found so far, and the snapshots taken along the way.
pub struct BuilderMap {
    pub spawn_list: Vec<(usize, String)>,
    pub map: GameMap,
    pub starting_position: Option<Position>,
    pub rooms: Option<Vec<Rect>>,
    pub corridors: Option<Vec<Vec<usize>>>,
    pub history: Vec<GameMap>,
    pub width: i32,
    pub height: i32,
}

/// `new` is `old` with `k` snapshots appended.
pub open spec fn history_grows(new: Seq<GameMap>, old: Seq<GameMap>, k: int) -> bool {
    &&& new.len() == old.len() + k
    &&& forall|i: int| 0 <= i < old.len() ==> #[trigger] new[i] == old[i]
}

impl BuilderMap {
    /// Fields that builders which only touch the map leave alone.
    pub open spec fn same_plan(&self, other: &BuilderMap) -> bool {
        &&& self.spawn_list == other.spawn_list
        &&& self.starting_position == other.starting_position
        &&& self.rooms == other.rooms
        &&& self.corridors == other.corridors
        &&& self.width == other.width
        &&& self.height == other.height
    }

    /// Records the current map, with every tile revealed, in the history.
    pub fn take_snapshot(&mut self)
        ensures
            history_grows(final(self).history@, old(self).history@, 1),
            is_snapshot_of(final(self).history@.last(), old(self).map),
            final(self).map == old(self).map,
            final(self).same_plan(&*old(self)),
    {
        let snapshot = self.map.snapshot();
        self.history.push(snapshot);
    }
}

/// The bit pattern of the distance a distance map gives to a tile it cannot reach
/// (`f32::MAX`). Distances are non-negative, so comparing bit patterns as unsigned
/// integers orders them as the distances themselves.
pub const UNREACHABLE_DISTANCE: u32 = 0x7f7f_ffff;

/// Gets a map ready for a distance search from the starting position: marks the blocked
/// tiles and returns the index of the start.
pub fn prepare_distance_search(build_data: &mut BuilderMap) -> (start_index: usize)
    requires
        old(build_data).map.wf(),
        old(build_data).starting_position is Some,
        in_grid(
            old(build_data).map.width as int,
            old(build_data).map.height as int,
            old(build_data).starting_position->0.x as int,
            old(build_data).starting_position->0.y as int,
        ),
    ensures
        final(build_data).map.wf(),
        final(build_data).same_plan(&*old(build_data)),
        final(build_data).history == old(build_data).history,
        final(build_data).map.tiles == old(build_data).map.tiles,
        final(build_data).map.same_shape(&old(build_data).map),
        final(build_data).map.blocked@ == old(build_data).map.tiles@.map_values(|t: TileType| !spec_tile_walkable(t)),
        start_index == idx(
            old(build_data).map.width as int,
            old(build_data).starting_position->0.x as int,
            old(build_data).starting_position->0.y as int,
        ),
        start_index < old(build_data).map.tiles.len(),
{
    let starting_pos = match build_data.starting_position {
        Some(p) => p,
        None => Position { x: 0, y: 0 },
    };
    proof {
        lemma_idx_in_bounds(build_data.map.width as int, build_data.map.height as int, starting_pos.x as int, starting_pos.y as int);
    }
    let start_index = build_data.map.xy_index(starting_pos.x, starting_pos.y);
    build_data.map.populate_blocked();
    start_index
}

} // verus!
