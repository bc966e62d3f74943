use vstd::prelude::*;
use crate::tile::TileType;
use crate::map_builders::{BuilderMap, UNREACHABLE_DISTANCE};

verus! {

/// Walls off the floor that cannot be reached from the starting position.
pub struct CullUnreachable {}

/// The tiles after culling: floor that the distance map does not reach becomes wall.
pub open spec fn culled(tiles: Seq<TileType>, distances: Seq<u32>) -> Seq<TileType> {
    Seq::new(
        tiles.len(),
        |i: int|
            if tiles[i] == TileType::Floor && distances[i] == UNREACHABLE_DISTANCE {
                TileType::Wall
            } else {
                tiles[i]
            },
    )
}

impl CullUnreachable {
    pub fn new() -> (b: Box<CullUnreachable>) {
        Box::new(CullUnreachable {})
    }

    /// Turns unreachable floor into wall, given the bit pattern of each tile's distance
    /// from the start (`prepare_distance_search` gives the start and marks the blocked tiles).
    pub fn cull(&mut self, build_data: &mut BuilderMap, distances: &Vec<u32>)
        requires
            old(build_data).map.wf(),
            distances.len() == old(build_data).map.tiles.len(),
        ensures
            final(build_data).map.wf(),
            final(build_data).map.same_but_tiles(&old(build_data).map),
            final(build_data).same_plan(&*old(build_data)),
            final(build_data).history == old(build_data).history,
            final(build_data).map.tiles@ == culled(old(build_data).map.tiles@, distances@),
    {
        let n = build_data.map.tiles.len();
        let mut i: usize = 0;
        while i < n
            invariant
                build_data.map.wf(),
                build_data.map.same_but_tiles(&old(build_data).map),
                build_data.same_plan(&*old(build_data)),
                build_data.history == old(build_data).history,
                n == build_data.map.tiles.len(),
                distances.len() == n,
                i <= n,
                forall|j: int| 0 <= j < i ==> #[trigger] build_data.map.tiles@[j] == culled(old(build_data).map.tiles@, distances@)[j],
                forall|j: int| i <= j < n ==> #[trigger] build_data.map.tiles@[j] == old(build_data).map.tiles@[j],
            decreases n - i,
        {
            if build_data.map.tiles[i] == TileType::Floor {
                // We can't get to this tile - so we'll make it a wall.
                if distances[i] == UNREACHABLE_DISTANCE {
                    build_data.map.tiles.set(i, TileType::Wall);
                }
            }
            i = i + 1;
        }
        assert(build_data.map.tiles@ =~= culled(old(build_data).map.tiles@, distances@));
    }
}

} // verus!
