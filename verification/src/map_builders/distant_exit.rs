use vstd::prelude::*;
use crate::tile::TileType;
use crate::map::is_snapshot_of;
use crate::map_builders::{BuilderMap, UNREACHABLE_DISTANCE, history_grows};

verus! {

/// Puts the down stairs on the reachable floor tile farthest from the start.
pub struct DistantExit {}

/// The exit candidate after looking at the first `k` tiles: the first reachable floor tile
/// whose distance beats every earlier one, starting from tile 0 at distance 0.
pub open spec fn farthest_floor(tiles: Seq<TileType>, distances: Seq<u32>, k: int) -> (int, u32)
    decreases k,
{
    if k <= 0 {
        (0, 0)
    } else {
        let prev = farthest_floor(tiles, distances, k - 1);
        let i = k - 1;
        if tiles[i] == TileType::Floor && distances[i] != UNREACHABLE_DISTANCE && distances[i] > prev.1 {
            (i, distances[i])
        } else {
            prev
        }
    }
}

proof fn lemma_farthest_in_range(tiles: Seq<TileType>, distances: Seq<u32>, k: int)
    requires
        0 <= k,
    ensures
        0 <= farthest_floor(tiles, distances, k).0,
        k > 0 ==> farthest_floor(tiles, distances, k).0 < k,
    decreases k,
{
    if k > 0 {
        lemma_farthest_in_range(tiles, distances, k - 1);
    }
}

impl DistantExit {
    pub fn new() -> (b: Box<DistantExit>) {
        Box::new(DistantExit {})
    }

    /// Places the down stairs on the farthest reachable floor tile (the first such tile
    /// when several tie; tile 0 when none is reachable), given the bit pattern of each
    /// tile's distance from the start, and records a snapshot.
    pub fn place_exit(&mut self, build_data: &mut BuilderMap, distances: &Vec<u32>)
        requires
            old(build_data).map.wf(),
            old(build_data).map.tiles.len() >= 1,
            distances.len() == old(build_data).map.tiles.len(),
        ensures
            final(build_data).map.wf(),
            final(build_data).map.same_but_tiles(&old(build_data).map),
            final(build_data).same_plan(&*old(build_data)),
            final(build_data).map.tiles@ == old(build_data).map.tiles@.update(
                farthest_floor(old(build_data).map.tiles@, distances@, old(build_data).map.tiles.len() as int).0,
                TileType::DownStairs,
            ),
            history_grows(final(build_data).history@, old(build_data).history@, 1),
            is_snapshot_of(final(build_data).history@.last(), final(build_data).map),
    {
        let n = build_data.map.tiles.len();
        let mut exit_index: usize = 0;
        let mut exit_distance: u32 = 0;
        let mut i: usize = 0;
        while i < n
            invariant
                n == build_data.map.tiles.len(),
                build_data.map == old(build_data).map,
                distances.len() == n,
                i <= n,
                (exit_index as int, exit_distance) == farthest_floor(build_data.map.tiles@, distances@, i as int),
            decreases n - i,
        {
            if build_data.map.tiles[i] == TileType::Floor {
                let distance_to_start = distances[i];
                if distance_to_start != UNREACHABLE_DISTANCE {
                    // If it is further away than our exit candidate, move the exit.
                    if distance_to_start > exit_distance {
                        exit_index = i;
                        exit_distance = distance_to_start;
                    }
                }
            }
            i = i + 1;
        }
        proof { lemma_farthest_in_range(build_data.map.tiles@, distances@, n as int); }
        // Place a staircase.
        build_data.map.tiles.set(exit_index, TileType::DownStairs);
        build_data.take_snapshot();
    }
}

} // verus!
