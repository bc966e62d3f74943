use vstd::prelude::*;
use rltk::RandomNumberGenerator;
use crate::tile::TileType;
use crate::map::{GameMap, is_snapshot_of, lemma_idx_decompose};
use crate::map_builders::{BuilderMap, history_grows};
use crate::rng::roll_dice;

verus! {

/// Decorates a cave: gravel and shallow pools on the floor, deep pools and
/// stalactites or stalagmites among the walls.
pub struct CaveDecorator {}

/// How many of the cells west, east, north and south of wall `i` are walls, as the
/// decorator counts them: east only while the column is left of `w - 2`, south only while
/// the row is above `h - 2`.
pub open spec fn cave_wall_neighbours(t: Seq<TileType>, w: int, h: int, i: int) -> int {
    let x = i % w;
    let y = i / w;
    (if x > 0 && t[i - 1] == TileType::Wall { 1int } else { 0 })
        + (if x < w - 2 && t[i + 1] == TileType::Wall { 1int } else { 0 })
        + (if y > 0 && t[i - w] == TileType::Wall { 1int } else { 0 })
        + (if y < h - 2 && t[i + w] == TileType::Wall { 1int } else { 0 })
}

/// What a floor tile becomes for a d6 and a d10: gravel on a 1 of the d6, else shallow
/// water on a 1 of the d10, else floor.
pub open spec fn spec_floor_decoration(d6: int, d10: int) -> TileType {
    if d6 == 1 { TileType::Gravel } else if d10 == 1 { TileType::ShallowWater } else { TileType::Floor }
}

/// What a wall with one wall neighbour becomes for a d4: a stalactite on a 1, a stalagmite
/// on a 2, else it stays a wall.
pub open spec fn spec_lone_wall_decoration(roll: int) -> TileType {
    if roll == 1 { TileType::Stalactite } else if roll == 2 { TileType::Stalagmite } else { TileType::Wall }
}

/// What a floor tile becomes for a d6 and a d10 (see `spec_floor_decoration`).
pub fn floor_decoration(d6: i32, d10: i32) -> (t: TileType)
    ensures
        t == spec_floor_decoration(d6 as int, d10 as int),
{
    if d6 == 1 { TileType::Gravel } else if d10 == 1 { TileType::ShallowWater } else { TileType::Floor }
}

/// What a wall with one wall neighbour becomes for a d4 (see `spec_lone_wall_decoration`).
pub fn lone_wall_decoration(roll: i32) -> (t: TileType)
    ensures
        t == spec_lone_wall_decoration(roll as int),
{
    if roll == 1 { TileType::Stalactite } else if roll == 2 { TileType::Stalagmite } else { TileType::Wall }
}

/// What decorating may turn tile `i` into, given the tiles before decoration: the
/// decoration of some rolls on their dice.
pub open spec fn cave_outcome(old: Seq<TileType>, w: int, h: int, i: int, new: TileType) -> bool {
    if old[i] == TileType::Floor {
        exists|d6: int, d10: int| 1 <= d6 <= 6 && 1 <= d10 <= 10 && new == #[trigger] spec_floor_decoration(d6, d10)
    } else if old[i] == TileType::Wall {
        let n = cave_wall_neighbours(old, w, h, i);
        if n == 2 {
            new == TileType::DeepWater
        } else if n == 1 {
            exists|roll: int| 1 <= roll <= 4 && new == #[trigger] spec_lone_wall_decoration(roll)
        } else {
            new == TileType::Wall
        }
    } else {
        new == old[i]
    }
}

impl CaveDecorator {
    pub fn new() -> (b: Box<CaveDecorator>) {
        Box::new(CaveDecorator {})
    }

    /// Floor becomes gravel on a 1 in 6, else shallow water on a 1 in 10. A wall with two
    /// wall neighbours becomes deep water; with one, a stalactite or a stalagmite on a 1 in 4
    /// each. A snapshot is taken, then the map is marked as indoors.
    pub fn build(&mut self, rng: &mut RandomNumberGenerator, build_data: &mut BuilderMap)
        requires
            old(build_data).map.wf(),
        ensures
            final(build_data).map.wf(),
            final(build_data).same_plan(&*old(build_data)),
            final(build_data).map.tiles.len() == old(build_data).map.tiles.len(),
            forall|i: int| 0 <= i < old(build_data).map.tiles.len() ==> cave_outcome(
                old(build_data).map.tiles@, old(build_data).map.width as int, old(build_data).map.height as int, i,
                #[trigger] final(build_data).map.tiles@[i]),
            !final(build_data).map.outdoors,
            history_grows(final(build_data).history@, old(build_data).history@, 1),
            is_snapshot_of(final(build_data).history@.last(), GameMap { outdoors: old(build_data).map.outdoors, ..final(build_data).map }),
            final(build_data).map.width == old(build_data).map.width,
            final(build_data).map.height == old(build_data).map.height,
            final(build_data).map.revealed_tiles == old(build_data).map.revealed_tiles,
            final(build_data).map.visible_tiles == old(build_data).map.visible_tiles,
            final(build_data).map.blocked == old(build_data).map.blocked,
            final(build_data).map.depth == old(build_data).map.depth,
            final(build_data).map.view_blocked == old(build_data).map.view_blocked,
            final(build_data).map.name == old(build_data).map.name,
            final(build_data).map.tile_content == old(build_data).map.tile_content,
    {
        let old_tiles = crate::map::copy_tiles(&build_data.map.tiles);
        let ghost w = build_data.map.width as int;
        let ghost h = build_data.map.height as int;
        let width = build_data.map.width;
        let height = build_data.map.height;
        let wu = build_data.map.width as usize;
        let n = build_data.map.tiles.len();
        let mut index: usize = 0;
        while index < n
            invariant
                build_data.map.wf(),
                build_data.map.same_but_tiles(&old(build_data).map),
                build_data.same_plan(&*old(build_data)),
                build_data.history == old(build_data).history,
                old_tiles@ == old(build_data).map.tiles@,
                w == width == build_data.map.width,
                h == height == build_data.map.height,
                wu == w,
                n == build_data.map.tiles.len(),
                index <= n,
                forall|i: int| 0 <= i < index ==> cave_outcome(old_tiles@, w, h, i, #[trigger] build_data.map.tiles@[i]),
                forall|i: int| index <= i < n ==> #[trigger] build_data.map.tiles@[i] == old_tiles@[i],
            decreases n - index,
        {
            proof {
                assert(w > 0) by (nonlinear_arith)
                    requires index < n, n == w * h, 0 <= w, 0 <= h;
                lemma_idx_decompose(w, h, index as int);
                vstd::arithmetic::div_mod::lemma_fundamental_div_mod(index as int, w);
            }
            let tt = build_data.map.tiles[index];
            if tt == TileType::Floor {
                let d6 = roll_dice(rng, 1, 6);
                let d10 = if d6 == 1 { 1 } else { roll_dice(rng, 1, 10) };
                build_data.map.tiles.set(index, floor_decoration(d6, d10));
            } else if tt == TileType::Wall {
                let mut neighbors: i32 = 0;
                let x = index as i32 % width;
                let y = index as i32 / width;
                proof {
                    let xi = index as int % w;
                    let yi = index as int / w;
                    assert(xi < w - 2 ==> index + 1 < n) by (nonlinear_arith)
                        requires index == w * yi + xi, yi < h, n == w * h, 0 <= xi;
                    assert(yi < h - 2 ==> index + w < n) by (nonlinear_arith)
                        requires index == w * yi + xi, xi < w, n == w * h, 0 <= yi;
                    assert(yi > 0 ==> index >= w) by (nonlinear_arith)
                        requires index == w * yi + xi, 0 <= xi, 0 <= w;
                }
                if x > 0 && old_tiles[index - 1] == TileType::Wall { neighbors += 1; }
                if x < width - 2 && old_tiles[index + 1] == TileType::Wall { neighbors += 1; }
                if y > 0 && old_tiles[index - wu] == TileType::Wall { neighbors += 1; }
                if y < height - 2 && old_tiles[index + wu] == TileType::Wall { neighbors += 1; }
                assert(neighbors == cave_wall_neighbours(old_tiles@, w, h, index as int));
                if neighbors == 2 {
                    build_data.map.tiles.set(index, TileType::DeepWater);
                } else if neighbors == 1 {
                    let roll = roll_dice(rng, 1, 4);
                    build_data.map.tiles.set(index, lone_wall_decoration(roll));
                }
            }
            index = index + 1;
        }
        build_data.take_snapshot();
        build_data.map.outdoors = false;
    }
}

} // verus!
