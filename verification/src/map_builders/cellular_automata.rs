use vstd::prelude::*;
use rltk::RandomNumberGenerator;
use crate::tile::TileType;
use crate::map::{GameMap, idx, in_grid, lemma_idx_in_bounds, lemma_idx_injective, lemma_idx_decompose};
use crate::map_builders::{BuilderMap, history_grows};
use crate::rng::roll_dice;

verus! {

/// Builds caves: random noise smoothed by repeated cellular-automaton passes.
pub struct CellularAutomataBuilder {}

/// Whether `(x, y)` is an inner cell, not on the map's outer ring.
pub open spec fn is_interior(w: int, h: int, x: int, y: int) -> bool {
    1 <= x < w - 1 && 1 <= y < h - 1
}

pub open spec fn wall(t: TileType) -> int {
    if t == TileType::Wall { 1 } else { 0 }
}

/// How many of the eight cells around index `i` are walls.
pub open spec fn wall_neighbours(t: Seq<TileType>, w: int, i: int) -> int {
    wall(t[i - 1]) + wall(t[i + 1]) + wall(t[i - w]) + wall(t[i + w]) + wall(t[i - (w - 1)])
        + wall(t[i - (w + 1)]) + wall(t[i + (w - 1)]) + wall(t[i + (w + 1)])
}

/// One automaton pass: an inner cell becomes a wall when more than four of its neighbours
/// are walls or none is, and floor otherwise; the outer ring is kept.
pub open spec fn ca_step(t: Seq<TileType>, w: int, h: int) -> Seq<TileType> {
    Seq::new(
        t.len(),
        |i: int|
            if is_interior(w, h, i % w, i / w) {
                let n = wall_neighbours(t, w, i);
                if n > 4 || n == 0 { TileType::Wall } else { TileType::Floor }
            } else {
                t[i]
            },
    )
}

/// `k` automaton passes.
pub open spec fn ca_iterate(t: Seq<TileType>, w: int, h: int, k: nat) -> Seq<TileType>
    decreases k,
{
    if k == 0 { t } else { ca_step(ca_iterate(t, w, h, (k - 1) as nat), w, h) }
}

/// `new` keeps the outer ring of `old` and holds only floor or wall inside it.
pub open spec fn is_noise_fill(new: Seq<TileType>, old: Seq<TileType>, w: int, h: int) -> bool {
    &&& new.len() == old.len()
    &&& forall|x: int, y: int| #![trigger idx(w, x, y)]
        in_grid(w, h, x, y) ==> if is_interior(w, h, x, y) {
            new[idx(w, x, y)] == TileType::Floor || new[idx(w, x, y)] == TileType::Wall
        } else {
            new[idx(w, x, y)] == old[idx(w, x, y)]
        }
}

/// The noise tile for a d100 roll: floor above 55, wall otherwise.
pub fn noise_tile(roll: i32) -> (t: TileType)
    ensures
        t == (if roll > 55 { TileType::Floor } else { TileType::Wall }),
{
    if roll > 55 { TileType::Floor } else { TileType::Wall }
}

/// Fills every inner cell with the `noise_tile` of its own d100 roll.
fn randomize_interior(rng: &mut RandomNumberGenerator, map: &mut GameMap)
    requires
        old(map).wf(),
    ensures
        final(map).wf(),
        final(map).same_but_tiles(&*old(map)),
        is_noise_fill(final(map).tiles@, old(map).tiles@, old(map).width as int, old(map).height as int),
{
    let ghost w = map.width as int;
    let ghost h = map.height as int;
    let mut y: i32 = 1;
    while y < map.height - 1
        invariant
            map.wf(),
            map.same_but_tiles(&*old(map)),
            w == map.width,
            h == map.height,
            1 <= y,
            y <= h - 1 || h < 2,
            forall|a: int, b: int| #![trigger idx(w, a, b)]
                in_grid(w, h, a, b) ==> if is_interior(w, h, a, b) && b < y {
                    map.tiles@[idx(w, a, b)] == TileType::Floor || map.tiles@[idx(w, a, b)] == TileType::Wall
                } else {
                    map.tiles@[idx(w, a, b)] == old(map).tiles@[idx(w, a, b)]
                },
        decreases h - y,
    {
        let mut x: i32 = 1;
        while x < map.width - 1
            invariant
                map.wf(),
                map.same_but_tiles(&*old(map)),
                w == map.width,
                h == map.height,
                1 <= y < h - 1,
                1 <= x,
                x <= w - 1 || w < 2,
                forall|a: int, b: int| #![trigger idx(w, a, b)]
                    in_grid(w, h, a, b) ==> if is_interior(w, h, a, b) && (b < y || (b == y && a < x)) {
                        map.tiles@[idx(w, a, b)] == TileType::Floor || map.tiles@[idx(w, a, b)] == TileType::Wall
                    } else {
                        map.tiles@[idx(w, a, b)] == old(map).tiles@[idx(w, a, b)]
                    },
            decreases w - x,
        {
            let roll = roll_dice(rng, 1, 100);
            proof { lemma_idx_in_bounds(w, h, x as int, y as int); }
            let index = map.xy_index(x, y);
            let ghost before = map.tiles@;
            map.tiles.set(index, noise_tile(roll));
            proof {
                assert forall|a: int, b: int| #![trigger idx(w, a, b)] in_grid(w, h, a, b) && (a != x || b != y) implies
                    map.tiles@[idx(w, a, b)] == before[idx(w, a, b)] by {
                    lemma_idx_in_bounds(w, h, a, b);
                    if idx(w, a, b) == idx(w, x as int, y as int) {
                        lemma_idx_injective(w, a, b, x as int, y as int);
                    }
                }
            }
            x = x + 1;
        }
        y = y + 1;
    }
}

/// One automaton pass over the whole map.
fn smooth_once(map: &GameMap) -> (newtiles: Vec<TileType>)
    requires
        map.wf(),
    ensures
        newtiles@ == ca_step(map.tiles@, map.width as int, map.height as int),
{
    let ghost w = map.width as int;
    let ghost h = map.height as int;
    let mut newtiles = crate::map::copy_tiles(&map.tiles);
    let wu = map.width as usize;
    let mut y: i32 = 1;
    while y < map.height - 1
        invariant
            map.wf(),
            w == map.width,
            h == map.height,
            wu == w,
            newtiles.len() == map.tiles.len(),
            1 <= y,
            y <= h - 1 || h < 2,
            forall|a: int, b: int| #![trigger idx(w, a, b)]
                in_grid(w, h, a, b) ==> newtiles@[idx(w, a, b)] == if is_interior(w, h, a, b) && b < y {
                    ca_step(map.tiles@, w, h)[idx(w, a, b)]
                } else {
                    map.tiles@[idx(w, a, b)]
                },
        decreases h - y,
    {
        let mut x: i32 = 1;
        while x < map.width - 1
            invariant
                map.wf(),
                w == map.width,
                h == map.height,
                wu == w,
                newtiles.len() == map.tiles.len(),
                1 <= y < h - 1,
                1 <= x,
                x <= w - 1 || w < 2,
                forall|a: int, b: int| #![trigger idx(w, a, b)]
                    in_grid(w, h, a, b) ==> newtiles@[idx(w, a, b)] == if is_interior(w, h, a, b) && (b < y || (b == y && a < x)) {
                        ca_step(map.tiles@, w, h)[idx(w, a, b)]
                    } else {
                        map.tiles@[idx(w, a, b)]
                    },
            decreases w - x,
        {
            proof {
                lemma_idx_in_bounds(w, h, x as int, y as int);
                lemma_idx_in_bounds(w, h, x - 1, y - 1);
                lemma_idx_in_bounds(w, h, x + 1, y + 1);
                crate::map::lemma_idx_roundtrip(w, x as int, y as int);
                assert(idx(w, x - 1, y - 1) == idx(w, x as int, y as int) - (w + 1)) by (nonlinear_arith);
                assert(idx(w, x + 1, y + 1) == idx(w, x as int, y as int) + (w + 1)) by (nonlinear_arith);
            }
            let index = map.xy_index(x, y);
            let mut neighbors: i32 = 0;
            if map.tiles[index - 1] == TileType::Wall { neighbors += 1; }
            if map.tiles[index + 1] == TileType::Wall { neighbors += 1; }
            if map.tiles[index - wu] == TileType::Wall { neighbors += 1; }
            if map.tiles[index + wu] == TileType::Wall { neighbors += 1; }
            if map.tiles[index - (wu - 1)] == TileType::Wall { neighbors += 1; }
            if map.tiles[index - (wu + 1)] == TileType::Wall { neighbors += 1; }
            if map.tiles[index + (wu - 1)] == TileType::Wall { neighbors += 1; }
            if map.tiles[index + (wu + 1)] == TileType::Wall { neighbors += 1; }
            let ghost before = newtiles@;
            assert(neighbors == wall_neighbours(map.tiles@, w, index as int));
            if neighbors > 4 || neighbors == 0 {
                newtiles.set(index, TileType::Wall);
            } else {
                newtiles.set(index, TileType::Floor);
            }
            proof {
                assert forall|a: int, b: int| #![trigger idx(w, a, b)] in_grid(w, h, a, b) && (a != x || b != y) implies
                    newtiles@[idx(w, a, b)] == before[idx(w, a, b)] by {
                    lemma_idx_in_bounds(w, h, a, b);
                    if idx(w, a, b) == idx(w, x as int, y as int) {
                        lemma_idx_injective(w, a, b, x as int, y as int);
                    }
                }
            }
            x = x + 1;
        }
        y = y + 1;
    }
    proof {
        assert forall|i: int| 0 <= i < newtiles.len() implies newtiles@[i] == ca_step(map.tiles@, w, h)[i] by {
            assert(w > 0) by (nonlinear_arith)
                requires 0 <= i < w * h, 0 <= w, 0 <= h;
            lemma_idx_decompose(w, h, i);
        }
    }
    assert(newtiles@ =~= ca_step(map.tiles@, w, h));
    newtiles
}

impl CellularAutomataBuilder {
    pub fn new() -> (b: Box<CellularAutomataBuilder>) {
        Box::new(CellularAutomataBuilder {})
    }

    /// Fills the inside of the map with random floor (45%) and wall, then smooths it with
    /// fifteen automaton passes. The random fill and each pass are recorded in the history.
    pub fn build(&mut self, rng: &mut RandomNumberGenerator, build_data: &mut BuilderMap)
        requires
            old(build_data).map.wf(),
        ensures
            final(build_data).map.wf(),
            final(build_data).map.same_but_tiles(&old(build_data).map),
            final(build_data).same_plan(&*old(build_data)),
            history_grows(final(build_data).history@, old(build_data).history@, 16),
            ({
                let w = old(build_data).map.width as int;
                let h = old(build_data).map.height as int;
                let start = old(build_data).history.len() as int;
                let noise = final(build_data).history@[start].tiles@;
                &&& is_noise_fill(noise, old(build_data).map.tiles@, w, h)
                &&& forall|k: int| 0 <= k <= 15 ==> (#[trigger] final(build_data).history@[start + k]).tiles@
                    == ca_iterate(noise, w, h, k as nat)
                &&& final(build_data).map.tiles@ == ca_iterate(noise, w, h, 15)
            }),
    {
        let ghost w = build_data.map.width as int;
        let ghost h = build_data.map.height as int;
        let ghost start = build_data.history.len() as int;
        randomize_interior(rng, &mut build_data.map);
        build_data.take_snapshot();
        let ghost noise = build_data.map.tiles@;
        let mut i: i32 = 0;
        while i < 15
            invariant
                0 <= i <= 15,
                start == old(build_data).history.len(),
                build_data.map.wf(),
                build_data.map.same_but_tiles(&old(build_data).map),
                build_data.same_plan(&*old(build_data)),
                w == build_data.map.width,
                h == build_data.map.height,
                history_grows(build_data.history@, old(build_data).history@, i + 1),
                build_data.history@[start].tiles@ == noise,
                is_noise_fill(noise, old(build_data).map.tiles@, w, h),
                build_data.map.tiles@ == ca_iterate(noise, w, h, i as nat),
                forall|k: int| 0 <= k <= i ==> (#[trigger] build_data.history@[start + k]).tiles@
                    == ca_iterate(noise, w, h, k as nat),
            decreases 15 - i,
        {
            let newtiles = smooth_once(&build_data.map);
            build_data.map.tiles = newtiles;
            let ghost before = build_data.history@;
            build_data.take_snapshot();
            proof {
                assert forall|k: int| 0 <= k <= i + 1 implies (#[trigger] build_data.history@[start + k]).tiles@
                    == ca_iterate(noise, w, h, k as nat) by {
                    if k <= i {
                        assert(build_data.history@[start + k] == before[start + k]);
                    }
                }
            }
            i = i + 1;
        }
    }
}

} // verus!
