use vstd::prelude::*;
use rltk::RandomNumberGenerator;
use crate::tile::{TileType, tile_walkable, spec_tile_walkable};
use crate::map::{idx, in_grid, is_snapshot_of, lemma_idx_in_bounds, lemma_idx_decompose};
use crate::map_builders::{BuilderMap, history_grows};
use crate::rng::roll_dice;

verus! {

/// Lays a road from the start to an exit on the east side, and a stream from the
/// stairs to a corner.
pub struct YellowBrickRoad {}

/// The squared distance from tile `i` of a map `w` wide to `(sx, sy)`.
pub open spec fn sq_dist(i: int, w: int, sx: int, sy: int) -> int {
    let dx = i % w - sx;
    let dy = i / w - sy;
    dx * dx + dy * dy
}

/// Among the first `k` tiles, the walkable one nearest to `(sx, sy)`; the first of
/// those at the least distance.
pub open spec fn nearest_walkable(t: Seq<TileType>, w: int, sx: int, sy: int, k: int) -> Option<int>
    decreases k,
{
    if k <= 0 {
        None
    } else {
        let prev = nearest_walkable(t, w, sx, sy, k - 1);
        let i = k - 1;
        if spec_tile_walkable(t[i]) && (prev is None || sq_dist(i, w, sx, sy) < sq_dist(prev->0, w, sx, sy)) {
            Some(i)
        } else {
            prev
        }
    }
}

proof fn lemma_nearest_found(t: Seq<TileType>, w: int, sx: int, sy: int, k: int)
    requires
        0 <= k <= t.len(),
    ensures
        nearest_walkable(t, w, sx, sy, k) matches Some(i) ==> 0 <= i < k && spec_tile_walkable(t[i]),
        (exists|j: int| 0 <= j < k && spec_tile_walkable(#[trigger] t[j])) ==> nearest_walkable(t, w, sx, sy, k) is Some,
    decreases k,
{
    if k > 0 {
        lemma_nearest_found(t, w, sx, sy, k - 1);
        if exists|j: int| 0 <= j < k && spec_tile_walkable(#[trigger] t[j]) {
            let j = choose|j: int| 0 <= j < k && spec_tile_walkable(#[trigger] t[j]);
            if j < k - 1 {
                assert(exists|j: int| 0 <= j < k - 1 && spec_tile_walkable(#[trigger] t[j]));
            }
        }
    }
}

/// The tiles after painting road on `(x, y)`: only inside the map's outer ring, and never
/// over the down stairs.
pub open spec fn road_paint(t: Seq<TileType>, w: int, h: int, x: int, y: int) -> Seq<TileType> {
    if x < 1 || x > w - 2 || y < 1 || y > h - 2 {
        t
    } else if t[idx(w, x, y)] == TileType::DownStairs {
        t
    } else {
        t.update(idx(w, x, y), TileType::Road)
    }
}

/// Road painted on a cell and its four neighbours.
pub open spec fn road_cross(t: Seq<TileType>, w: int, h: int, x: int, y: int) -> Seq<TileType> {
    road_paint(road_paint(road_paint(road_paint(road_paint(t, w, h, x, y), w, h, x - 1, y), w, h, x + 1, y), w, h, x, y - 1), w, h, x, y + 1)
}

/// Road painted along the first `k` steps of a path.
pub open spec fn road_along(t: Seq<TileType>, w: int, h: int, path: Seq<usize>, k: int) -> Seq<TileType>
    decreases k,
{
    if k <= 0 {
        t
    } else {
        let i = path[k - 1] as int;
        road_cross(road_along(t, w, h, path, k - 1), w, h, i % w, i / w)
    }
}

/// Floor turned to shallow water along the first `k` steps of a stream.
pub open spec fn stream_along(t: Seq<TileType>, stream: Seq<usize>, k: int) -> Seq<TileType>
    decreases k,
{
    if k <= 0 {
        t
    } else {
        let prev = stream_along(t, stream, k - 1);
        let i = stream[k - 1] as int;
        if prev[i] == TileType::Floor { prev.update(i, TileType::ShallowWater) } else { prev }
    }
}

/// Whether some tile can be walked on.
pub open spec fn has_walkable(t: Seq<TileType>) -> bool {
    exists|j: int| 0 <= j < t.len() && spec_tile_walkable(#[trigger] t[j])
}

/// The tiles of a path all lie on a map of `n` tiles.
pub open spec fn path_on_map(path: Seq<usize>, n: int) -> bool {
    forall|k: int| 0 <= k < path.len() ==> #[trigger] path[k] < n
}

/// The corners a coin toss `exit_dir` picks, as (stairs x, stairs y, stream x, stream y) on
/// a `w` by `h` map whose builder height is `bh`: on a 1 the north-east corner, with the
/// stream ending at the south-west corner; otherwise the south-east corner, with the
/// stream ending one cell in from the south-west corner.
pub fn exit_corners(exit_dir: i32, w: i32, h: i32, bh: i32) -> (r: (i32, i32, i32, i32))
    requires
        w > i32::MIN,
        h > i32::MIN,
        bh > i32::MIN,
    ensures
        exit_dir == 1 ==> r.0 == w - 1 && r.1 == 1 && r.2 == 0 && r.3 == h - 1,
        exit_dir != 1 ==> r.0 == w - 1 && r.1 == h - 1 && r.2 == 1 && r.3 == bh - 1,
{
    if exit_dir == 1 { (w - 1, 1, 0, h - 1) } else { (w - 1, h - 1, 1, bh - 1) }
}

impl YellowBrickRoad {
    pub fn new() -> (b: Box<YellowBrickRoad>) {
        Box::new(YellowBrickRoad {})
    }

    /// The walkable tile nearest to `(seed_x, seed_y)`, as a column and row.
    pub fn find_exit(&self, build_data: &BuilderMap, seed_x: i32, seed_y: i32) -> (r: (i32, i32))
        requires
            build_data.map.wf(),
            has_walkable(build_data.map.tiles@),
        ensures
            ({
                let m = build_data.map;
                let w = m.width as int;
                let best = nearest_walkable(m.tiles@, w, seed_x as int, seed_y as int, m.tiles.len() as int)->0;
                &&& nearest_walkable(m.tiles@, w, seed_x as int, seed_y as int, m.tiles.len() as int) is Some
                &&& r.0 == best % w
                &&& r.1 == best / w
                &&& in_grid(w, m.height as int, r.0 as int, r.1 as int)
                &&& spec_tile_walkable(m.tiles@[idx(w, r.0 as int, r.1 as int)])
            }),
    {
        let ghost m = build_data.map;
        let ghost w = m.width as int;
        let ghost h = m.height as int;
        let n = build_data.map.tiles.len();
        let width = build_data.map.width;
        proof {
            let j = choose|j: int| 0 <= j < m.tiles.len() && spec_tile_walkable(#[trigger] m.tiles@[j]);
            assert(w > 0) by (nonlinear_arith) requires 0 <= j < w * h, 0 <= w, 0 <= h;
            lemma_nearest_found(m.tiles@, w, seed_x as int, seed_y as int, n as int);
        }
        let mut best: usize = 0;
        let mut best_dist: i128 = 0;
        let mut found = false;
        let mut i: usize = 0;
        while i < n
            invariant
                m == build_data.map,
                m.wf(),
                w == m.width == width,
                h == m.height,
                w > 0,
                n == m.tiles.len(),
                i <= n,
                found == nearest_walkable(m.tiles@, w, seed_x as int, seed_y as int, i as int) is Some,
                found ==> best == nearest_walkable(m.tiles@, w, seed_x as int, seed_y as int, i as int)->0,
                found ==> best_dist == sq_dist(best as int, w, seed_x as int, seed_y as int),
            decreases n - i,
        {
            if tile_walkable(build_data.map.tiles[i]) {
                let x = i as i32 % width;
                let y = i as i32 / width;
                let dx: i128 = x as i128 - seed_x as i128;
                let dy: i128 = y as i128 - seed_y as i128;
                proof {
                    assert(dx * dx <= 0x1_0000_0000_0000_0000) by (nonlinear_arith)
                        requires -0x1_0000_0000 <= dx <= 0x1_0000_0000;
                    assert(dy * dy <= 0x1_0000_0000_0000_0000) by (nonlinear_arith)
                        requires -0x1_0000_0000 <= dy <= 0x1_0000_0000;
                    assert(dx * dx >= 0 && dy * dy >= 0) by (nonlinear_arith);
                }
                let d = dx * dx + dy * dy;
                assert(d == sq_dist(i as int, w, seed_x as int, seed_y as int));
                if !found || d < best_dist {
                    best = i;
                    best_dist = d;
                    found = true;
                }
            }
            i = i + 1;
        }
        proof {
            lemma_idx_decompose(w, h, best as int);
        }
        let end_x = best as i32 % width;
        let end_y = best as i32 / width;
        (end_x, end_y)
    }

    /// Paints road on `(x, y)` unless it is on the outer ring or holds the down stairs.
    fn paint_road(&self, build_data: &mut BuilderMap, x: i32, y: i32)
        requires
            old(build_data).map.wf(),
        ensures
            final(build_data).map.wf(),
            final(build_data).map.same_but_tiles(&old(build_data).map),
            final(build_data).same_plan(&*old(build_data)),
            final(build_data).history == old(build_data).history,
            final(build_data).map.tiles@ == road_paint(old(build_data).map.tiles@,
                old(build_data).map.width as int, old(build_data).map.height as int, x as int, y as int),
    {
        if x < 1 || x > build_data.map.width - 2 || y < 1 || y > build_data.map.height - 2 {
            return;
        }
        proof { lemma_idx_in_bounds(build_data.map.width as int, build_data.map.height as int, x as int, y as int); }
        let index = build_data.map.xy_index(x, y);
        if build_data.map.tiles[index] != TileType::DownStairs {
            build_data.map.tiles.set(index, TileType::Road);
        }
    }

    /// Finds the road's ends: the start, and the walkable tile nearest to the middle of the
    /// east side, which becomes the down stairs. Marks the blocked tiles for the path search
    /// and returns the start and end indices.
    pub fn lay_out_road(&mut self, build_data: &mut BuilderMap) -> (ends: (usize, usize))
        requires
            old(build_data).map.wf(),
            old(build_data).starting_position is Some,
            in_grid(old(build_data).map.width as int, old(build_data).map.height as int,
                old(build_data).starting_position->0.x as int, old(build_data).starting_position->0.y as int),
            has_walkable(old(build_data).map.tiles@),
        ensures
            final(build_data).map.wf(),
            final(build_data).map.same_shape(&old(build_data).map),
            final(build_data).same_plan(&*old(build_data)),
            final(build_data).history == old(build_data).history,
            ({
                let m = old(build_data).map;
                let w = m.width as int;
                let start = old(build_data).starting_position->0;
                let end = nearest_walkable(m.tiles@, w, w - 2, m.height / 2, m.tiles.len() as int)->0;
                &&& ends.0 == idx(w, start.x as int, start.y as int)
                &&& ends.1 == end
                &&& ends.1 < m.tiles.len()
                &&& final(build_data).map.tiles@ == m.tiles@.update(end, TileType::DownStairs)
                &&& final(build_data).map.blocked@ == final(build_data).map.tiles@.map_values(|t: TileType| !spec_tile_walkable(t))
            }),
    {
        let ghost w = build_data.map.width as int;
        let ghost h = build_data.map.height as int;
        let start = match build_data.starting_position {
            Some(p) => p,
            None => crate::components::Position { x: 0, y: 0 },
        };
        proof { lemma_idx_in_bounds(w, h, start.x as int, start.y as int); }
        let start_index = build_data.map.xy_index(start.x, start.y);
        let (end_x, end_y) = self.find_exit(build_data, build_data.map.width - 2, build_data.map.height / 2);
        proof {
            let best = nearest_walkable(build_data.map.tiles@, w, w - 2, h / 2, build_data.map.tiles.len() as int)->0;
            lemma_nearest_found(build_data.map.tiles@, w, w - 2, h / 2, build_data.map.tiles.len() as int);
            lemma_idx_decompose(w, h, best);
            lemma_idx_in_bounds(w, h, end_x as int, end_y as int);
        }
        let end_index = build_data.map.xy_index(end_x, end_y);
        build_data.map.tiles.set(end_index, TileType::DownStairs);
        build_data.map.populate_blocked();
        (start_index, end_index)
    }

    /// Paints road along a path (a list of tile indices) and the cells beside it.
    pub fn paint_road_along(&mut self, build_data: &mut BuilderMap, path: &Vec<usize>)
        requires
            old(build_data).map.wf(),
            path_on_map(path@, old(build_data).map.tiles.len() as int),
        ensures
            final(build_data).map.wf(),
            final(build_data).map.same_but_tiles(&old(build_data).map),
            final(build_data).same_plan(&*old(build_data)),
            final(build_data).history == old(build_data).history,
            final(build_data).map.tiles@ == road_along(old(build_data).map.tiles@,
                old(build_data).map.width as int, old(build_data).map.height as int, path@, path.len() as int),
    {
        let ghost w = build_data.map.width as int;
        let ghost h = build_data.map.height as int;
        let width = build_data.map.width;
        let mut k: usize = 0;
        while k < path.len()
            invariant
                *self == *old(self),
                build_data.map.wf(),
                build_data.map.same_but_tiles(&old(build_data).map),
                build_data.same_plan(&*old(build_data)),
                build_data.history == old(build_data).history,
                w == build_data.map.width == width,
                h == build_data.map.height,
                path_on_map(path@, build_data.map.tiles.len() as int),
                k <= path.len(),
                build_data.map.tiles@ == road_along(old(build_data).map.tiles@, w, h, path@, k as int),
            decreases path.len() - k,
        {
            let index = path[k];
            proof {
                assert(index < build_data.map.tiles.len());
                assert(w > 0) by (nonlinear_arith) requires index < w * h, 0 <= w, 0 <= h;
                lemma_idx_decompose(w, h, index as int);
            }
            let x = index as i32 % width;
            let y = index as i32 / width;
            self.paint_road(build_data, x, y);
            self.paint_road(build_data, x - 1, y);
            self.paint_road(build_data, x + 1, y);
            self.paint_road(build_data, x, y - 1);
            self.paint_road(build_data, x, y + 1);
            k = k + 1;
        }
    }

    /// Picks where the stairs and the stream's far end go: a coin toss chooses the
    /// north-east corner, with the stream ending at the south-west corner, or the
    /// south-east corner, with the stream ending one cell in from the south-west corner.
    /// Each is the walkable tile nearest its corner. Takes a snapshot in between and
    /// returns the stairs and stream-end indices.
    pub fn pick_stairs_and_stream(&mut self, rng: &mut RandomNumberGenerator, build_data: &mut BuilderMap) -> (r: (usize, usize))
        requires
            old(build_data).map.wf(),
            old(build_data).height > i32::MIN,
            has_walkable(old(build_data).map.tiles@),
        ensures
            final(build_data).map == old(build_data).map,
            final(build_data).same_plan(&*old(build_data)),
            history_grows(final(build_data).history@, old(build_data).history@, 1),
            is_snapshot_of(final(build_data).history@.last(), old(build_data).map),
            ({
                let m = old(build_data).map;
                let w = m.width as int;
                let h = m.height as int;
                let t = m.tiles@;
                let n = t.len() as int;
                ||| (r.0 == nearest_walkable(t, w, w - 1, 1, n)->0
                    && r.1 == nearest_walkable(t, w, 0, h - 1, n)->0)
                ||| (r.0 == nearest_walkable(t, w, w - 1, h - 1, n)->0
                    && r.1 == nearest_walkable(t, w, 1, old(build_data).height - 1, n)->0)
            }),
            r.0 < old(build_data).map.tiles.len(),
            r.1 < old(build_data).map.tiles.len(),
    {
        let ghost w = build_data.map.width as int;
        let ghost h = build_data.map.height as int;
        let ghost t = build_data.map.tiles@;
        let ghost n = t.len() as int;
        let exit_dir = roll_dice(rng, 1, 2);
        let (seed_x, seed_y, stream_start_x, stream_start_y) = exit_corners(
            exit_dir,
            build_data.map.width,
            build_data.map.height,
            build_data.height,
        );
        let (stairs_x, stairs_y) = self.find_exit(build_data, seed_x, seed_y);
        proof {
            let best = nearest_walkable(t, w, seed_x as int, seed_y as int, n)->0;
            lemma_nearest_found(t, w, seed_x as int, seed_y as int, n);
            lemma_idx_decompose(w, h, best);
            lemma_idx_in_bounds(w, h, stairs_x as int, stairs_y as int);
        }
        let stairs_index = build_data.map.xy_index(stairs_x, stairs_y);
        build_data.take_snapshot();
        let (stream_x, stream_y) = self.find_exit(build_data, stream_start_x, stream_start_y);
        proof {
            let best = nearest_walkable(t, w, stream_start_x as int, stream_start_y as int, n)->0;
            lemma_nearest_found(t, w, stream_start_x as int, stream_start_y as int, n);
            lemma_idx_decompose(w, h, best);
            lemma_idx_in_bounds(w, h, stream_x as int, stream_y as int);
        }
        let stream_index = build_data.map.xy_index(stream_x, stream_y);
        (stairs_index, stream_index)
    }

    /// Turns the floor along a stream path into shallow water, puts the down stairs at
    /// `stairs_index` and takes a snapshot.
    pub fn pour_stream(&mut self, build_data: &mut BuilderMap, stream: &Vec<usize>, stairs_index: usize)
        requires
            old(build_data).map.wf(),
            path_on_map(stream@, old(build_data).map.tiles.len() as int),
            stairs_index < old(build_data).map.tiles.len(),
        ensures
            final(build_data).map.wf(),
            final(build_data).map.same_but_tiles(&old(build_data).map),
            final(build_data).same_plan(&*old(build_data)),
            final(build_data).map.tiles@ == stream_along(old(build_data).map.tiles@, stream@, stream.len() as int)
                .update(stairs_index as int, TileType::DownStairs),
            history_grows(final(build_data).history@, old(build_data).history@, 1),
            is_snapshot_of(final(build_data).history@.last(), final(build_data).map),
    {
        let mut k: usize = 0;
        while k < stream.len()
            invariant
                build_data.map.wf(),
                build_data.map.same_but_tiles(&old(build_data).map),
                build_data.same_plan(&*old(build_data)),
                build_data.history == old(build_data).history,
                path_on_map(stream@, build_data.map.tiles.len() as int),
                k <= stream.len(),
                build_data.map.tiles@ == stream_along(old(build_data).map.tiles@, stream@, k as int),
            decreases stream.len() - k,
        {
            let tile = stream[k];
            assert(tile < build_data.map.tiles.len());
            if build_data.map.tiles[tile] == TileType::Floor {
                build_data.map.tiles.set(tile, TileType::ShallowWater);
            }
            k = k + 1;
        }
        build_data.map.tiles.set(stairs_index, TileType::DownStairs);
        build_data.take_snapshot();
    }
}

} // verus!
