use vstd::prelude::*;
use rltk::RandomNumberGenerator;
use crate::tile::TileType;
use crate::components::Position;
use crate::map::{GameMap, idx, is_snapshot_of, lemma_idx_in_bounds};
use crate::map_builders::{BuilderMap, history_grows};
use crate::map_builders::common::{Symmetry, paint, paint_covers, carved};
use crate::rng::{roll_dice, line_bresenham, bresenham_line};

verus! {

/// How diffusion-limited aggregation grows the cave.
#[derive(PartialEq, Eq, Structural, Copy, Clone)]
pub enum DLAAlgorithm {
    WalkInwards,
    WalkOutwards,
    CentralAttractor,
}

/// Grows a cave by letting random walkers stick to the carved floor.
pub struct DLABuilder {
    pub algorithm: DLAAlgorithm,
    pub brush_size: i32,
    pub symmetry: Symmetry,
    /// The share of the map, in percent, to carve into floor.
    pub floor_percent: u32,
}

/// A walker's current cell and the cell it stood on before its last step.
pub struct Walker {
    pub x: i32,
    pub y: i32,
    pub prev_x: i32,
    pub prev_y: i32,
}

/// The number of floor tiles.
pub open spec fn count_floor(t: Seq<TileType>) -> int
    decreases t.len(),
{
    if t.len() == 0 {
        0
    } else {
        count_floor(t.drop_last()) + if t.last() == TileType::Floor { 1int } else { 0 }
    }
}

/// A map the walkers can roam: at least 4 by 4, and small enough that brush strokes
/// near its edges stay within `i32`.
pub open spec fn dla_map_ok(m: GameMap) -> bool {
    &&& m.wf()
    &&& m.width >= 4
    &&& m.height >= 4
}

/// One step of a walker: west, east, north or south on a d4 roll of 1 to 4, never leaving
/// the cells two or more in from the map's edge (counting from the left and top).
pub open spec fn stagger(x: int, y: int, roll: int, w: int, h: int) -> (int, int) {
    if roll == 1 {
        if x > 2 { (x - 1, y) } else { (x, y) }
    } else if roll == 2 {
        if x < w - 2 { (x + 1, y) } else { (x, y) }
    } else if roll == 3 {
        if y > 2 { (x, y - 1) } else { (x, y) }
    } else {
        if y < h - 2 { (x, y + 1) } else { (x, y) }
    }
}

/// Where a walker at `(x, y)` goes on a d4 `roll` (see `stagger`).
pub fn stagger_from_roll(x: i32, y: i32, roll: i32, w: i32, h: i32) -> (p: (i32, i32))
    requires
        w >= 2,
        h >= 2,
    ensures
        p.0 as int == stagger(x as int, y as int, roll as int, w as int, h as int).0,
        p.1 as int == stagger(x as int, y as int, roll as int, w as int, h as int).1,
{
    if roll == 1 {
        if x > 2 { (x - 1, y) } else { (x, y) }
    } else if roll == 2 {
        if x < w - 2 { (x + 1, y) } else { (x, y) }
    } else if roll == 3 {
        if y > 2 { (x, y - 1) } else { (x, y) }
    } else {
        if y < h - 2 { (x, y + 1) } else { (x, y) }
    }
}

/// Whether a walker stands on a cell from which it can paint.
pub open spec fn walker_on_map(wk: Walker, w: int, h: int) -> bool {
    &&& 1 <= wk.x < w - 1
    &&& 1 <= wk.y < h - 1
    &&& 1 <= wk.prev_x < w - 1
    &&& 1 <= wk.prev_y < h - 1
}

proof fn lemma_dla_dims(m: GameMap)
    requires
        dla_map_ok(m),
    ensures
        m.width <= i32::MAX / 4,
        m.height <= i32::MAX / 4,
{
    let w = m.width as int;
    let h = m.height as int;
    assert(w * 4 <= w * h) by (nonlinear_arith) requires h >= 4, w >= 0;
    assert(h * 4 <= w * h) by (nonlinear_arith) requires w >= 4, h >= 0;
}

/// The tiles after one paint stroke with the given mirroring and brush at `(px, py)`.
pub open spec fn painted_at(m: GameMap, tiles: Seq<TileType>, mode: Symmetry, brush: int, px: int, py: int) -> bool {
    carved(m.tiles@, tiles, m.width as int, m.height as int,
        |a: int, b: int| paint_covers(m.width as int, m.height as int, mode, brush, px, py, a, b))
}

/// Whether `(x, y)` is inside the map's outer ring.
pub open spec fn inner_cell(m: GameMap, x: int, y: int) -> bool {
    1 <= x < m.width - 1 && 1 <= y < m.height - 1
}

/// Where a central-attractor walk paints: the digger at `(dx, dy)`, last in `(px, py)`,
/// moves on along `rest` while it stands on wall inside the map's outer ring; the cell it
/// was in before the first one that fails is the answer.
pub open spec fn attractor_stop(m: GameMap, dx: int, dy: int, px: int, py: int, rest: Seq<(i32, i32)>) -> (int, int)
    decreases rest.len(),
{
    if !inner_cell(m, dx, dy) || rest.len() == 0 {
        (px, py)
    } else if m.tiles@[idx(m.width as int, dx, dy)] != TileType::Wall {
        (px, py)
    } else {
        attractor_stop(m, rest[0].0 as int, rest[0].1 as int, dx, dy, rest.drop_first())
    }
}

/// The cell painted by a central-attractor walk starting at `(sx, sy)` toward `(cx, cy)`,
/// following the Bresenham line between them.
pub open spec fn attractor_target(m: GameMap, sx: int, sy: int, cx: int, cy: int) -> (int, int) {
    attractor_stop(m, sx, sy, sx, sy, bresenham_line(sx as i32, sy as i32, cx as i32, cy as i32))
}

impl DLABuilder {
    /// The builder's settings are in range.
    pub open spec fn settings_ok(&self) -> bool {
        &&& 0 <= self.brush_size <= 0x10000
        &&& self.floor_percent <= 100
    }

    pub fn new() -> (b: DLABuilder)
        ensures
            b.settings_ok(),
            b == (DLABuilder { algorithm: DLAAlgorithm::WalkInwards, brush_size: 2, symmetry: Symmetry::NoSymmetry, floor_percent: 25 }),
    {
        DLABuilder { algorithm: DLAAlgorithm::WalkInwards, brush_size: 2, symmetry: Symmetry::NoSymmetry, floor_percent: 25 }
    }

    pub fn walk_inwards() -> (b: Box<DLABuilder>)
        ensures
            b.settings_ok(),
            *b == (DLABuilder { algorithm: DLAAlgorithm::WalkInwards, brush_size: 1, symmetry: Symmetry::NoSymmetry, floor_percent: 25 }),
    {
        Box::new(DLABuilder { algorithm: DLAAlgorithm::WalkInwards, brush_size: 1, symmetry: Symmetry::NoSymmetry, floor_percent: 25 })
    }

    pub fn walk_outwards() -> (b: Box<DLABuilder>)
        ensures
            b.settings_ok(),
            *b == (DLABuilder { algorithm: DLAAlgorithm::WalkOutwards, brush_size: 2, symmetry: Symmetry::NoSymmetry, floor_percent: 25 }),
    {
        Box::new(DLABuilder { algorithm: DLAAlgorithm::WalkOutwards, brush_size: 2, symmetry: Symmetry::NoSymmetry, floor_percent: 25 })
    }

    pub fn central_attractor() -> (b: Box<DLABuilder>)
        ensures
            b.settings_ok(),
            *b == (DLABuilder { algorithm: DLAAlgorithm::CentralAttractor, brush_size: 2, symmetry: Symmetry::NoSymmetry, floor_percent: 25 }),
    {
        Box::new(DLABuilder { algorithm: DLAAlgorithm::CentralAttractor, brush_size: 2, symmetry: Symmetry::NoSymmetry, floor_percent: 25 })
    }

    pub fn insectoid() -> (b: Box<DLABuilder>)
        ensures
            b.settings_ok(),
            *b == (DLABuilder { algorithm: DLAAlgorithm::CentralAttractor, brush_size: 2, symmetry: Symmetry::Horizontal, floor_percent: 25 }),
    {
        Box::new(DLABuilder { algorithm: DLAAlgorithm::CentralAttractor, brush_size: 2, symmetry: Symmetry::Horizontal, floor_percent: 25 })
    }

    pub fn heavy_erosion() -> (b: Box<DLABuilder>)
        ensures
            b.settings_ok(),
            *b == (DLABuilder { algorithm: DLAAlgorithm::WalkInwards, brush_size: 2, symmetry: Symmetry::NoSymmetry, floor_percent: 35 }),
    {
        Box::new(DLABuilder { algorithm: DLAAlgorithm::WalkInwards, brush_size: 2, symmetry: Symmetry::NoSymmetry, floor_percent: 35 })
    }

    /// Records a snapshot, then carves the seed: the map's center cell and its four
    /// neighbours. Returns the center.
    pub fn seed(&self, build_data: &mut BuilderMap) -> (start: Position)
        requires
            dla_map_ok(old(build_data).map),
        ensures
            final(build_data).map.wf(),
            final(build_data).map.same_but_tiles(&old(build_data).map),
            final(build_data).same_plan(&*old(build_data)),
            history_grows(final(build_data).history@, old(build_data).history@, 1),
            is_snapshot_of(final(build_data).history@.last(), old(build_data).map),
            start == (Position { x: (old(build_data).map.width / 2) as i32, y: (old(build_data).map.height / 2) as i32 }),
            ({
                let w = old(build_data).map.width as int;
                let h = old(build_data).map.height as int;
                let c = idx(w, w / 2, h / 2);
                final(build_data).map.tiles@ == old(build_data).map.tiles@
                    .update(c, TileType::Floor).update(c - 1, TileType::Floor).update(c + 1, TileType::Floor)
                    .update(c - w, TileType::Floor).update(c + w, TileType::Floor)
            }),
    {
        let ghost w = build_data.map.width as int;
        let ghost h = build_data.map.height as int;
        let starting_position = Position { x: build_data.map.width / 2, y: build_data.map.height / 2 };
        proof {
            lemma_idx_in_bounds(w, h, w / 2, h / 2);
            lemma_idx_in_bounds(w, h, w / 2, h / 2 + 1);
            lemma_idx_in_bounds(w, h, w / 2, h / 2 - 1);
            assert(idx(w, w / 2, h / 2 + 1) == idx(w, w / 2, h / 2) + w) by (nonlinear_arith);
            assert(idx(w, w / 2, h / 2 - 1) == idx(w, w / 2, h / 2) - w) by (nonlinear_arith);
        }
        let start_index = build_data.map.xy_index(starting_position.x, starting_position.y);
        build_data.take_snapshot();
        let wu = build_data.map.width as usize;
        build_data.map.tiles.set(start_index, TileType::Floor);
        build_data.map.tiles.set(start_index - 1, TileType::Floor);
        build_data.map.tiles.set(start_index + 1, TileType::Floor);
        build_data.map.tiles.set(start_index - wu, TileType::Floor);
        build_data.map.tiles.set(start_index + wu, TileType::Floor);
        starting_position
    }

    /// How many floor tiles to carve: `floor_percent` percent of the map, rounded down.
    pub fn desired_floor_tiles(&self, build_data: &BuilderMap) -> (n: usize)
        requires
            self.settings_ok(),
            build_data.map.wf(),
        ensures
            n == (build_data.map.width * build_data.map.height) * self.floor_percent / 100,
    {
        let total = build_data.map.width as u64 * build_data.map.height as u64;
        proof {
            assert(total * self.floor_percent <= total * 100) by (nonlinear_arith)
                requires self.floor_percent <= 100, total >= 0;
        }
        let n = total * self.floor_percent as u64 / 100;
        n as usize
    }

    /// Where a walker starts: a random cell two or more in from the edges for the inward
    /// walk and the central attractor, the seed for the outward walk.
    pub fn start_walker(&self, rng: &mut RandomNumberGenerator, build_data: &BuilderMap, start: Position) -> (wk: Walker)
        requires
            dla_map_ok(build_data.map),
            start == (Position { x: (build_data.map.width / 2) as i32, y: (build_data.map.height / 2) as i32 }),
        ensures
            walker_on_map(wk, build_data.map.width as int, build_data.map.height as int),
            wk.x == wk.prev_x && wk.y == wk.prev_y,
            self.algorithm == DLAAlgorithm::WalkOutwards ==> wk.x == start.x && wk.y == start.y,
            self.algorithm != DLAAlgorithm::WalkOutwards ==> 2 <= wk.x <= build_data.map.width - 2
                && 2 <= wk.y <= build_data.map.height - 2,
    {
        proof { lemma_dla_dims(build_data.map); }
        match self.algorithm {
            DLAAlgorithm::WalkOutwards => Walker { x: start.x, y: start.y, prev_x: start.x, prev_y: start.y },
            _ => {
                let x = roll_dice(rng, 1, build_data.map.width - 3) + 1;
                let y = roll_dice(rng, 1, build_data.map.height - 3) + 1;
                Walker { x, y, prev_x: x, prev_y: y }
            },
        }
    }

    /// One step of a random walk: while walking inwards through wall, or outwards through
    /// floor, the walker remembers its cell and staggers one cell on a d4 roll; the result
    /// says whether it stepped. A walker that stops paints where it should (see `finish_walker`).
    pub fn walker_step(&self, rng: &mut RandomNumberGenerator, build_data: &BuilderMap, wk: &mut Walker) -> (stepped: bool)
        requires
            dla_map_ok(build_data.map),
            walker_on_map(*old(wk), build_data.map.width as int, build_data.map.height as int),
        ensures
            walker_on_map(*final(wk), build_data.map.width as int, build_data.map.height as int),
            ({
                let m = build_data.map;
                let here = m.tiles@[idx(m.width as int, old(wk).x as int, old(wk).y as int)];
                let walking = match self.algorithm {
                    DLAAlgorithm::WalkOutwards => here == TileType::Floor,
                    _ => here == TileType::Wall,
                };
                &&& stepped == walking
                &&& !walking ==> *final(wk) == *old(wk)
                &&& walking ==> exists|roll: int| 1 <= roll <= 4 && (final(wk).x as int, final(wk).y as int)
                    == #[trigger] stagger(old(wk).x as int, old(wk).y as int, roll, m.width as int, m.height as int)
                &&& walking && self.algorithm != DLAAlgorithm::WalkOutwards ==> final(wk).prev_x == old(wk).x && final(wk).prev_y == old(wk).y
                &&& walking && self.algorithm == DLAAlgorithm::WalkOutwards ==> final(wk).prev_x == old(wk).prev_x && final(wk).prev_y == old(wk).prev_y
            }),
    {
        let ghost w = build_data.map.width as int;
        let ghost h = build_data.map.height as int;
        proof { lemma_idx_in_bounds(w, h, wk.x as int, wk.y as int); }
        let index = build_data.map.xy_index(wk.x, wk.y);
        let here = build_data.map.tiles[index];
        let walking = match self.algorithm {
            DLAAlgorithm::WalkOutwards => here == TileType::Floor,
            _ => here == TileType::Wall,
        };
        if !walking {
            return false;
        }
        if self.algorithm != DLAAlgorithm::WalkOutwards {
            wk.prev_x = wk.x;
            wk.prev_y = wk.y;
        }
        let stagger_direction = roll_dice(rng, 1, 4);
        let (nx, ny) = stagger_from_roll(wk.x, wk.y, stagger_direction, build_data.map.width, build_data.map.height);
        let ghost ox = wk.x as int;
        let ghost oy = wk.y as int;
        wk.x = nx;
        wk.y = ny;
        assert((wk.x as int, wk.y as int) == stagger(ox, oy, stagger_direction as int, w, h));
        true
    }

    /// Paints where a walk ended: at the last cell walked through for the inward walk, at
    /// the stopping cell for the outward walk. Records a snapshot.
    pub fn finish_walker(&self, build_data: &mut BuilderMap, wk: &Walker)
        requires
            self.settings_ok(),
            dla_map_ok(old(build_data).map),
            walker_on_map(*wk, old(build_data).map.width as int, old(build_data).map.height as int),
        ensures
            final(build_data).map.wf(),
            final(build_data).map.same_but_tiles(&old(build_data).map),
            final(build_data).same_plan(&*old(build_data)),
            history_grows(final(build_data).history@, old(build_data).history@, 1),
            is_snapshot_of(final(build_data).history@.last(), final(build_data).map),
            ({
                let w = old(build_data).map.width as int;
                let h = old(build_data).map.height as int;
                let (px, py) = if self.algorithm == DLAAlgorithm::WalkOutwards { (wk.x as int, wk.y as int) } else { (wk.prev_x as int, wk.prev_y as int) };
                carved(old(build_data).map.tiles@, final(build_data).map.tiles@, w, h,
                    |a: int, b: int| paint_covers(w, h, self.symmetry, self.brush_size as int, px, py, a, b))
            }),
    {
        proof { lemma_dla_dims(build_data.map); }
        if self.algorithm == DLAAlgorithm::WalkOutwards {
            paint(&mut build_data.map, self.symmetry, self.brush_size, wk.x, wk.y);
        } else {
            paint(&mut build_data.map, self.symmetry, self.brush_size, wk.prev_x, wk.prev_y);
        }
        build_data.take_snapshot();
    }

    /// The central attractor's walk: from a random cell, follow the straight line toward
    /// the seed while the cells are wall, then paint at the last wall cell passed.
    /// Records a snapshot.
    pub fn central_attractor_walk(&self, rng: &mut RandomNumberGenerator, build_data: &mut BuilderMap, start: Position)
        requires
            self.settings_ok(),
            dla_map_ok(old(build_data).map),
            start == (Position { x: (old(build_data).map.width / 2) as i32, y: (old(build_data).map.height / 2) as i32 }),
        ensures
            final(build_data).map.wf(),
            final(build_data).map.same_but_tiles(&old(build_data).map),
            final(build_data).same_plan(&*old(build_data)),
            history_grows(final(build_data).history@, old(build_data).history@, 1),
            is_snapshot_of(final(build_data).history@.last(), final(build_data).map),
            exists|sx: int, sy: int| 2 <= sx <= old(build_data).map.width - 2 && 2 <= sy <= old(build_data).map.height - 2
                && ({
                    let target = #[trigger] attractor_target(old(build_data).map, sx, sy, start.x as int, start.y as int);
                    painted_at(old(build_data).map, final(build_data).map.tiles@, self.symmetry, self.brush_size as int, target.0, target.1)
                }),
    {
        let ghost w = build_data.map.width as int;
        let ghost h = build_data.map.height as int;
        proof { lemma_dla_dims(build_data.map); }
        let mut digger_x = roll_dice(rng, 1, build_data.map.width - 3) + 1;
        let mut digger_y = roll_dice(rng, 1, build_data.map.height - 3) + 1;
        let mut previous_x = digger_x;
        let mut previous_y = digger_y;
        let mut path = line_bresenham(digger_x, digger_y, start.x, start.y);
        let mut on_map = true;
        let ghost sx = digger_x as int;
        let ghost sy = digger_y as int;
        let ghost target = attractor_target(build_data.map, sx, sy, start.x as int, start.y as int);
        loop
            invariant
                build_data.map == old(build_data).map,
                dla_map_ok(build_data.map),
                w == build_data.map.width,
                h == build_data.map.height,
                1 <= previous_x < w - 1,
                1 <= previous_y < h - 1,
                on_map == inner_cell(build_data.map, digger_x as int, digger_y as int),
                attractor_stop(build_data.map, digger_x as int, digger_y as int, previous_x as int, previous_y as int, path@) == target,
            ensures
                target == (previous_x as int, previous_y as int),
                1 <= previous_x < w - 1,
                1 <= previous_y < h - 1,
                build_data.map == old(build_data).map,
            decreases path.len(),
        {
            if !on_map || path.len() == 0 {
                break;
            }
            proof { lemma_idx_in_bounds(w, h, digger_x as int, digger_y as int); }
            let digger_index = build_data.map.xy_index(digger_x, digger_y);
            if build_data.map.tiles[digger_index] != TileType::Wall {
                break;
            }
            previous_x = digger_x;
            previous_y = digger_y;
            let next = path.remove(0);
            digger_x = next.0;
            digger_y = next.1;
            // The line runs between two cells inside the map, so its cells stay inside.
            on_map = digger_x >= 1 && digger_x < build_data.map.width - 1 && digger_y >= 1 && digger_y < build_data.map.height - 1;
        }
        let ghost m0 = build_data.map;
        paint(&mut build_data.map, self.symmetry, self.brush_size, previous_x, previous_y);
        assert(painted_at(m0, build_data.map.tiles@, self.symmetry, self.brush_size as int, target.0, target.1));
        build_data.take_snapshot();
    }
}

/// The number of floor tiles on the map.
pub fn floor_tile_count(map: &GameMap) -> (n: usize)
    ensures
        n == count_floor(map.tiles@),
{
    let mut n: usize = 0;
    let mut i: usize = 0;
    while i < map.tiles.len()
        invariant
            i <= map.tiles.len(),
            n == count_floor(map.tiles@.take(i as int)),
            n <= i,
        decreases map.tiles.len() - i,
    {
        assert(map.tiles@.take(i + 1).drop_last() =~= map.tiles@.take(i as int));
        if map.tiles[i] == TileType::Floor {
            n = n + 1;
        }
        i = i + 1;
    }
    assert(map.tiles@.take(map.tiles.len() as int) =~= map.tiles@);
    n
}

} // verus!
