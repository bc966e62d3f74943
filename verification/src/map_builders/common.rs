use vstd::prelude::*;
use crate::tile::TileType;
use crate::rect::Rect;
use crate::map::{GameMap, idx, in_grid, lemma_idx_in_bounds, lemma_idx_injective};

verus! {

/// Whether `(x, y)` is inside a room: the rectangle's corner row and column are its walls.
pub open spec fn room_interior(room: Rect, x: int, y: int) -> bool {
    room.x1 < x <= room.x2 && room.y1 < y <= room.y2
}

/// Carves the inside of a room into floor.
pub fn apply_room_to_map(map: &mut GameMap, room: &Rect)
    requires
        old(map).wf(),
        room.x1 < room.x2 && room.y1 < room.y2 ==> {
            &&& 0 <= room.x1 + 1
            &&& room.x2 < old(map).width
            &&& 0 <= room.y1 + 1
            &&& room.y2 < old(map).height
        },
    ensures
        final(map).wf(),
        final(map).same_but_tiles(&*old(map)),
        forall|x: int, y: int| #![trigger idx(old(map).width as int, x, y)]
            in_grid(old(map).width as int, old(map).height as int, x, y) ==>
            final(map).tiles@[idx(old(map).width as int, x, y)] == if room_interior(*room, x, y) {
                TileType::Floor
            } else {
                old(map).tiles@[idx(old(map).width as int, x, y)]
            },
{
    let ghost w = map.width as int;
    let ghost h = map.height as int;
    if room.x1 >= room.x2 || room.y1 >= room.y2 {
        return;
    }
    let mut y: i64 = room.y1 as i64 + 1;
    while y <= room.y2 as i64
        invariant
            map.wf(),
            map.same_but_tiles(&*old(map)),
            w == map.width,
            h == map.height,
            room.x1 < room.x2 && room.y1 < room.y2,
            0 <= room.x1 + 1 && room.x2 < w && 0 <= room.y1 + 1 && room.y2 < h,
            room.y1 < y <= room.y2 + 1,
            forall|a: int, b: int| #![trigger idx(w, a, b)]
                in_grid(w, h, a, b) ==> map.tiles@[idx(w, a, b)] == if room_interior(*room, a, b) && b < y {
                    TileType::Floor
                } else {
                    old(map).tiles@[idx(w, a, b)]
                },
        decreases room.y2 + 1 - y,
    {
        let mut x: i64 = room.x1 as i64 + 1;
        while x <= room.x2 as i64
            invariant
                map.wf(),
                map.same_but_tiles(&*old(map)),
                w == map.width,
                h == map.height,
                room.x1 < room.x2 && room.y1 < room.y2,
                0 <= room.x1 + 1 && room.x2 < w && 0 <= room.y1 + 1 && room.y2 < h,
                room.y1 < y <= room.y2,
                room.x1 < x <= room.x2 + 1,
                forall|a: int, b: int| #![trigger idx(w, a, b)]
                    in_grid(w, h, a, b) ==> map.tiles@[idx(w, a, b)] == if room_interior(*room, a, b) && (b < y || (b == y && a < x)) {
                        TileType::Floor
                    } else {
                        old(map).tiles@[idx(w, a, b)]
                    },
            decreases room.x2 + 1 - x,
        {
            proof { lemma_idx_in_bounds(w, h, x as int, y as int); }
            let index = map.xy_index(x as i32, y as i32);
            let ghost before = map.tiles@;
            map.tiles.set(index, TileType::Floor);
            proof {
                assert forall|a: int, b: int| #![trigger idx(w, a, b)] in_grid(w, h, a, b) && (a != x || b != y) implies
                    map.tiles@[idx(w, a, b)] == before[idx(w, a, b)] by {
                    lemma_idx_in_bounds(w, h, a, b);
                    if idx(w, a, b) == idx(w, x as int, y as int) {
                        lemma_idx_injective(w, a, b, x as int, y as int);
                    }
                }
            }
            x = x + 1;
        }
        y = y + 1;
    }
}

/// Whether tile `i` is carved by a horizontal tunnel along row `y` from `x1` to `x2`
/// (inclusive, in either order) on a map `w` wide. Tile 0 is never carved.
pub open spec fn in_horizontal_tunnel(w: int, x1: int, x2: int, y: int, i: int) -> bool {
    let lo = if x1 < x2 { x1 } else { x2 };
    let hi = if x1 < x2 { x2 } else { x1 };
    0 < i && idx(w, lo, y) <= i <= idx(w, hi, y)
}

/// Whether tile `i` is carved by a vertical tunnel down column `x` from `y1` to `y2`.
pub open spec fn in_vertical_tunnel(w: int, y1: int, y2: int, x: int, i: int) -> bool {
    let lo = if y1 < y2 { y1 } else { y2 };
    let hi = if y1 < y2 { y2 } else { y1 };
    0 < i && exists|y: int| lo <= y <= hi && i == #[trigger] idx(w, x, y)
}

/// Carves floor along row `y` from `x1` to `x2`. Cells are addressed by index, so a column
/// past the right edge carries on into the next row; indices past the map are skipped,
/// as is tile 0.
pub fn apply_horizontal_tunnel(map: &mut GameMap, x1: i32, x2: i32, y: i32)
    requires
        old(map).wf(),
        0 <= y,
        0 <= x1,
        0 <= x2,
        idx(old(map).width as int, if x1 < x2 { x2 as int } else { x1 as int }, y as int) <= usize::MAX,
    ensures
        final(map).wf(),
        final(map).same_but_tiles(&*old(map)),
        forall|i: int| 0 <= i < old(map).tiles.len() ==> #[trigger] final(map).tiles@[i] == if in_horizontal_tunnel(old(map).width as int, x1 as int, x2 as int, y as int, i) {
            TileType::Floor
        } else {
            old(map).tiles@[i]
        },
{
    let lo = if x1 < x2 { x1 } else { x2 };
    let hi = if x1 < x2 { x2 } else { x1 };
    let ghost w = map.width as int;
    let total = map.width as usize * map.height as usize;
    let mut x: i64 = lo as i64;
    while x <= hi as i64
        invariant
            map.wf(),
            map.same_but_tiles(&*old(map)),
            w == map.width,
            total == map.tiles.len(),
            0 <= lo <= hi,
            0 <= y,
            idx(w, hi as int, y as int) <= usize::MAX,
            lo <= x <= hi + 1,
            forall|i: int| 0 <= i < map.tiles.len() ==> #[trigger] map.tiles@[i] == if 0 < i && idx(w, lo as int, y as int) <= i < idx(w, x as int, y as int) {
                TileType::Floor
            } else {
                old(map).tiles@[i]
            },
        decreases hi + 1 - x,
    {
        let index = map.xy_index(x as i32, y);
        if index > 0 && index < total {
            map.tiles.set(index, TileType::Floor);
        }
        x = x + 1;
    }
}

/// Carves floor down column `x` from `y1` to `y2`; indices past the map, and tile 0, are skipped.
pub fn apply_vertical_tunnel(map: &mut GameMap, y1: i32, y2: i32, x: i32)
    requires
        old(map).wf(),
        0 <= x,
        0 <= y1,
        0 <= y2,
        idx(old(map).width as int, x as int, if y1 < y2 { y2 as int } else { y1 as int }) <= usize::MAX,
    ensures
        final(map).wf(),
        final(map).same_but_tiles(&*old(map)),
        forall|i: int| 0 <= i < old(map).tiles.len() ==> #[trigger] final(map).tiles@[i] == if in_vertical_tunnel(old(map).width as int, y1 as int, y2 as int, x as int, i) {
            TileType::Floor
        } else {
            old(map).tiles@[i]
        },
{
    let lo = if y1 < y2 { y1 } else { y2 };
    let hi = if y1 < y2 { y2 } else { y1 };
    let ghost w = map.width as int;
    let total = map.width as usize * map.height as usize;
    let mut y: i64 = lo as i64;
    while y <= hi as i64
        invariant
            map.wf(),
            map.same_but_tiles(&*old(map)),
            w == map.width,
            total == map.tiles.len(),
            0 <= lo <= hi,
            0 <= x,
            idx(w, x as int, hi as int) <= usize::MAX,
            lo <= y <= hi + 1,
            forall|i: int| 0 <= i < map.tiles.len() ==> #[trigger] map.tiles@[i] == if 0 < i && exists|yy: int| lo <= yy < y && i == #[trigger] idx(w, x as int, yy) {
                TileType::Floor
            } else {
                old(map).tiles@[i]
            },
        decreases hi + 1 - y,
    {
        proof {
            assert(idx(w, x as int, y as int) <= idx(w, x as int, hi as int)) by (nonlinear_arith)
                requires y <= hi, 0 <= w;
            assert(0 <= idx(w, x as int, y as int)) by (nonlinear_arith)
                requires 0 <= y, 0 <= w, 0 <= x;
        }
        let index = map.xy_index(x, y as i32);
        let ghost before = map.tiles@;
        if index > 0 && index < total {
            map.tiles.set(index, TileType::Floor);
        }
        proof {
            assert forall|i: int| 0 <= i < map.tiles.len() implies #[trigger] map.tiles@[i] == if 0 < i && exists|yy: int| lo <= yy < y + 1 && i == #[trigger] idx(w, x as int, yy) {
                TileType::Floor
            } else {
                old(map).tiles@[i]
            } by {
                if i == index {
                    assert(i == idx(w, x as int, y as int));
                } else if 0 < i && exists|yy: int| lo <= yy < y + 1 && i == #[trigger] idx(w, x as int, yy) {
                    let yy = choose|yy: int| lo <= yy < y + 1 && i == #[trigger] idx(w, x as int, yy);
                    assert(yy != y);
                }
            }
        }
        y = y + 1;
    }
}

/// Mirroring applied when painting floor.
#[derive(PartialEq, Eq, Structural, Copy, Clone)]
pub enum Symmetry {
    NoSymmetry,
    Horizontal,
    Vertical,
    Both,
}

/// Whether one brush stroke of size `brush` at `(x, y)` carves cell `(a, b)`: a size-1
/// brush carves its own cell; a larger one carves the `2 * (brush / 2)` square starting
/// `brush / 2` up and left of it, but never the two outermost rings of the map.
pub open spec fn brush_covers(w: int, h: int, brush: int, x: int, y: int, a: int, b: int) -> bool {
    if brush == 1 {
        a == x && b == y
    } else {
        let half = brush / 2;
        &&& x - half <= a < x + half
        &&& y - half <= b < y + half
        &&& 1 < a < w - 1
        &&& 1 < b < h - 1
    }
}

/// `i32::abs` of a difference.
pub open spec fn dist(a: int, b: int) -> int {
    if a >= b { a - b } else { b - a }
}

/// Whether painting at `(x, y)` with the given mirroring carves `(a, b)`.
pub open spec fn paint_covers(w: int, h: int, mode: Symmetry, brush: int, x: int, y: int, a: int, b: int) -> bool {
    let cx = w / 2;
    let cy = h / 2;
    match mode {
        Symmetry::NoSymmetry => brush_covers(w, h, brush, x, y, a, b),
        Symmetry::Horizontal => if x == cx {
            brush_covers(w, h, brush, x, y, a, b)
        } else {
            brush_covers(w, h, brush, cx + dist(cx, x), y, a, b) || brush_covers(w, h, brush, cx - dist(cx, x), y, a, b)
        },
        Symmetry::Vertical => if y == cy {
            brush_covers(w, h, brush, x, y, a, b)
        } else {
            brush_covers(w, h, brush, x, cy + dist(cy, y), a, b) || brush_covers(w, h, brush, x, cy - dist(cy, y), a, b)
        },
        Symmetry::Both => if x == cx && y == cy {
            brush_covers(w, h, brush, x, y, a, b)
        } else {
            ||| brush_covers(w, h, brush, cx + dist(cx, x), y, a, b)
            ||| brush_covers(w, h, brush, cx - dist(cx, x), y, a, b)
            ||| brush_covers(w, h, brush, x, cy + dist(cy, y), a, b)
            ||| brush_covers(w, h, brush, x, cy - dist(cy, y), a, b)
        },
    }
}

/// Every point a paint call strokes at lies inside the map's outer ring, and the brush's
/// reach stays within `i32`.
pub open spec fn paint_fits(w: int, h: int, mode: Symmetry, brush: int, x: int, y: int) -> bool {
    &&& 1 <= x < w - 1
    &&& 1 <= y < h - 1
    &&& 0 <= brush <= 0x10000
    &&& w <= i32::MAX - 0x10000
    &&& h <= i32::MAX - 0x10000
}

/// The map's tiles after carving every cell that `covers` selects.
pub open spec fn carved(m_old: Seq<TileType>, m_new: Seq<TileType>, w: int, h: int, covers: spec_fn(int, int) -> bool) -> bool {
    &&& m_new.len() == m_old.len()
    &&& forall|a: int, b: int| #![trigger idx(w, a, b)]
        in_grid(w, h, a, b) ==> m_new[idx(w, a, b)] == if covers(a, b) { TileType::Floor } else { m_old[idx(w, a, b)] }
}

fn apply_paint(map: &mut GameMap, brush_size: i32, x: i32, y: i32)
    requires
        old(map).wf(),
        in_grid(old(map).width as int, old(map).height as int, x as int, y as int),
        0 <= brush_size <= 0x10000,
        old(map).width <= i32::MAX - 0x10000,
        old(map).height <= i32::MAX - 0x10000,
    ensures
        final(map).wf(),
        final(map).same_but_tiles(&*old(map)),
        carved(old(map).tiles@, final(map).tiles@, old(map).width as int, old(map).height as int,
            |a: int, b: int| brush_covers(old(map).width as int, old(map).height as int, brush_size as int, x as int, y as int, a, b)),
{
    let ghost w = map.width as int;
    let ghost h = map.height as int;
    if brush_size == 1 {
        proof { lemma_idx_in_bounds(w, h, x as int, y as int); }
        let digger_index = map.xy_index(x, y);
        let ghost before = map.tiles@;
        map.tiles.set(digger_index, TileType::Floor);
        proof {
            assert forall|a: int, b: int| #![trigger idx(w, a, b)] in_grid(w, h, a, b) && (a != x || b != y) implies
                map.tiles@[idx(w, a, b)] == before[idx(w, a, b)] by {
                lemma_idx_in_bounds(w, h, a, b);
                if idx(w, a, b) == idx(w, x as int, y as int) {
                    lemma_idx_injective(w, a, b, x as int, y as int);
                }
            }
        }
    } else {
        let half_brush_size = brush_size / 2;
        let mut brush_y = y - half_brush_size;
        while brush_y < y + half_brush_size
            invariant
                map.wf(),
                map.same_but_tiles(&*old(map)),
                w == map.width,
                h == map.height,
                in_grid(w, h, x as int, y as int),
                half_brush_size == brush_size / 2,
                brush_size != 1,
                0 <= half_brush_size <= 0x8000,
                w <= i32::MAX - 0x10000,
                h <= i32::MAX - 0x10000,
                y - half_brush_size <= brush_y <= y + half_brush_size,
                forall|a: int, b: int| #![trigger idx(w, a, b)]
                    in_grid(w, h, a, b) ==> map.tiles@[idx(w, a, b)] == if brush_covers(w, h, brush_size as int, x as int, y as int, a, b) && b < brush_y {
                        TileType::Floor
                    } else {
                        old(map).tiles@[idx(w, a, b)]
                    },
            decreases y + half_brush_size - brush_y,
        {
            let mut brush_x = x - half_brush_size;
            while brush_x < x + half_brush_size
                invariant
                    map.wf(),
                    map.same_but_tiles(&*old(map)),
                    w == map.width,
                    h == map.height,
                    in_grid(w, h, x as int, y as int),
                    half_brush_size == brush_size / 2,
                    brush_size != 1,
                    0 <= half_brush_size <= 0x8000,
                    w <= i32::MAX - 0x10000,
                    h <= i32::MAX - 0x10000,
                    y - half_brush_size <= brush_y < y + half_brush_size,
                    x - half_brush_size <= brush_x <= x + half_brush_size,
                    forall|a: int, b: int| #![trigger idx(w, a, b)]
                        in_grid(w, h, a, b) ==> map.tiles@[idx(w, a, b)] == if brush_covers(w, h, brush_size as int, x as int, y as int, a, b)
                            && (b < brush_y || (b == brush_y && a < brush_x)) {
                            TileType::Floor
                        } else {
                            old(map).tiles@[idx(w, a, b)]
                        },
                decreases x + half_brush_size - brush_x,
            {
                if brush_x > 1 && brush_x < map.width - 1 && brush_y > 1 && brush_y < map.height - 1 {
                    proof { lemma_idx_in_bounds(w, h, brush_x as int, brush_y as int); }
                    let index = map.xy_index(brush_x, brush_y);
                    let ghost before = map.tiles@;
                    map.tiles.set(index, TileType::Floor);
                    proof {
                        assert forall|a: int, b: int| #![trigger idx(w, a, b)] in_grid(w, h, a, b) && (a != brush_x || b != brush_y) implies
                            map.tiles@[idx(w, a, b)] == before[idx(w, a, b)] by {
                            lemma_idx_in_bounds(w, h, a, b);
                            if idx(w, a, b) == idx(w, brush_x as int, brush_y as int) {
                                lemma_idx_injective(w, a, b, brush_x as int, brush_y as int);
                            }
                        }
                    }
                }
                brush_x = brush_x + 1;
            }
            brush_y = brush_y + 1;
        }
    }
}

/// Carves floor with a brush at `(x, y)` and, with mirroring, at its mirror images across
/// the map's middle column, middle row, or both.
pub fn paint(map: &mut GameMap, mode: Symmetry, brush_size: i32, x: i32, y: i32)
    requires
        old(map).wf(),
        paint_fits(old(map).width as int, old(map).height as int, mode, brush_size as int, x as int, y as int),
    ensures
        final(map).wf(),
        final(map).same_but_tiles(&*old(map)),
        carved(old(map).tiles@, final(map).tiles@, old(map).width as int, old(map).height as int,
            |a: int, b: int| paint_covers(old(map).width as int, old(map).height as int, mode, brush_size as int, x as int, y as int, a, b)),
{
    let ghost w = map.width as int;
    let ghost h = map.height as int;
    let ghost t0 = map.tiles@;
    let center_x = map.width / 2;
    let center_y = map.height / 2;
    match mode {
        Symmetry::NoSymmetry => apply_paint(map, brush_size, x, y),
        Symmetry::Horizontal => {
            if x == center_x {
                apply_paint(map, brush_size, x, y);
            } else {
                let dist_x = if center_x >= x { center_x - x } else { x - center_x };
                apply_paint(map, brush_size, center_x + dist_x, y);
                let ghost t1 = map.tiles@;
                apply_paint(map, brush_size, center_x - dist_x, y);
                assert(forall|a: int, b: int| #![trigger idx(w, a, b)] in_grid(w, h, a, b) ==> t1[idx(w, a, b)] == if brush_covers(w, h, brush_size as int, center_x + dist_x, y as int, a, b) { TileType::Floor } else { t0[idx(w, a, b)] });
            }
        },
        Symmetry::Vertical => {
            if y == center_y {
                apply_paint(map, brush_size, x, y);
            } else {
                let dist_y = if center_y >= y { center_y - y } else { y - center_y };
                apply_paint(map, brush_size, x, center_y + dist_y);
                let ghost t1 = map.tiles@;
                apply_paint(map, brush_size, x, center_y - dist_y);
                assert(forall|a: int, b: int| #![trigger idx(w, a, b)] in_grid(w, h, a, b) ==> t1[idx(w, a, b)] == if brush_covers(w, h, brush_size as int, x as int, center_y + dist_y, a, b) { TileType::Floor } else { t0[idx(w, a, b)] });
            }
        },
        Symmetry::Both => {
            if x == center_x && y == center_y {
                apply_paint(map, brush_size, x, y);
            } else {
                let dist_x = if center_x >= x { center_x - x } else { x - center_x };
                apply_paint(map, brush_size, center_x + dist_x, y);
                let ghost t1 = map.tiles@;
                apply_paint(map, brush_size, center_x - dist_x, y);
                let ghost t2 = map.tiles@;
                let dist_y = if center_y >= y { center_y - y } else { y - center_y };
                apply_paint(map, brush_size, x, center_y + dist_y);
                let ghost t3 = map.tiles@;
                apply_paint(map, brush_size, x, center_y - dist_y);
                assert(forall|a: int, b: int| #![trigger idx(w, a, b)] in_grid(w, h, a, b) ==> t1[idx(w, a, b)] == if brush_covers(w, h, brush_size as int, center_x + dist_x, y as int, a, b) { TileType::Floor } else { t0[idx(w, a, b)] });
                assert(forall|a: int, b: int| #![trigger idx(w, a, b)] in_grid(w, h, a, b) ==> t2[idx(w, a, b)] == if brush_covers(w, h, brush_size as int, center_x - dist_x, y as int, a, b) { TileType::Floor } else { t1[idx(w, a, b)] });
                assert(forall|a: int, b: int| #![trigger idx(w, a, b)] in_grid(w, h, a, b) ==> t3[idx(w, a, b)] == if brush_covers(w, h, brush_size as int, x as int, center_y + dist_y, a, b) { TileType::Floor } else { t2[idx(w, a, b)] });
            }
        },
    }
}

} // verus!
