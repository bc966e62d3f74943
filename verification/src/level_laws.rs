//! What level generation and play must do, stated tile by tile and key by key.
use vstd::prelude::*;
use crate::tile::{TileType, spec_tile_walkable};
use crate::map::{idx, in_grid, lemma_idx_injective};
use crate::rect::Rect;
use crate::map_builders::limestone_cavern::cave_outcome;
use crate::map_builders::room_corner_rounding::{corner_fill, round_room, round_rooms};
use crate::map_builders::cellular_automata::{ca_step, ca_iterate};
use crate::player::{Key, Command, spec_command};
use crate::map_builders::distant_exit::farthest_floor;
use crate::map_builders::UNREACHABLE_DISTANCE;

verus! {

/// 1 for a wall, 0 for anything else.
pub open spec fn wall_at(t: Seq<TileType>, j: int) -> int {
    if t[j] == TileType::Wall { 1 } else { 0 }
}

/// How many of the eight cells around index `i` of a map `w` wide are walls.
pub open spec fn walls_around(t: Seq<TileType>, w: int, i: int) -> int {
    wall_at(t, i - w - 1) + wall_at(t, i - w) + wall_at(t, i - w + 1)
        + wall_at(t, i - 1) + wall_at(t, i + 1)
        + wall_at(t, i + w - 1) + wall_at(t, i + w) + wall_at(t, i + w + 1)
}

/// One smoothing pass of the cave automaton: an inner cell with more than four wall
/// neighbours, or none, becomes wall; one with one to four becomes floor; the outer ring
/// is kept.
pub proof fn law_smoothing_follows_wall_count(t: Seq<TileType>, w: int, h: int, i: int)
    requires
        w >= 1,
        h >= 1,
        t.len() == w * h,
        0 <= i < t.len(),
    ensures
        ca_step(t, w, h).len() == t.len(),
        ({
            let x = i % w;
            let y = i / w;
            let n = walls_around(t, w, i);
            &&& (1 <= x < w - 1 && 1 <= y < h - 1 && (n > 4 || n == 0)) ==> ca_step(t, w, h)[i] == TileType::Wall
            &&& (1 <= x < w - 1 && 1 <= y < h - 1 && 1 <= n <= 4) ==> ca_step(t, w, h)[i] == TileType::Floor
            &&& !(1 <= x < w - 1 && 1 <= y < h - 1) ==> ca_step(t, w, h)[i] == t[i]
        }),
{
}

/// Every direction key moves the player one cell that way (x grows to the east, y to the
/// south): the arrows, the number pad around 5, and the vi keys h j k l with y u b n for
/// the diagonals. Keys of one direction give the same move, 5 and space wait, and the
/// other keys give their own commands.
pub proof fn law_keys_move_their_way(k: Key)
    ensures
        (k == Key::Left || k == Key::Numpad4 || k == Key::H) ==> spec_command(Some(k)) == (Command::Move { dx: -1i32, dy: 0i32 }),
        (k == Key::Right || k == Key::Numpad6 || k == Key::L) ==> spec_command(Some(k)) == (Command::Move { dx: 1i32, dy: 0i32 }),
        (k == Key::Up || k == Key::Numpad8 || k == Key::K) ==> spec_command(Some(k)) == (Command::Move { dx: 0i32, dy: -1i32 }),
        (k == Key::Down || k == Key::Numpad2 || k == Key::J) ==> spec_command(Some(k)) == (Command::Move { dx: 0i32, dy: 1i32 }),
        (k == Key::Numpad9 || k == Key::Y) ==> spec_command(Some(k)) == (Command::Move { dx: 1i32, dy: -1i32 }),
        (k == Key::Numpad7 || k == Key::U) ==> spec_command(Some(k)) == (Command::Move { dx: -1i32, dy: -1i32 }),
        (k == Key::Numpad3 || k == Key::N) ==> spec_command(Some(k)) == (Command::Move { dx: 1i32, dy: 1i32 }),
        (k == Key::Numpad1 || k == Key::B) ==> spec_command(Some(k)) == (Command::Move { dx: -1i32, dy: 1i32 }),
        (k == Key::Numpad5 || k == Key::Space) ==> spec_command(Some(k)) == Command::SkipTurn,
        k == Key::G ==> spec_command(Some(k)) == Command::PickUp,
        k == Key::I ==> spec_command(Some(k)) == Command::ShowInventory,
        k == Key::D ==> spec_command(Some(k)) == Command::ShowDropItem,
        k == Key::R ==> spec_command(Some(k)) == Command::ShowRemoveItem,
        k == Key::Period ==> spec_command(Some(k)) == Command::Descend,
        k == Key::Escape ==> spec_command(Some(k)) == Command::SaveGame,
        k == Key::Other ==> spec_command(Some(k)) == Command::Nothing,
        spec_command(None) == Command::Nothing,
{
}

/// Whether tile `j` is floor that the start can reach.
pub open spec fn reachable_floor(tiles: Seq<TileType>, distances: Seq<u32>, j: int) -> bool {
    tiles[j] == TileType::Floor && distances[j] != UNREACHABLE_DISTANCE
}

/// The exit goes on the farthest reachable floor: when some reachable floor tile lies
/// beyond the start (distance above 0), the chosen tile is reachable floor, no reachable
/// floor tile is farther, and every reachable floor tile before it is nearer (the first
/// of equals wins). When none does, tile 0 is chosen.
pub proof fn law_exit_is_farthest(tiles: Seq<TileType>, distances: Seq<u32>)
    requires
        tiles.len() == distances.len(),
    ensures
        ({
            let r = farthest_floor(tiles, distances, tiles.len() as int).0;
            let beyond = exists|j: int| 0 <= j < tiles.len() && #[trigger] reachable_floor(tiles, distances, j) && distances[j] > 0;
            &&& beyond ==> 0 <= r < tiles.len() && reachable_floor(tiles, distances, r)
            &&& beyond ==> forall|j: int| 0 <= j < tiles.len() && #[trigger] reachable_floor(tiles, distances, j)
                    ==> distances[j] <= distances[r]
            &&& beyond ==> forall|j: int| 0 <= j < r && #[trigger] reachable_floor(tiles, distances, j)
                    ==> distances[j] < distances[r]
            &&& !beyond ==> r == 0
        }),
{
    lemma_farthest_so_far(tiles, distances, tiles.len() as int);
    let (r, d) = farthest_floor(tiles, distances, tiles.len() as int);
    if exists|j: int| 0 <= j < tiles.len() && #[trigger] reachable_floor(tiles, distances, j) && distances[j] > 0 {
        let j = choose|j: int| 0 <= j < tiles.len() && #[trigger] reachable_floor(tiles, distances, j) && distances[j] > 0;
        assert(distances[j] <= d);
    }
}

/// What the scan knows after `k` tiles: either nothing beyond the start was seen and the
/// candidate is tile 0 at distance 0, or the candidate is the first reachable floor tile
/// at the greatest distance seen so far.
proof fn lemma_farthest_so_far(tiles: Seq<TileType>, distances: Seq<u32>, k: int)
    requires
        0 <= k <= tiles.len(),
        tiles.len() == distances.len(),
    ensures
        ({
            let (r, d) = farthest_floor(tiles, distances, k);
            &&& (r == 0 && d == 0) || (0 <= r < k && reachable_floor(tiles, distances, r) && d == distances[r] && d > 0)
            &&& forall|j: int| 0 <= j < k && #[trigger] reachable_floor(tiles, distances, j) ==> distances[j] <= d
            &&& forall|j: int| 0 <= j < r && #[trigger] reachable_floor(tiles, distances, j) ==> distances[j] < d
        }),
    decreases k,
{
    if k > 0 {
        lemma_farthest_so_far(tiles, distances, k - 1);
    }
}

/// How many of the cells west, north, east and south of `(x, y)` are walls, as the corner
/// rounder counts them: east only left of column `w - 2`, south only above row `h - 2`.
pub open spec fn walls_beside(t: Seq<TileType>, w: int, h: int, x: int, y: int) -> int {
    (if x > 0 && t[idx(w, x - 1, y)] == TileType::Wall { 1int } else { 0 })
        + (if y > 0 && t[idx(w, x, y - 1)] == TileType::Wall { 1int } else { 0 })
        + (if x < w - 2 && t[idx(w, x + 1, y)] == TileType::Wall { 1int } else { 0 })
        + (if y < h - 2 && t[idx(w, x, y + 1)] == TileType::Wall { 1int } else { 0 })
}

/// The `k`-th inside corner of a room: top-left, top-right, bottom-left, bottom-right.
pub open spec fn room_corner(r: Rect, k: int) -> (int, int) {
    if k == 0 {
        (r.x1 + 1, r.y1 + 1)
    } else if k == 1 {
        (r.x2 as int, r.y1 + 1)
    } else if k == 2 {
        (r.x1 + 1, r.y2 as int)
    } else {
        (r.x2 as int, r.y2 as int)
    }
}

/// Rounding a room whose inside is at least three cells each way turns each of its four
/// inside corners with exactly two wall neighbours into wall, leaves the other corners as
/// they were, and touches no other tile.
pub proof fn law_room_corners_rounded(t: Seq<TileType>, w: int, h: int, r: Rect)
    requires
        t.len() == w * h,
        in_grid(w, h, r.x1 + 1, r.y1 + 1),
        in_grid(w, h, r.x2 as int, r.y2 as int),
        r.x2 >= r.x1 + 3,
        r.y2 >= r.y1 + 3,
    ensures
        round_room(t, w, h, r).len() == t.len(),
        forall|k: int| 0 <= k < 4 ==> {
            let c = #[trigger] room_corner(r, k);
            &&& walls_beside(t, w, h, c.0, c.1) == 2 ==> round_room(t, w, h, r)[idx(w, c.0, c.1)] == TileType::Wall
            &&& walls_beside(t, w, h, c.0, c.1) != 2 ==> round_room(t, w, h, r)[idx(w, c.0, c.1)] == t[idx(w, c.0, c.1)]
        },
        forall|j: int| 0 <= j < t.len() && (forall|k: int| 0 <= k < 4 ==> j != idx(w, #[trigger] room_corner(r, k).0, room_corner(r, k).1))
            ==> round_room(t, w, h, r)[j] == t[j],
{
    let c0 = room_corner(r, 0);
    let c1 = room_corner(r, 1);
    let c2 = room_corner(r, 2);
    let c3 = room_corner(r, 3);
    let t1 = corner_fill(t, w, h, c0.0, c0.1);
    let t2 = corner_fill(t1, w, h, c1.0, c1.1);
    let t3 = corner_fill(t2, w, h, c2.0, c2.1);
    let t4 = corner_fill(t3, w, h, c3.0, c3.1);
    assert(round_room(t, w, h, r) == t4);
    lemma_fill_here(t, w, h, c0.0, c0.1);
    lemma_fill_here(t1, w, h, c1.0, c1.1);
    lemma_fill_here(t2, w, h, c2.0, c2.1);
    lemma_fill_here(t3, w, h, c3.0, c3.1);
    // corner 0 is untouched by the later fills, and its neighbours too
    lemma_fill_away(t1, w, h, c1.0, c1.1, c0.0, c0.1);
    lemma_fill_away(t2, w, h, c2.0, c2.1, c0.0, c0.1);
    lemma_fill_away(t3, w, h, c3.0, c3.1, c0.0, c0.1);
    // corner 1
    lemma_fill_away(t, w, h, c0.0, c0.1, c1.0, c1.1);
    lemma_fill_away(t2, w, h, c2.0, c2.1, c1.0, c1.1);
    lemma_fill_away(t3, w, h, c3.0, c3.1, c1.0, c1.1);
    // corner 2
    lemma_fill_away(t, w, h, c0.0, c0.1, c2.0, c2.1);
    lemma_fill_away(t1, w, h, c1.0, c1.1, c2.0, c2.1);
    lemma_fill_away(t3, w, h, c3.0, c3.1, c2.0, c2.1);
    // corner 3
    lemma_fill_away(t, w, h, c0.0, c0.1, c3.0, c3.1);
    lemma_fill_away(t1, w, h, c1.0, c1.1, c3.0, c3.1);
    lemma_fill_away(t2, w, h, c2.0, c2.1, c3.0, c3.1);
    assert forall|k: int| 0 <= k < 4 implies {
        let c = #[trigger] room_corner(r, k);
        &&& walls_beside(t, w, h, c.0, c.1) == 2 ==> t4[idx(w, c.0, c.1)] == TileType::Wall
        &&& walls_beside(t, w, h, c.0, c.1) != 2 ==> t4[idx(w, c.0, c.1)] == t[idx(w, c.0, c.1)]
    } by {
        if k == 0 {} else if k == 1 {} else if k == 2 {} else {}
    }
    assert forall|j: int| 0 <= j < t.len() && (forall|k: int| 0 <= k < 4 ==> j != idx(w, #[trigger] room_corner(r, k).0, room_corner(r, k).1))
        implies t4[j] == t[j] by {
        assert(j != idx(w, room_corner(r, 0).0, room_corner(r, 0).1));
        assert(j != idx(w, room_corner(r, 1).0, room_corner(r, 1).1));
        assert(j != idx(w, room_corner(r, 2).0, room_corner(r, 2).1));
        assert(j != idx(w, room_corner(r, 3).0, room_corner(r, 3).1));
    }
}

/// Filling at `(x, y)` sets that cell to wall exactly when it has two wall neighbours and
/// leaves every other cell as it was.
proof fn lemma_fill_here(t: Seq<TileType>, w: int, h: int, x: int, y: int)
    requires
        t.len() == w * h,
        in_grid(w, h, x, y),
    ensures
        corner_fill(t, w, h, x, y).len() == t.len(),
        corner_fill(t, w, h, x, y)[idx(w, x, y)] == (if walls_beside(t, w, h, x, y) == 2 { TileType::Wall } else { t[idx(w, x, y)] }),
        forall|j: int| 0 <= j < t.len() && j != idx(w, x, y) ==> #[trigger] corner_fill(t, w, h, x, y)[j] == t[j],
{
    lemma_neighbour_indices(w, h, x, y);
    crate::map::lemma_idx_in_bounds(w, h, x, y);
}

/// The flat indices of the four neighbours of a cell.
proof fn lemma_neighbour_indices(w: int, h: int, x: int, y: int)
    requires
        in_grid(w, h, x, y),
    ensures
        idx(w, x - 1, y) == idx(w, x, y) - 1,
        idx(w, x + 1, y) == idx(w, x, y) + 1,
        idx(w, x, y - 1) == idx(w, x, y) - w,
        idx(w, x, y + 1) == idx(w, x, y) + w,
{
    assert((y - 1) * w == y * w - w) by (nonlinear_arith);
    assert((y + 1) * w == y * w + w) by (nonlinear_arith);
}

/// Filling at a cell two or more steps away along a row or column changes neither the
/// cell `(x, y)` nor its wall count.
proof fn lemma_fill_away(t: Seq<TileType>, w: int, h: int, fx: int, fy: int, x: int, y: int)
    requires
        t.len() == w * h,
        in_grid(w, h, fx, fy),
        in_grid(w, h, x, y),
        fx - x >= 2 || x - fx >= 2 || fy - y >= 2 || y - fy >= 2,
    ensures
        corner_fill(t, w, h, fx, fy)[idx(w, x, y)] == t[idx(w, x, y)],
        walls_beside(corner_fill(t, w, h, fx, fy), w, h, x, y) == walls_beside(t, w, h, x, y),
{
    let f = idx(w, fx, fy);
    lemma_fill_here(t, w, h, fx, fy);
    crate::map::lemma_idx_in_bounds(w, h, x, y);
    if f == idx(w, x, y) {
        lemma_idx_injective(w, fx, fy, x, y);
    }
    if x > 0 && f == idx(w, x - 1, y) {
        lemma_idx_injective(w, fx, fy, x - 1, y);
    }
    if y > 0 && f == idx(w, x, y - 1) {
        lemma_idx_injective(w, fx, fy, x, y - 1);
    }
    if x < w - 2 && f == idx(w, x + 1, y) {
        lemma_idx_injective(w, fx, fy, x + 1, y);
    }
    if y < h - 2 && f == idx(w, x, y + 1) {
        lemma_idx_injective(w, fx, fy, x, y + 1);
    }
    lemma_neighbour_indices(w, h, x, y);
    if x > 0 {
        crate::map::lemma_idx_in_bounds(w, h, x - 1, y);
    }
    if y > 0 {
        crate::map::lemma_idx_in_bounds(w, h, x, y - 1);
    }
    if x < w - 2 {
        crate::map::lemma_idx_in_bounds(w, h, x + 1, y);
    }
    if y < h - 2 {
        crate::map::lemma_idx_in_bounds(w, h, x, y + 1);
    }
}

/// Decorating a cave never opens a wall: a tile that was wall ends up as wall, deep water,
/// a stalactite or a stalagmite, none of them walkable, and a wall with exactly two wall
/// neighbours becomes deep water.
pub proof fn law_cave_walls_stay_closed(old: Seq<TileType>, w: int, h: int, i: int, new: TileType)
    requires
        w >= 1,
        old.len() == w * h,
        0 <= i < old.len(),
        old[i] == TileType::Wall,
        cave_outcome(old, w, h, i, new),
    ensures
        new == TileType::Wall || new == TileType::DeepWater || new == TileType::Stalactite
            || new == TileType::Stalagmite,
        !spec_tile_walkable(new),
        walls_beside(old, w, h, i % w, i / w) == 2 ==> new == TileType::DeepWater,
        walls_beside(old, w, h, i % w, i / w) == 1 ==> new == TileType::Wall || new == TileType::Stalactite
            || new == TileType::Stalagmite,
        walls_beside(old, w, h, i % w, i / w) != 1 && walls_beside(old, w, h, i % w, i / w) != 2
            ==> new == TileType::Wall,
{
    let x = i % w;
    let y = i / w;
    vstd::arithmetic::div_mod::lemma_fundamental_div_mod(i, w);
    assert(0 <= x < w) by {
        vstd::arithmetic::div_mod::lemma_mod_bound(i, w);
    }
    assert(0 <= y < h) by {
        vstd::arithmetic::div_mod::lemma_div_pos_is_pos(i, w);
        assert(i == w * y + x);
        if y >= h {
            assert(w * y >= w * h) by (nonlinear_arith)
                requires y >= h, w >= 1;
        }
    }
    assert(idx(w, x, y) == i) by (nonlinear_arith)
        requires i == w * y + x;
    lemma_neighbour_indices(w, h, x, y);
}

/// Decorating a cave keeps floor walkable (floor, gravel or shallow water) and leaves
/// every tile that is neither floor nor wall as it was.
pub proof fn law_cave_floor_stays_open(old: Seq<TileType>, w: int, h: int, i: int, new: TileType)
    requires
        0 <= i < old.len(),
        cave_outcome(old, w, h, i, new),
    ensures
        old[i] == TileType::Floor ==> (new == TileType::Floor || new == TileType::Gravel
            || new == TileType::ShallowWater) && spec_tile_walkable(new),
        old[i] != TileType::Floor && old[i] != TileType::Wall ==> new == old[i],
{
}

/// The cave automaton's passes are one smoothing pass after another: none leaves the
/// noise as it is, and each further pass smooths the previous result once.
pub proof fn law_passes_repeat_one_step(t: Seq<TileType>, w: int, h: int, k: nat)
    ensures
        ca_iterate(t, w, h, 0) == t,
        ca_iterate(t, w, h, k + 1) == ca_step(ca_iterate(t, w, h, k), w, h),
{
}

/// Rounding the first `k + 1` rooms is rounding the first `k`, then room `k`; no room
/// leaves the tiles as they were.
pub proof fn law_rooms_rounded_in_turn(t: Seq<TileType>, w: int, h: int, rooms: Seq<Rect>, k: int)
    requires
        0 <= k,
    ensures
        round_rooms(t, w, h, rooms, 0) == t,
        round_rooms(t, w, h, rooms, k + 1) == round_room(round_rooms(t, w, h, rooms, k), w, h, rooms[k]),
{
}

} // verus!
