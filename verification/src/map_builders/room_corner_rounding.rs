use vstd::prelude::*;
use rltk::RandomNumberGenerator;
use crate::tile::TileType;
use crate::rect::Rect;
use crate::map::{idx, in_grid, lemma_idx_in_bounds};
use crate::map_builders::{BuilderMap, history_grows};

verus! {

/// Rounds off room corners by filling in the corner cells.
pub struct RoomCornerRounder {}

/// The tiles after filling cell `(x, y)` with wall when exactly two of its neighbours are
/// walls (west, north, and east only left of column `w - 2`, south only above row `h - 2`).
pub open spec fn corner_fill(t: Seq<TileType>, w: int, h: int, x: int, y: int) -> Seq<TileType> {
    let i = idx(w, x, y);
    let n = (if x > 0 && t[i - 1] == TileType::Wall { 1int } else { 0 })
        + (if y > 0 && t[i - w] == TileType::Wall { 1int } else { 0 })
        + (if x < w - 2 && t[i + 1] == TileType::Wall { 1int } else { 0 })
        + (if y < h - 2 && t[i + w] == TileType::Wall { 1int } else { 0 });
    if n == 2 { t.update(i, TileType::Wall) } else { t }
}

/// The four inside corners of a room, top-left, top-right, bottom-left, bottom-right, filled in turn.
pub open spec fn round_room(t: Seq<TileType>, w: int, h: int, r: Rect) -> Seq<TileType> {
    let t1 = corner_fill(t, w, h, r.x1 + 1, r.y1 + 1);
    let t2 = corner_fill(t1, w, h, r.x2 as int, r.y1 + 1);
    let t3 = corner_fill(t2, w, h, r.x1 + 1, r.y2 as int);
    corner_fill(t3, w, h, r.x2 as int, r.y2 as int)
}

/// The first `k` rooms rounded in order.
pub open spec fn round_rooms(t: Seq<TileType>, w: int, h: int, rooms: Seq<Rect>, k: int) -> Seq<TileType>
    decreases k,
{
    if k <= 0 { t } else { round_room(round_rooms(t, w, h, rooms, k - 1), w, h, rooms[k - 1]) }
}

/// The inside corners of the room lie on the map.
pub open spec fn corners_on_map(r: Rect, w: int, h: int) -> bool {
    &&& in_grid(w, h, r.x1 + 1, r.y1 + 1)
    &&& in_grid(w, h, r.x2 as int, r.y2 as int)
}

impl RoomCornerRounder {
    pub fn new() -> (b: Box<RoomCornerRounder>) {
        Box::new(RoomCornerRounder {})
    }

    fn fill_if_corner(&mut self, x: i32, y: i32, build_data: &mut BuilderMap)
        requires
            old(build_data).map.wf(),
            in_grid(old(build_data).map.width as int, old(build_data).map.height as int, x as int, y as int),
        ensures
            *final(self) == *old(self),
            final(build_data).map.wf(),
            final(build_data).map.same_but_tiles(&old(build_data).map),
            final(build_data).same_plan(&*old(build_data)),
            final(build_data).history == old(build_data).history,
            final(build_data).map.tiles@ == corner_fill(old(build_data).map.tiles@,
                old(build_data).map.width as int, old(build_data).map.height as int, x as int, y as int),
    {
        let ghost wi = build_data.map.width as int;
        let ghost hi = build_data.map.height as int;
        let w = build_data.map.width;
        let h = build_data.map.height;
        proof {
            lemma_idx_in_bounds(wi, hi, x as int, y as int);
            assert(x < wi - 2 ==> idx(wi, x as int, y as int) + 1 < wi * hi) by (nonlinear_arith)
                requires 0 <= y < hi, 0 <= x;
            assert(y < hi - 2 ==> idx(wi, x as int, y as int) + wi < wi * hi) by (nonlinear_arith)
                requires 0 <= y, 0 <= x < wi;
            assert(y > 0 ==> idx(wi, x as int, y as int) >= wi) by (nonlinear_arith)
                requires 0 <= x, 0 <= wi, 0 <= y;
        }
        let index = build_data.map.xy_index(x, y);
        let mut neighbor_walls: i32 = 0;
        if x > 0 && build_data.map.tiles[index - 1] == TileType::Wall { neighbor_walls += 1; }
        if y > 0 && build_data.map.tiles[index - w as usize] == TileType::Wall { neighbor_walls += 1; }
        if x < w - 2 && build_data.map.tiles[index + 1] == TileType::Wall { neighbor_walls += 1; }
        if y < h - 2 && build_data.map.tiles[index + w as usize] == TileType::Wall { neighbor_walls += 1; }

        if neighbor_walls == 2 {
            build_data.map.tiles.set(index, TileType::Wall);
        }
    }

    /// Fills the inside corners of each room in turn, taking a snapshot after each room.
    pub fn build(&mut self, _rng: &mut RandomNumberGenerator, build_data: &mut BuilderMap)
        requires
            old(build_data).map.wf(),
            old(build_data).rooms is Some,
            forall|k: int| 0 <= k < old(build_data).rooms->0.len() ==> corners_on_map(
                #[trigger] old(build_data).rooms->0@[k], old(build_data).map.width as int, old(build_data).map.height as int),
        ensures
            final(build_data).map.wf(),
            final(build_data).map.same_but_tiles(&old(build_data).map),
            final(build_data).same_plan(&*old(build_data)),
            ({
                let rooms = old(build_data).rooms->0@;
                let w = old(build_data).map.width as int;
                let h = old(build_data).map.height as int;
                let t0 = old(build_data).map.tiles@;
                &&& final(build_data).map.tiles@ == round_rooms(t0, w, h, rooms, rooms.len() as int)
                &&& history_grows(final(build_data).history@, old(build_data).history@, rooms.len() as int)
                &&& forall|k: int| 0 <= k < rooms.len() ==> (#[trigger] final(build_data).history@[old(build_data).history.len() + k]).tiles@
                    == round_rooms(t0, w, h, rooms, k + 1)
            }),
    {
        let ghost w = build_data.map.width as int;
        let ghost h = build_data.map.height as int;
        let ghost start = build_data.history.len() as int;
        let ghost t0 = build_data.map.tiles@;
        let rooms: Vec<Rect> = match &build_data.rooms {
            Some(r) => copy_rooms(r),
            None => Vec::new(),
        };
        let mut k: usize = 0;
        while k < rooms.len()
            invariant
                *self == *old(self),
                build_data.map.wf(),
                build_data.map.same_but_tiles(&old(build_data).map),
                build_data.same_plan(&*old(build_data)),
                w == build_data.map.width,
                h == build_data.map.height,
                t0 == old(build_data).map.tiles@,
                start == old(build_data).history.len(),
                rooms@ == old(build_data).rooms->0@,
                forall|j: int| 0 <= j < rooms.len() ==> corners_on_map(#[trigger] rooms@[j], w, h),
                k <= rooms.len(),
                build_data.map.tiles@ == round_rooms(t0, w, h, rooms@, k as int),
                history_grows(build_data.history@, old(build_data).history@, k as int),
                forall|j: int| 0 <= j < k ==> (#[trigger] build_data.history@[start + j]).tiles@ == round_rooms(t0, w, h, rooms@, j + 1),
            decreases rooms.len() - k,
        {
            let room = rooms[k];
            assert(corners_on_map(room, w, h));
            self.fill_if_corner(room.x1 + 1, room.y1 + 1, build_data);
            self.fill_if_corner(room.x2, room.y1 + 1, build_data);
            self.fill_if_corner(room.x1 + 1, room.y2, build_data);
            self.fill_if_corner(room.x2, room.y2, build_data);
            let ghost before = build_data.history@;
            build_data.take_snapshot();
            proof {
                assert forall|j: int| 0 <= j < k + 1 implies (#[trigger] build_data.history@[start + j]).tiles@ == round_rooms(t0, w, h, rooms@, j + 1) by {
                    if j < k {
                        assert(build_data.history@[start + j] == before[start + j]);
                    }
                }
            }
            k = k + 1;
        }
    }
}

/// A copy of a list of rooms.
fn copy_rooms(v: &Vec<Rect>) -> (r: Vec<Rect>)
    ensures
        r@ == v@,
{
    let mut r: Vec<Rect> = Vec::new();
    let mut i: usize = 0;
    while i < v.len()
        invariant
            i <= v.len(),
            r@ =~= v@.take(i as int),
        decreases v.len() - i,
    {
        r.push(v[i]);
        i = i + 1;
    }
    assert(v@.take(v.len() as int) =~= v@);
    r
}

} // verus!
