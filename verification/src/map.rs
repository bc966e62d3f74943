use std::collections::HashSet;
use vstd::prelude::*;
use crate::tile::{TileType, tile_walkable, tile_opaque, spec_tile_walkable, spec_tile_opaque};

verus! {

broadcast use vstd::std_specs::hash::group_hash_axioms;

/// The tile grid of one dungeon level, stored row by row.
pub struct GameMap {
    pub tiles: Vec<TileType>,
    pub width: i32,
    pub height: i32,
    pub revealed_tiles: Vec<bool>,
    pub visible_tiles: Vec<bool>,
    pub blocked: Vec<bool>,
    pub depth: i32,
    pub view_blocked: HashSet<usize>,
    pub name: String,
    pub outdoors: bool,
    /// Ids of the entities standing on each tile.
    pub tile_content: Vec<Vec<u32>>,
}

/// The row-major index of `(x, y)` in a grid `w` tiles wide.
pub open spec fn idx(w: int, x: int, y: int) -> int {
    y * w + x
}

/// Whether `(x, y)` lies inside a `w` by `h` grid.
pub open spec fn in_grid(w: int, h: int, x: int, y: int) -> bool {
    0 <= x < w && 0 <= y < h
}

/// A cell inside a grid has an index inside the grid's cell count.
pub proof fn lemma_idx_in_bounds(w: int, h: int, x: int, y: int)
    requires
        in_grid(w, h, x, y),
    ensures
        0 <= idx(w, x, y) < w * h,
{
    assert(0 <= y * w) by (nonlinear_arith)
        requires
            0 <= y,
            0 <= w,
    ;
    assert(y * w + x < w * h) by (nonlinear_arith)
        requires
            0 <= x < w,
            0 <= y < h,
    ;
}

/// An index splits back into the column and row it was made from:
/// `xy_index` and the `% width`, `/ width` decomposition undo each other.
pub proof fn lemma_idx_roundtrip(w: int, x: int, y: int)
    requires
        0 <= x < w,
        0 <= y,
    ensures
        idx(w, x, y) % w == x,
        idx(w, x, y) / w == y,
{
    vstd::arithmetic::div_mod::lemma_fundamental_div_mod_converse(idx(w, x, y), w, y, x);
}

/// Distinct cells of a grid have distinct indices.
pub proof fn lemma_idx_injective(w: int, x1: int, y1: int, x2: int, y2: int)
    requires
        0 <= x1 < w,
        0 <= x2 < w,
        0 <= y1,
        0 <= y2,
        idx(w, x1, y1) == idx(w, x2, y2),
    ensures
        x1 == x2,
        y1 == y2,
{
    lemma_idx_roundtrip(w, x1, y1);
    lemma_idx_roundtrip(w, x2, y2);
}

/// Every index in a grid of width `w` is the index of its column and row.
pub proof fn lemma_idx_decompose(w: int, h: int, i: int)
    requires
        0 < w,
        0 <= h,
        0 <= i < w * h,
    ensures
        in_grid(w, h, i % w, i / w),
        idx(w, i % w, i / w) == i,
{
    vstd::arithmetic::div_mod::lemma_fundamental_div_mod(i, w);
    assert(i / w < h) by (nonlinear_arith)
        requires
            0 <= i < w * h,
            0 < w,
            i == w * (i / w) + i % w,
            0 <= i % w < w,
    ;
    assert(0 <= i / w) by (nonlinear_arith)
        requires
            0 <= i,
            0 < w,
    ;
    assert(idx(w, i % w, i / w) == i) by (nonlinear_arith)
        requires
            i == w * (i / w) + i % w,
    ;
}

/// A copy of an index set (`HashSet::clone` of std): std documents a clone of a set as a
/// set with the same elements.
#[verifier::external_body]
fn copy_index_set(s: &HashSet<usize>) -> (r: HashSet<usize>)
    ensures
        r@ == s@,
{
    s.clone()
}

fn copy_flags(v: &Vec<bool>) -> (r: Vec<bool>)
    ensures
        r@ == v@,
{
    let mut r: Vec<bool> = Vec::new();
    let mut i: usize = 0;
    while i < v.len()
        invariant
            i <= v.len(),
            r@ =~= v@.take(i as int),
        decreases v.len() - i,
    {
        r.push(v[i]);
        i = i + 1;
    }
    assert(v@.take(v.len() as int) =~= v@);
    r
}

fn all_set(n: usize) -> (r: Vec<bool>)
    ensures
        r@ == Seq::new(n as nat, |i: int| true),
{
    let mut r: Vec<bool> = Vec::new();
    let mut i: usize = 0;
    while i < n
        invariant
            i <= n,
            r@ =~= Seq::new(i as nat, |j: int| true),
        decreases n - i,
    {
        r.push(true);
        i = i + 1;
    }
    r
}

/// A copy of a list of tiles.
pub fn copy_tiles(v: &Vec<TileType>) -> (r: Vec<TileType>)
    ensures
        r@ == v@,
{
    let mut r: Vec<TileType> = Vec::new();
    let mut i: usize = 0;
    while i < v.len()
        invariant
            i <= v.len(),
            r@ =~= v@.take(i as int),
        decreases v.len() - i,
    {
        r.push(v[i]);
        i = i + 1;
    }
    assert(v@.take(v.len() as int) =~= v@);
    r
}

fn copy_ids(v: &Vec<u32>) -> (r: Vec<u32>)
    ensures
        r@ == v@,
{
    let mut r: Vec<u32> = Vec::new();
    let mut i: usize = 0;
    while i < v.len()
        invariant
            i <= v.len(),
            r@ =~= v@.take(i as int),
        decreases v.len() - i,
    {
        r.push(v[i]);
        i = i + 1;
    }
    assert(v@.take(v.len() as int) =~= v@);
    r
}

fn copy_content(v: &Vec<Vec<u32>>) -> (r: Vec<Vec<u32>>)
    ensures
        r.len() == v.len(),
        forall|i: int| 0 <= i < v.len() ==> (#[trigger] r@[i])@ == v@[i]@,
{
    let mut r: Vec<Vec<u32>> = Vec::new();
    let mut i: usize = 0;
    while i < v.len()
        invariant
            i <= v.len(),
            r.len() == i,
            forall|j: int| 0 <= j < i ==> (#[trigger] r@[j])@ == v@[j]@,
        decreases v.len() - i,
    {
        r.push(copy_ids(&v[i]));
        i = i + 1;
    }
    r
}

/// `s` is `m` as shown in the map-generation history: the same map with every tile revealed.
pub open spec fn is_snapshot_of(s: GameMap, m: GameMap) -> bool {
    &&& s.tiles@ == m.tiles@
    &&& s.width == m.width
    &&& s.height == m.height
    &&& s.revealed_tiles@ == Seq::new(m.revealed_tiles.len() as nat, |i: int| true)
    &&& s.visible_tiles@ == m.visible_tiles@
    &&& s.blocked@ == m.blocked@
    &&& s.depth == m.depth
    &&& s.view_blocked@ == m.view_blocked@
    &&& s.name@ == m.name@
    &&& s.outdoors == m.outdoors
    &&& s.tile_content.len() == m.tile_content.len()
    &&& forall|i: int| 0 <= i < m.tile_content.len() ==> (#[trigger] s.tile_content@[i])@ == m.tile_content@[i]@
}

impl GameMap {
    /// The grid's shape agrees with the length of every per-tile vector.
    pub open spec fn wf(&self) -> bool {
        &&& 0 <= self.width
        &&& 0 <= self.height
        &&& self.width * self.height <= i32::MAX
        &&& self.tiles.len() == self.width * self.height
        &&& self.revealed_tiles.len() == self.tiles.len()
        &&& self.visible_tiles.len() == self.tiles.len()
        &&& self.blocked.len() == self.tiles.len()
        &&& self.tile_content.len() == self.tiles.len()
    }

    /// The fields other than the tiles and the tile flags are those of `other`.
    pub open spec fn same_shape(&self, other: &GameMap) -> bool {
        &&& self.tiles.len() == other.tiles.len()
        &&& self.width == other.width
        &&& self.height == other.height
        &&& self.revealed_tiles.len() == other.revealed_tiles.len()
        &&& self.visible_tiles.len() == other.visible_tiles.len()
        &&& self.blocked.len() == other.blocked.len()
        &&& self.depth == other.depth
        &&& self.view_blocked == other.view_blocked
        &&& self.name == other.name
        &&& self.outdoors == other.outdoors
        &&& self.tile_content == other.tile_content
    }

    /// Only the tiles differ from `other`.
    pub open spec fn same_but_tiles(&self, other: &GameMap) -> bool {
        &&& self.same_shape(other)
        &&& self.revealed_tiles == other.revealed_tiles
        &&& self.visible_tiles == other.visible_tiles
        &&& self.blocked == other.blocked
    }

    /// The tile at `(x, y)`.
    pub open spec fn tile_at(&self, x: int, y: int) -> TileType {
        self.tiles@[idx(self.width as int, x, y)]
    }

    /// Generates an empty map, consisting entirely of solid walls.
    pub fn new(new_depth: i32, width: i32, height: i32, name: &str) -> (m: GameMap)
        requires
            0 <= width,
            0 <= height,
            width * height <= i32::MAX,
        ensures
            m.wf(),
            m.width == width,
            m.height == height,
            m.depth == new_depth,
            m.name@ == name@,
            m.outdoors,
            m.view_blocked@.is_empty(),
            forall|i: int| 0 <= i < m.tiles.len() ==> m.tiles@[i] == TileType::Wall,
            forall|i: int| 0 <= i < m.tiles.len() ==> !m.revealed_tiles@[i],
            forall|i: int| 0 <= i < m.tiles.len() ==> !m.visible_tiles@[i],
            forall|i: int| 0 <= i < m.tiles.len() ==> !m.blocked@[i],
            forall|i: int| 0 <= i < m.tiles.len() ==> m.tile_content@[i]@.len() == 0,
    {
        let map_tile_count = (width * height) as usize;
        let mut tiles: Vec<TileType> = Vec::new();
        let mut revealed_tiles: Vec<bool> = Vec::new();
        let mut visible_tiles: Vec<bool> = Vec::new();
        let mut blocked: Vec<bool> = Vec::new();
        let mut tile_content: Vec<Vec<u32>> = Vec::new();
        let mut i: usize = 0;
        while i < map_tile_count
            invariant
                i <= map_tile_count,
                tiles.len() == i,
                revealed_tiles.len() == i,
                visible_tiles.len() == i,
                blocked.len() == i,
                tile_content.len() == i,
                forall|j: int| 0 <= j < i ==> tiles@[j] == TileType::Wall,
                forall|j: int| 0 <= j < i ==> !revealed_tiles@[j],
                forall|j: int| 0 <= j < i ==> !visible_tiles@[j],
                forall|j: int| 0 <= j < i ==> !blocked@[j],
                forall|j: int| 0 <= j < i ==> tile_content@[j]@.len() == 0,
            decreases map_tile_count - i,
        {
            tiles.push(TileType::Wall);
            revealed_tiles.push(false);
            visible_tiles.push(false);
            blocked.push(false);
            tile_content.push(Vec::new());
            i = i + 1;
        }
        GameMap {
            tiles,
            width,
            height,
            revealed_tiles,
            visible_tiles,
            blocked,
            tile_content,
            depth: new_depth,
            view_blocked: HashSet::new(),
            name: String::from_str(name),
            outdoors: true,
        }
    }

    /// A copy of the map with every tile revealed.
    pub fn snapshot(&self) -> (s: GameMap)
        ensures
            is_snapshot_of(s, *self),
    {
        GameMap {
            tiles: copy_tiles(&self.tiles),
            width: self.width,
            height: self.height,
            revealed_tiles: all_set(self.revealed_tiles.len()),
            visible_tiles: copy_flags(&self.visible_tiles),
            blocked: copy_flags(&self.blocked),
            depth: self.depth,
            view_blocked: copy_index_set(&self.view_blocked),
            name: self.name.clone(),
            outdoors: self.outdoors,
            tile_content: copy_content(&self.tile_content),
        }
    }

    /// The row-major index of the tile at `(x, y)`.
    pub fn xy_index(&self, x: i32, y: i32) -> (r: usize)
        requires
            0 <= x,
            0 <= y,
            0 <= self.width,
            idx(self.width as int, x as int, y as int) <= usize::MAX,
        ensures
            r == idx(self.width as int, x as int, y as int),
    {
        proof {
            assert(0 <= y * self.width) by (nonlinear_arith)
                requires
                    0 <= y,
                    0 <= self.width,
            ;
        }
        (y as usize * self.width as usize) + x as usize
    }

    /// Whether `(x, y)` is an inner cell (not on the top or left border) that is not blocked.
    pub open spec fn spec_exit_valid(&self, x: int, y: int) -> bool {
        if x < 1 || x > self.width - 1 || y < 1 || y > self.height - 1 {
            false
        } else {
            !self.blocked@[idx(self.width as int, x, y)]
        }
    }

    /// Whether a path may step onto `(x, y)`.
    pub fn is_exit_valid(&self, x: i32, y: i32) -> (r: bool)
        requires
            self.wf(),
        ensures
            r == self.spec_exit_valid(x as int, y as int),
    {
        if x < 1 || x > self.width - 1 || y < 1 || y > self.height - 1 {
            return false;
        }
        proof {
            lemma_idx_in_bounds(self.width as int, self.height as int, x as int, y as int);
        }
        let index = self.xy_index(x, y);
        !self.blocked[index]
    }

    /// Marks as blocked exactly the tiles that cannot be walked on.
    pub fn populate_blocked(&mut self)
        requires
            old(self).wf(),
        ensures
            final(self).blocked@ == old(self).tiles@.map_values(
                |t: TileType| !spec_tile_walkable(t),
            ),
            final(self).tiles == old(self).tiles,
            final(self).width == old(self).width,
            final(self).height == old(self).height,
            final(self).revealed_tiles == old(self).revealed_tiles,
            final(self).visible_tiles == old(self).visible_tiles,
            final(self).depth == old(self).depth,
            final(self).view_blocked == old(self).view_blocked,
            final(self).name == old(self).name,
            final(self).outdoors == old(self).outdoors,
            final(self).tile_content == old(self).tile_content,
            final(self).wf(),
    {
        let n = self.tiles.len();
        let mut i: usize = 0;
        while i < n
            invariant
                n == self.tiles.len(),
                self.blocked.len() == n,
                self.tiles == old(self).tiles,
                self.width == old(self).width,
                self.height == old(self).height,
                self.revealed_tiles == old(self).revealed_tiles,
                self.visible_tiles == old(self).visible_tiles,
                self.depth == old(self).depth,
                self.view_blocked == old(self).view_blocked,
                self.name == old(self).name,
                self.outdoors == old(self).outdoors,
                self.tile_content == old(self).tile_content,
                i <= n,
                forall|j: int| 0 <= j < i ==> self.blocked@[j] == !spec_tile_walkable(self.tiles@[j]),
            decreases n - i,
        {
            let walkable = tile_walkable(self.tiles[i]);
            self.blocked.set(i, !walkable);
            i = i + 1;
        }
        assert(self.blocked@ =~= old(self).tiles@.map_values(|t: TileType| !spec_tile_walkable(t)));
    }

    /// Empties the list of entities on every tile.
    pub fn clear_content_index(&mut self)
        ensures
            final(self).tile_content.len() == old(self).tile_content.len(),
            forall|i: int|
                0 <= i < final(self).tile_content.len() ==> final(self).tile_content@[i]@.len()
                    == 0,
            final(self).tiles == old(self).tiles,
            final(self).width == old(self).width,
            final(self).height == old(self).height,
            final(self).revealed_tiles == old(self).revealed_tiles,
            final(self).visible_tiles == old(self).visible_tiles,
            final(self).blocked == old(self).blocked,
            final(self).depth == old(self).depth,
            final(self).view_blocked == old(self).view_blocked,
            final(self).name == old(self).name,
            final(self).outdoors == old(self).outdoors,
    {
        let n = self.tile_content.len();
        let mut i: usize = 0;
        while i < n
            invariant
                n == self.tile_content.len(),
                self.tiles == old(self).tiles,
                self.width == old(self).width,
                self.height == old(self).height,
                self.revealed_tiles == old(self).revealed_tiles,
                self.visible_tiles == old(self).visible_tiles,
                self.blocked == old(self).blocked,
                self.depth == old(self).depth,
                self.view_blocked == old(self).view_blocked,
                self.name == old(self).name,
                self.outdoors == old(self).outdoors,
                i <= n,
                forall|j: int| 0 <= j < i ==> self.tile_content@[j]@.len() == 0,
            decreases n - i,
        {
            self.tile_content.set(i, Vec::new());
            i = i + 1;
        }
    }

    /// Whether the tile at `index` blocks vision; indices outside `1..tiles.len()` always do.
    pub fn is_opaque(&self, index: usize) -> (r: bool)
        ensures
            r == if 0 < index < self.tiles.len() {
                spec_tile_opaque(self.tiles@[index as int]) || self.view_blocked@.contains(index)
            } else {
                true
            },
    {
        if index > 0 && index < self.tiles.len() {
            tile_opaque(self.tiles[index]) || self.view_blocked.contains(&index)
        } else {
            true
        }
    }
    /// The neighbours of `index` (with its column `x` and row `y`) that a path may step onto,
    /// in the order: west, east, north, south, north-west, north-east, south-west, south-east.
    /// Each comes with whether the step is diagonal.
    pub open spec fn spec_available_exits(&self, index: int, x: int, y: int) -> Seq<(usize, bool)> {
        let w = self.width as int;
        let s0 = Seq::<(usize, bool)>::empty();
        let s1 = if self.spec_exit_valid(x - 1, y) { s0.push(((index - 1) as usize, false)) } else { s0 };
        let s2 = if self.spec_exit_valid(x + 1, y) { s1.push(((index + 1) as usize, false)) } else { s1 };
        let s3 = if self.spec_exit_valid(x, y - 1) { s2.push(((index - w) as usize, false)) } else { s2 };
        let s4 = if self.spec_exit_valid(x, y + 1) { s3.push(((index + w) as usize, false)) } else { s3 };
        let s5 = if self.spec_exit_valid(x - 1, y - 1) { s4.push(((index - w - 1) as usize, true)) } else { s4 };
        let s6 = if self.spec_exit_valid(x + 1, y - 1) { s5.push(((index - w + 1) as usize, true)) } else { s5 };
        let s7 = if self.spec_exit_valid(x - 1, y + 1) { s6.push(((index + w - 1) as usize, true)) } else { s6 };
        if self.spec_exit_valid(x + 1, y + 1) { s7.push(((index + w + 1) as usize, true)) } else { s7 }
    }

    /// The tiles a path may step to from `index`, each with whether the step is diagonal.
    /// The cost of a step is the cost of the tile stepped from, times 1.45 for a diagonal.
    pub fn available_exits(&self, index: usize) -> (exits: Vec<(usize, bool)>)
        requires
            self.wf(),
            index < self.tiles.len(),
        ensures
            exits@ == self.spec_available_exits(
                index as int,
                index as int % self.width as int,
                index as int / self.width as int,
            ),
    {
        let ghost w = self.width as int;
        let ghost h = self.height as int;
        proof {
            lemma_idx_decompose(w, h, index as int);
        }
        let x = index as i32 % self.width;
        let y = index as i32 / self.width;
        let wu = self.width as usize;
        let mut exits: Vec<(usize, bool)> = Vec::new();
        let ghost ix = index as int;
        // In-range neighbours have in-range indices.
        proof {
            assert(idx(w, x - 1, y as int) == ix - 1);
            assert(idx(w, x + 1, y as int) == ix + 1);
            assert(idx(w, x as int, y - 1) == ix - w) by (nonlinear_arith)
                requires ix == y * w + x;
            assert(idx(w, x as int, y + 1) == ix + w) by (nonlinear_arith)
                requires ix == y * w + x;
            assert(idx(w, x - 1, y - 1) == ix - w - 1) by (nonlinear_arith)
                requires ix == y * w + x;
            assert(idx(w, x + 1, y - 1) == ix - w + 1) by (nonlinear_arith)
                requires ix == y * w + x;
            assert(idx(w, x - 1, y + 1) == ix + w - 1) by (nonlinear_arith)
                requires ix == y * w + x;
            assert(idx(w, x + 1, y + 1) == ix + w + 1) by (nonlinear_arith)
                requires ix == y * w + x;
        }
        if self.is_exit_valid(x - 1, y) {
            proof { lemma_idx_in_bounds(w, h, x - 1, y as int); }
            exits.push((index - 1, false));
        }
        if self.is_exit_valid(x + 1, y) {
            proof { lemma_idx_in_bounds(w, h, x + 1, y as int); }
            exits.push((index + 1, false));
        }
        if self.is_exit_valid(x, y - 1) {
            proof { lemma_idx_in_bounds(w, h, x as int, y - 1); }
            exits.push((index - wu, false));
        }
        if self.is_exit_valid(x, y + 1) {
            proof { lemma_idx_in_bounds(w, h, x as int, y + 1); }
            exits.push((index + wu, false));
        }
        if self.is_exit_valid(x - 1, y - 1) {
            proof { lemma_idx_in_bounds(w, h, x - 1, y - 1); }
            exits.push(((index - wu) - 1, true));
        }
        if self.is_exit_valid(x + 1, y - 1) {
            proof { lemma_idx_in_bounds(w, h, x + 1, y - 1); }
            exits.push(((index - wu) + 1, true));
        }
        if self.is_exit_valid(x - 1, y + 1) {
            proof { lemma_idx_in_bounds(w, h, x - 1, y + 1); }
            exits.push(((index + wu) - 1, true));
        }
        if self.is_exit_valid(x + 1, y + 1) {
            proof { lemma_idx_in_bounds(w, h, x + 1, y + 1); }
            exits.push(((index + wu) + 1, true));
        }
        exits
    }
}

} // verus!
