use vstd::prelude::*;
use crate::tile::TileType;
use crate::map::{GameMap, idx, in_grid, lemma_idx_in_bounds, lemma_idx_roundtrip, lemma_idx_injective};

verus! {

/// A square pattern cut out of a map, with the edge cells through which it can be
/// entered and the patterns that may stand next to it on each side
/// (0: north, 1: south, 2: west, 3: east).
#[derive(PartialEq, Eq, Hash, Clone)]
pub struct MapChunk {
    pub pattern: Vec<TileType>,
    pub exits: [Vec<bool>; 4],
    pub has_exits: bool,
    pub compatible_with: [Vec<usize>; 4],
}

/// The index of cell `(x, y)` inside a square chunk `chunk_size` cells wide.
pub fn tile_index_in_chunk(chunk_size: i32, x: i32, y: i32) -> (r: usize)
    requires
        i32::MIN <= y * chunk_size <= i32::MAX,
        i32::MIN <= y * chunk_size + x <= i32::MAX,
    ensures
        r == (y * chunk_size + x) as usize,
{
    ((y * chunk_size) + x) as usize
}

/// The cell of a chunk that holds slot `x` of the edge facing `direction`.
pub open spec fn edge_index(cs: int, direction: int, x: int) -> int {
    if direction == 0 {
        x
    } else if direction == 1 {
        (cs - 1) * cs + x
    } else if direction == 2 {
        x * cs
    } else {
        x * cs + cs - 1
    }
}

/// Which slots of the edge facing `direction` are floor.
pub open spec fn spec_exits(pattern: Seq<TileType>, cs: int, direction: int) -> Seq<bool> {
    Seq::new(
        if cs > 0 { cs as nat } else { 0 },
        |x: int| pattern[edge_index(cs, direction, x)] == TileType::Floor,
    )
}

/// Whether any edge of the pattern holds a floor cell.
pub open spec fn spec_has_exits(pattern: Seq<TileType>, cs: int) -> bool {
    exists|d: int, x: int|
        0 <= d < 4 && 0 <= x < cs && #[trigger] pattern[edge_index(cs, d, x)] == TileType::Floor
}

/// The side that faces `direction`.
pub open spec fn opposite(direction: int) -> int {
    if direction == 0 {
        1
    } else if direction == 1 {
        0
    } else if direction == 2 {
        3
    } else {
        2
    }
}

/// Some slot is open on both edges.
pub open spec fn edges_fit(mine: Seq<bool>, theirs: Seq<bool>) -> bool {
    exists|s: int| 0 <= s < mine.len() && #[trigger] mine[s] && theirs[s]
}

pub open spec fn any_open(edge: Seq<bool>) -> bool {
    exists|s: int| 0 <= s < edge.len() && #[trigger] edge[s]
}

/// Whether `other` may be placed on the `direction` side of `c`: always when either
/// has no exits; otherwise when some exit of `c` on that side meets an exit of `other`,
/// or, if `c` has no exit on that side, when the facing edge of `other` has no exit either.
pub open spec fn compatible(c: MapChunk, other: MapChunk, direction: int) -> bool {
    if !c.has_exits || !other.has_exits {
        true
    } else if any_open(c.exits[direction]@) {
        edges_fit(c.exits[direction]@, other.exits[opposite(direction)]@)
    } else {
        !any_open(other.exits[opposite(direction)]@)
    }
}

/// The indices among the first `k` chunks that may stand on the `direction` side of `c`,
/// in increasing order.
pub open spec fn compat_list(chunks: Seq<MapChunk>, c: MapChunk, direction: int, k: int) -> Seq<usize>
    decreases k,
{
    if k <= 0 {
        Seq::empty()
    } else {
        let prev = compat_list(chunks, c, direction, k - 1);
        if compatible(c, chunks[k - 1], direction) {
            prev.push((k - 1) as usize)
        } else {
            prev
        }
    }
}

/// `compat_list` only looks at the exits of the chunks it compares.
proof fn lemma_compat_list_congruent(a: Seq<MapChunk>, b: Seq<MapChunk>, c1: MapChunk, c2: MapChunk, d: int, k: int)
    requires
        k <= a.len(),
        k <= b.len(),
        forall|j: int| 0 <= j < k ==> (#[trigger] a[j]).exits == b[j].exits && a[j].has_exits == b[j].has_exits,
        c1.exits == c2.exits,
        c1.has_exits == c2.has_exits,
    ensures
        compat_list(a, c1, d, k) == compat_list(b, c2, d, k),
    decreases k,
{
    if k > 0 {
        lemma_compat_list_congruent(a, b, c1, c2, d, k - 1);
        assert(a[k - 1].exits == b[k - 1].exits);
    }
}

/// Whether the chunk's exits and exit flag are those read off its pattern.
pub open spec fn exits_read_from(c: MapChunk, cs: int) -> bool {
    &&& forall|d: int| 0 <= d < 4 ==> #[trigger] c.exits[d]@ == spec_exits(c.pattern@, cs, d)
    &&& c.has_exits == spec_has_exits(c.pattern@, cs)
}

/// Reads the open slots of one edge of a pattern.
fn read_edge(pattern: &Vec<TileType>, chunk_size: i32, direction: usize) -> (edge: Vec<bool>)
    requires
        0 < chunk_size,
        chunk_size * chunk_size <= i32::MAX,
        chunk_size * chunk_size <= pattern.len(),
        direction < 4,
    ensures
        edge@ == spec_exits(pattern@, chunk_size as int, direction as int),
{
    let mut edge: Vec<bool> = Vec::new();
    let mut x: i32 = 0;
    let ghost cs = chunk_size as int;
    while x < chunk_size
        invariant
            0 < cs == chunk_size,
            cs * cs <= i32::MAX,
            cs * cs <= pattern.len(),
            direction < 4,
            0 <= x <= chunk_size,
            edge@ =~= spec_exits(pattern@, cs, direction as int).take(x as int),
        decreases chunk_size - x,
    {
        proof {
            assert(0 <= (cs - 1) * cs + x < cs * cs) by (nonlinear_arith)
                requires 0 <= x < cs;
            assert(0 <= x * cs && x * cs + cs - 1 < cs * cs) by (nonlinear_arith)
                requires 0 <= x < cs;
        }
        let index = if direction == 0 {
            tile_index_in_chunk(chunk_size, x, 0)
        } else if direction == 1 {
            tile_index_in_chunk(chunk_size, x, chunk_size - 1)
        } else if direction == 2 {
            tile_index_in_chunk(chunk_size, 0, x)
        } else {
            tile_index_in_chunk(chunk_size, chunk_size - 1, x)
        };
        assert(index as int == edge_index(cs, direction as int, x as int)) by (nonlinear_arith)
            requires
                direction == 0 ==> index == x,
                direction == 1 ==> index == (cs - 1) * cs + x,
                direction == 2 ==> index == x * cs,
                direction == 3 ==> index == (cs - 1) + x * cs,
                direction < 4,
        ;
        edge.push(pattern[index] == TileType::Floor);
        x = x + 1;
    }
    edge
}

/// Extending an edge by one slot.
proof fn lemma_edge_push(t: Seq<bool>, e: bool, facing: Seq<bool>)
    requires
        t.len() < facing.len(),
    ensures
        any_open(t.push(e)) == (any_open(t) || e),
        edges_fit(t.push(e), facing) == (edges_fit(t, facing) || (e && facing[t.len() as int])),
{
    let t1 = t.push(e);
    if any_open(t) {
        let s = choose|s: int| 0 <= s < t.len() && #[trigger] t[s];
        assert(t1[s]);
    }
    if e {
        assert(t1[t.len() as int]);
    }
    if any_open(t1) && !e {
        let s = choose|s: int| 0 <= s < t1.len() && #[trigger] t1[s];
        assert(t[s]);
    }
    if edges_fit(t, facing) {
        let s = choose|s: int| 0 <= s < t.len() && #[trigger] t[s] && facing[s];
        assert(t1[s]);
    }
    if e && facing[t.len() as int] {
        assert(t1[t.len() as int]);
    }
    if edges_fit(t1, facing) && !(e && facing[t.len() as int]) {
        let s = choose|s: int| 0 <= s < t1.len() && #[trigger] t1[s] && facing[s];
        assert(t[s]);
    }
}

/// Whether any slot of an edge is open.
fn any_true(edge: &Vec<bool>) -> (r: bool)
    ensures
        r == any_open(edge@),
{
    let mut i: usize = 0;
    while i < edge.len()
        invariant
            i <= edge.len(),
            forall|s: int| 0 <= s < i ==> !edge@[s],
        decreases edge.len() - i,
    {
        if edge[i] {
            return true;
        }
        i = i + 1;
    }
    false
}

/// Reads a chunk's exits off its pattern; it starts compatible with nothing.
fn chunk_from_pattern(pattern: Vec<TileType>, chunk_size: i32) -> (c: MapChunk)
    requires
        chunk_size * chunk_size <= i32::MAX,
        chunk_size > 0 ==> chunk_size * chunk_size <= pattern.len(),
    ensures
        c.pattern == pattern,
        exits_read_from(c, chunk_size as int),
        forall|d: int| 0 <= d < 4 ==> #[trigger] c.compatible_with[d]@.len() == 0,
{
    if chunk_size <= 0 {
        let c = MapChunk {
            pattern,
            exits: [Vec::new(), Vec::new(), Vec::new(), Vec::new()],
            has_exits: false,
            compatible_with: [Vec::new(), Vec::new(), Vec::new(), Vec::new()],
        };
        assert forall|d: int| 0 <= d < 4 implies #[trigger] c.exits[d]@ == spec_exits(c.pattern@, chunk_size as int, d) by {
            assert(c.exits[d]@ =~= spec_exits(c.pattern@, chunk_size as int, d));
        }
        return c;
    }
    let north = read_edge(&pattern, chunk_size, 0);
    let south = read_edge(&pattern, chunk_size, 1);
    let west = read_edge(&pattern, chunk_size, 2);
    let east = read_edge(&pattern, chunk_size, 3);
    let has_exits = any_true(&north) || any_true(&south) || any_true(&west) || any_true(&east);
    let ghost cs = chunk_size as int;
    proof {
        let p = pattern@;
        if has_exits {
            let e = if any_open(north@) { north@ } else if any_open(south@) { south@ }
                else if any_open(west@) { west@ } else { east@ };
            let d: int = if any_open(north@) { 0 } else if any_open(south@) { 1 }
                else if any_open(west@) { 2 } else { 3 };
            let x = choose|x: int| 0 <= x < e.len() && #[trigger] e[x];
            assert(p[edge_index(cs, d, x)] == TileType::Floor);
        }
        if spec_has_exits(p, cs) {
            let (d, x) = choose|d: int, x: int|
                0 <= d < 4 && 0 <= x < cs && #[trigger] p[edge_index(cs, d, x)] == TileType::Floor;
            if d == 0 { assert(north@[x]); }
            else if d == 1 { assert(south@[x]); }
            else if d == 2 { assert(west@[x]); }
            else { assert(east@[x]); }
        }
    }
    MapChunk {
        pattern,
        exits: [north, south, west, east],
        has_exits,
        compatible_with: [Vec::new(), Vec::new(), Vec::new(), Vec::new()],
    }
}

/// Whether `other` may stand on the `direction` side of `c`.
fn chunk_compatible(c: &MapChunk, other: &MapChunk, direction: usize) -> (r: bool)
    requires
        direction < 4,
        c.exits[direction as int]@.len() <= other.exits[opposite(direction as int)]@.len(),
    ensures
        r == compatible(*c, *other, direction as int),
{
    if !c.has_exits || !other.has_exits {
        return true;
    }
    let opposite: usize = if direction == 0 {
        1
    } else if direction == 1 {
        0
    } else if direction == 2 {
        3
    } else {
        2
    };
    let exit_list = &c.exits[direction];
    let facing = &other.exits[opposite];
    let mut it_fits = false;
    let mut has_any = false;
    let mut slot: usize = 0;
    while slot < exit_list.len()
        invariant
            exit_list.len() <= facing.len(),
            slot <= exit_list.len(),
            has_any == any_open(exit_list@.take(slot as int)),
            it_fits == edges_fit(exit_list@.take(slot as int), facing@),
        decreases exit_list.len() - slot,
    {
        proof {
            lemma_edge_push(exit_list@.take(slot as int), exit_list@[slot as int], facing@);
            assert(exit_list@.take(slot + 1) =~= exit_list@.take(slot as int).push(exit_list@[slot as int]));
        }
        if exit_list[slot] {
            has_any = true;
            if facing[slot] {
                it_fits = true;
            }
        }
        slot = slot + 1;
    }
    assert(exit_list@.take(exit_list.len() as int) =~= exit_list@);
    if has_any {
        it_fits
    } else {
        // There are no exits on this side: match only if the other edge has none either.
        !any_true(facing)
    }
}

/// The indices of all chunks that may stand on the `direction` side of `c`.
fn compatible_indices(c: &MapChunk, chunks: &Vec<MapChunk>, direction: usize, chunk_size: Ghost<int>) -> (r: Vec<usize>)
    requires
        direction < 4,
        exits_read_from(*c, chunk_size@),
        forall|j: int| 0 <= j < chunks.len() ==> exits_read_from(#[trigger] chunks@[j], chunk_size@),
    ensures
        r@ == compat_list(chunks@, *c, direction as int, chunks.len() as int),
{
    let mut r: Vec<usize> = Vec::new();
    let mut j: usize = 0;
    while j < chunks.len()
        invariant
            direction < 4,
            exits_read_from(*c, chunk_size@),
            forall|j: int| 0 <= j < chunks.len() ==> exits_read_from(#[trigger] chunks@[j], chunk_size@),
            j <= chunks.len(),
            r@ == compat_list(chunks@, *c, direction as int, j as int),
        decreases chunks.len() - j,
    {
        let ghost other = chunks@[j as int];
        assert(exits_read_from(other, chunk_size@));
        assert(c.exits[direction as int]@.len() == other.exits[opposite(direction as int)]@.len());
        if chunk_compatible(c, &chunks[j], direction) {
            r.push(j);
        }
        j = j + 1;
    }
    r
}

/// Turns patterns into chunks: reads each pattern's exits (an edge cell is an exit when it
/// is floor) and records, for each side, which chunks may be placed next to it.
pub fn patterns_to_constraints(patterns: Vec<Vec<TileType>>, chunk_size: i32) -> (constraints: Vec<MapChunk>)
    requires
        chunk_size * chunk_size <= i32::MAX,
        chunk_size > 0 ==> forall|i: int|
            0 <= i < patterns.len() ==> chunk_size * chunk_size <= #[trigger] patterns@[i].len(),
    ensures
        constraints.len() == patterns.len(),
        forall|i: int| 0 <= i < constraints.len() ==> #[trigger] constraints@[i].pattern == patterns@[i],
        forall|i: int| 0 <= i < constraints.len() ==> exits_read_from(#[trigger] constraints@[i], chunk_size as int),
        forall|i: int, d: int|
            0 <= i < constraints.len() && 0 <= d < 4 ==> #[trigger] constraints@[i].compatible_with[d]@
                == compat_list(constraints@, constraints@[i], d, constraints.len() as int),
{
    let n = patterns.len();
    let mut rest = patterns;
    let mut chunks: Vec<MapChunk> = Vec::new();
    let mut i: usize = 0;
    while i < n
        invariant
            n == patterns.len(),
            i <= n,
            chunk_size * chunk_size <= i32::MAX,
            chunk_size > 0 ==> forall|i: int|
                0 <= i < patterns.len() ==> chunk_size * chunk_size <= #[trigger] patterns@[i].len(),
            rest@ == patterns@.skip(i as int),
            chunks.len() == i,
            forall|k: int| 0 <= k < i ==> #[trigger] chunks@[k].pattern == patterns@[k],
            forall|k: int| 0 <= k < i ==> exits_read_from(#[trigger] chunks@[k], chunk_size as int),
        decreases n - i,
    {
        assert(rest@[0] == patterns@[i as int]);
        let p = rest.remove(0);
        assert(rest@ =~= patterns@.skip(i + 1));
        let c = chunk_from_pattern(p, chunk_size);
        chunks.push(c);
        i = i + 1;
    }

    // Build the compatibility matrix.
    let mut compat: Vec<[Vec<usize>; 4]> = Vec::new();
    let mut ci: usize = 0;
    while ci < n
        invariant
            chunks.len() == n,
            ci <= n,
            forall|k: int| 0 <= k < n ==> exits_read_from(#[trigger] chunks@[k], chunk_size as int),
            compat.len() == ci,
            forall|k: int, d: int| 0 <= k < ci && 0 <= d < 4 ==> #[trigger] compat@[k][d]@
                == compat_list(chunks@, chunks@[k], d, n as int),
        decreases n - ci,
    {
        let c = &chunks[ci];
        let g = Ghost(chunk_size as int);
        let a0 = compatible_indices(c, &chunks, 0, g);
        let a1 = compatible_indices(c, &chunks, 1, g);
        let a2 = compatible_indices(c, &chunks, 2, g);
        let a3 = compatible_indices(c, &chunks, 3, g);
        compat.push([a0, a1, a2, a3]);
        proof {
            assert forall|k: int, d: int| 0 <= k < ci + 1 && 0 <= d < 4 implies #[trigger] compat@[k][d]@
                == compat_list(chunks@, chunks@[k], d, n as int) by {
                if k == ci {
                    if d == 0 {} else if d == 1 {} else if d == 2 {} else {}
                }
            }
        }
        ci = ci + 1;
    }

    // Attach each chunk's compatibility lists.
    let ghost read = chunks@;
    let mut constraints: Vec<MapChunk> = Vec::new();
    let mut k: usize = 0;
    while k < n
        invariant
            k <= n,
            read.len() == n,
            chunks@ == read.skip(k as int),
            compat.len() == n - k,
            forall|m: int| 0 <= m < n ==> exits_read_from(#[trigger] read[m], chunk_size as int),
            forall|m: int| 0 <= m < n ==> #[trigger] read[m].pattern == patterns@[m],
            forall|m: int, d: int| 0 <= m < n - k && 0 <= d < 4 ==> #[trigger] compat@[m][d]@
                == compat_list(read, read[m + k], d, n as int),
            constraints.len() == k,
            forall|m: int| 0 <= m < k ==> (#[trigger] constraints@[m]).pattern == read[m].pattern
                && constraints@[m].exits == read[m].exits
                && constraints@[m].has_exits == read[m].has_exits,
            forall|m: int, d: int| 0 <= m < k && 0 <= d < 4 ==> #[trigger] constraints@[m].compatible_with[d]@
                == compat_list(read, read[m], d, n as int),
        decreases n - k,
    {
        let ghost old_compat = compat@;
        assert forall|d: int| 0 <= d < 4 implies #[trigger] compat@[0][d]@
            == compat_list(read, read[k as int], d, n as int) by {}
        let c = chunks.remove(0);
        let lists = compat.remove(0);
        assert(chunks@ =~= read.skip(k + 1));
        proof {
            assert forall|m: int, d: int| 0 <= m < n - (k + 1) && 0 <= d < 4 implies #[trigger] compat@[m][d]@
                == compat_list(read, read[m + k + 1], d, n as int) by {
                assert(compat@[m] == old_compat[m + 1]);
            }
            assert(c == read[k as int]);
            assert(lists == old_compat[0]);
        }
        let ghost old_cons = constraints@;
        constraints.push(MapChunk {
            pattern: c.pattern,
            exits: c.exits,
            has_exits: c.has_exits,
            compatible_with: lists,
        });
        proof {
            assert forall|m: int, d: int| 0 <= m < k + 1 && 0 <= d < 4 implies #[trigger] constraints@[m].compatible_with[d]@
                == compat_list(read, read[m], d, n as int) by {
                if m == k {
                    assert(old_compat[0][d]@ == compat_list(read, read[k as int], d, n as int));
                } else {
                    assert(constraints@[m] == old_cons[m]);
                    assert(old_cons[m].compatible_with[d]@ == compat_list(read, read[m], d, n as int));
                }
            }
        }
        k = k + 1;
    }
    proof {
        assert forall|m: int, d: int| 0 <= m < n && 0 <= d < 4 implies #[trigger] constraints@[m].compatible_with[d]@
            == compat_list(constraints@, constraints@[m], d, n as int) by {
            lemma_compat_list_congruent(read, constraints@, read[m], constraints@[m], d, n as int);
        }
    }
    constraints
}

/// The pattern of the chunk in column `cx`, row `cy` of the chunk grid, read row by row,
/// mirrored left-right when `flip_x` and top-bottom when `flip_y`.
pub open spec fn chunk_pattern(m: GameMap, cs: int, cx: int, cy: int, flip_x: bool, flip_y: bool) -> Seq<TileType> {
    Seq::new(
        (cs * cs) as nat,
        |k: int|
            {
                let lx = k % cs;
                let ly = k / cs;
                let x = if flip_x { cx * cs + cs - 1 - lx } else { cx * cs + lx };
                let y = if flip_y { cy * cs + cs - 1 - ly } else { cy * cs + ly };
                m.tiles@[idx(m.width as int, x, y)]
            },
    )
}

/// The patterns contributed by one chunk: the chunk itself, then, with flipping, its
/// left-right mirror, its top-bottom mirror and both mirrors.
pub open spec fn chunk_variants(m: GameMap, cs: int, cx: int, cy: int, flip: bool) -> Seq<Seq<TileType>> {
    let p = chunk_pattern(m, cs, cx, cy, false, false);
    if flip {
        seq![
            p,
            chunk_pattern(m, cs, cx, cy, true, false),
            chunk_pattern(m, cs, cx, cy, false, true),
            chunk_pattern(m, cs, cx, cy, true, true),
        ]
    } else {
        seq![p]
    }
}

/// The patterns of the first `count` chunks, taking chunks row by row in a grid `nx` chunks wide.
pub open spec fn chunk_sequence(m: GameMap, cs: int, flip: bool, nx: int, count: int) -> Seq<Seq<TileType>>
    decreases count,
{
    if count <= 0 || nx <= 0 {
        Seq::empty()
    } else {
        chunk_sequence(m, cs, flip, nx, count - 1) + chunk_variants(m, cs, (count - 1) % nx, (count - 1) / nx, flip)
    }
}

/// Reads one chunk of the map, possibly mirrored.
fn read_chunk(map: &GameMap, chunk_size: i32, cx: i32, cy: i32, flip_x: bool, flip_y: bool) -> (pattern: Vec<TileType>)
    requires
        map.wf(),
        0 < chunk_size,
        0 <= cx,
        0 <= cy,
        (cx + 1) * chunk_size <= map.width,
        (cy + 1) * chunk_size <= map.height,
    ensures
        pattern@ == chunk_pattern(*map, chunk_size as int, cx as int, cy as int, flip_x, flip_y),
{
    let ghost cs = chunk_size as int;
    let ghost w = map.width as int;
    let ghost h = map.height as int;
    proof {
        assert(cs * cs <= w * h) by (nonlinear_arith)
            requires 0 < cs, 0 <= cx, 0 <= cy, (cx + 1) * cs <= w, (cy + 1) * cs <= h;
        assert(0 <= cx * cs && 0 <= cy * cs) by (nonlinear_arith)
            requires 0 < cs, 0 <= cx, 0 <= cy;
        assert(cx * cs + cs == (cx + 1) * cs && cy * cs + cs == (cy + 1) * cs) by (nonlinear_arith);
    }
    let start_x = cx * chunk_size;
    let start_y = cy * chunk_size;
    let mut pattern: Vec<TileType> = Vec::new();
    let mut ly: i32 = 0;
    while ly < chunk_size
        invariant
            map.wf(),
            0 < cs == chunk_size,
            w == map.width,
            h == map.height,
            start_x == cx * cs,
            start_y == cy * cs,
            0 <= start_x,
            0 <= start_y,
            start_x + cs <= w,
            start_y + cs <= h,
            cs * cs <= w * h,
            0 <= ly <= chunk_size,
            pattern@ =~= chunk_pattern(*map, cs, cx as int, cy as int, flip_x, flip_y).take(ly * cs),
        decreases chunk_size - ly,
    {
        let mut lx: i32 = 0;
        while lx < chunk_size
            invariant
                map.wf(),
                0 < cs == chunk_size,
                w == map.width,
                h == map.height,
                start_x == cx * cs,
                start_y == cy * cs,
                0 <= start_x,
                0 <= start_y,
                start_x + cs <= w,
                start_y + cs <= h,
                cs * cs <= w * h,
                0 <= ly < chunk_size,
                0 <= lx <= chunk_size,
                pattern@ =~= chunk_pattern(*map, cs, cx as int, cy as int, flip_x, flip_y).take(ly * cs + lx),
            decreases chunk_size - lx,
        {
            let x = if flip_x { start_x + chunk_size - 1 - lx } else { start_x + lx };
            let y = if flip_y { start_y + chunk_size - 1 - ly } else { start_y + ly };
            proof {
                lemma_idx_in_bounds(w, h, x as int, y as int);
                lemma_idx_roundtrip(cs, lx as int, ly as int);
                assert(0 <= ly * cs + lx < cs * cs) by (nonlinear_arith)
                    requires 0 <= lx < cs, 0 <= ly < cs;
                assert(ly * cs + lx == idx(cs, lx as int, ly as int));
            }
            let index = map.xy_index(x, y);
            pattern.push(map.tiles[index]);
            lx = lx + 1;
        }
        assert(ly * cs + cs == (ly + 1) * cs) by (nonlinear_arith);
        ly = ly + 1;
    }
    assert(chunk_size * chunk_size == cs * cs);
    pattern
}

/// Whether two patterns hold the same tiles.
fn same_pattern(a: &Vec<TileType>, b: &Vec<TileType>) -> (r: bool)
    ensures
        r == (a@ == b@),
{
    if a.len() != b.len() {
        return false;
    }
    let mut i: usize = 0;
    while i < a.len()
        invariant
            a.len() == b.len(),
            i <= a.len(),
            forall|j: int| 0 <= j < i ==> a@[j] == b@[j],
        decreases a.len() - i,
    {
        if a[i] != b[i] {
            return false;
        }
        i = i + 1;
    }
    assert(a@ =~= b@);
    true
}

/// The tile contents of a list of patterns.
pub open spec fn pattern_views(ps: Seq<Vec<TileType>>) -> Seq<Seq<TileType>> {
    ps.map_values(|p: Vec<TileType>| p@)
}

/// Keeps one copy of each distinct pattern.
fn dedupe_patterns(patterns: Vec<Vec<TileType>>) -> (r: Vec<Vec<TileType>>)
    ensures
        pattern_views(r@).no_duplicates(),
        pattern_views(r@).to_set() == pattern_views(patterns@).to_set(),
{
    let n = patterns.len();
    let mut rest = patterns;
    let mut r: Vec<Vec<TileType>> = Vec::new();
    let mut i: usize = 0;
    while i < n
        invariant
            n == patterns.len(),
            i <= n,
            rest@ == patterns@.skip(i as int),
            pattern_views(r@).no_duplicates(),
            pattern_views(r@).to_set() == pattern_views(patterns@.take(i as int)).to_set(),
        decreases n - i,
    {
        let ghost before = r@;
        let p = rest.remove(0);
        assert(p == patterns@[i as int]);
        assert(rest@ =~= patterns@.skip(i + 1));
        let mut found = false;
        let mut k: usize = 0;
        while k < r.len()
            invariant
                k <= r.len(),
                found == exists|j: int| 0 <= j < k && (#[trigger] r@[j])@ == p@,
            decreases r.len() - k,
        {
            if same_pattern(&r[k], &p) {
                found = true;
            }
            k = k + 1;
        }
        let ghost pv = p@;
        assert(pattern_views(patterns@.take(i + 1)) =~= pattern_views(patterns@.take(i as int)).push(pv));
        if !found {
            r.push(p);
            assert(pattern_views(r@) =~= pattern_views(before).push(pv));
            proof {
                assert forall|a: int, b: int| 0 <= a < b < pattern_views(r@).len() implies pattern_views(r@)[a] != pattern_views(r@)[b] by {
                    if b == before.len() {
                        assert(before[a]@ == pattern_views(before)[a]);
                    } else {
                        assert(pattern_views(before)[a] == pattern_views(r@)[a]);
                        assert(pattern_views(before)[b] == pattern_views(r@)[b]);
                    }
                }
                pattern_views(before).lemma_push_to_set_commute(pv);
                pattern_views(patterns@.take(i as int)).lemma_push_to_set_commute(pv);
            }
        } else {
            proof {
                let j = choose|j: int| 0 <= j < r.len() && (#[trigger] r@[j])@ == p@;
                assert(pattern_views(r@)[j] == pv);
                assert(pattern_views(r@).to_set().contains(pv));
                pattern_views(patterns@.take(i as int)).lemma_push_to_set_commute(pv);
                assert(pattern_views(r@).to_set() =~= pattern_views(r@).to_set().insert(pv));
            }
        }
        i = i + 1;
    }
    assert(patterns@.take(n as int) =~= patterns@);
    r
}

/// Cuts the map into `chunk_size` squares (whole squares only, row by row) and returns
/// their patterns, each followed by its mirror images when `include_flipping`.
/// With `dedupe`, each distinct pattern is kept once, in no promised order.
pub fn build_patterns(map: &GameMap, chunk_size: i32, include_flipping: bool, dedupe: bool) -> (patterns: Vec<Vec<TileType>>)
    requires
        map.wf(),
        chunk_size != 0,
    ensures
        chunk_size < 0 ==> patterns@.len() == 0,
        chunk_size > 0 && !dedupe ==> pattern_views(patterns@) == chunk_sequence(
            *map,
            chunk_size as int,
            include_flipping,
            map.width as int / chunk_size as int,
            (map.width as int / chunk_size as int) * (map.height as int / chunk_size as int),
        ),
        chunk_size > 0 && dedupe ==> pattern_views(patterns@).no_duplicates(),
        chunk_size > 0 && dedupe ==> pattern_views(patterns@).to_set() == chunk_sequence(
            *map,
            chunk_size as int,
            include_flipping,
            map.width as int / chunk_size as int,
            (map.width as int / chunk_size as int) * (map.height as int / chunk_size as int),
        ).to_set(),
{
    if chunk_size < 0 {
        // Whole-chunk counts come out negative or zero: there are no chunks.
        return Vec::new();
    }
    let chunks_x = map.width / chunk_size;
    let chunks_y = map.height / chunk_size;
    let ghost cs = chunk_size as int;
    let ghost nx = chunks_x as int;
    let ghost w = map.width as int;
    let ghost h = map.height as int;
    proof {
        assert(nx * cs <= w) by (nonlinear_arith)
            requires nx == w / cs, 0 < cs, 0 <= w;
        assert((h / cs) * cs <= h) by (nonlinear_arith)
            requires 0 < cs, 0 <= h;
    }
    let mut patterns: Vec<Vec<TileType>> = Vec::new();
    let mut cy: i32 = 0;
    while cy < chunks_y
        invariant
            map.wf(),
            0 < cs == chunk_size,
            w == map.width,
            h == map.height,
            nx == chunks_x == w / cs,
            chunks_y == h / cs,
            nx * cs <= w,
            chunks_y * cs <= h,
            0 <= cy <= chunks_y,
            pattern_views(patterns@) == chunk_sequence(*map, cs, include_flipping, nx, cy * nx),
        decreases chunks_y - cy,
    {
        let mut cx: i32 = 0;
        while cx < chunks_x
            invariant
                map.wf(),
                0 < cs == chunk_size,
                w == map.width,
                h == map.height,
                nx == chunks_x == w / cs,
                chunks_y == h / cs,
                nx * cs <= w,
                chunks_y * cs <= h,
                0 <= cy < chunks_y,
                0 <= cx <= chunks_x,
                pattern_views(patterns@) == chunk_sequence(*map, cs, include_flipping, nx, cy * nx + cx),
            decreases chunks_x - cx,
        {
            proof {
                assert((cx + 1) * cs <= w) by (nonlinear_arith)
                    requires 0 <= cx < nx, nx * cs <= w, 0 < cs;
                assert((cy + 1) * cs <= h) by (nonlinear_arith)
                    requires 0 <= cy < chunks_y, chunks_y * cs <= h, 0 < cs;
                lemma_idx_roundtrip(nx, cx as int, cy as int);
                assert(cy * nx + cx + 1 - 1 == idx(nx, cx as int, cy as int));
                assert(0 <= cy * nx) by (nonlinear_arith) requires 0 <= cy, 0 <= nx;
            }
            let ghost before = patterns@;
            let p = read_chunk(map, chunk_size, cx, cy, false, false);
            patterns.push(p);
            if include_flipping {
                let p1 = read_chunk(map, chunk_size, cx, cy, true, false);
                patterns.push(p1);
                let p2 = read_chunk(map, chunk_size, cx, cy, false, true);
                patterns.push(p2);
                let p3 = read_chunk(map, chunk_size, cx, cy, true, true);
                patterns.push(p3);
            }
            assert(pattern_views(patterns@) =~= pattern_views(before) + chunk_variants(*map, cs, cx as int, cy as int, include_flipping));
            cx = cx + 1;
        }
        assert(cy * nx + nx == (cy + 1) * nx) by (nonlinear_arith);
        cy = cy + 1;
    }
    assert(cy * nx == nx * chunks_y) by (nonlinear_arith) requires cy == chunks_y;
    if dedupe {
        dedupe_patterns(patterns)
    } else {
        patterns
    }
}

/// Whether `(x, y)` is a marked slot of an edge that starts at `(x0, y0)` and runs
/// rightward (`horizontal`) or downward.
pub open spec fn on_edge(edge: Seq<bool>, x0: int, y0: int, horizontal: bool, x: int, y: int) -> bool {
    if horizontal {
        y == y0 && 0 <= x - x0 < edge.len() && edge[x - x0]
    } else {
        x == x0 && 0 <= y - y0 < edge.len() && edge[y - y0]
    }
}

/// Whether `(x, y)` lies in the `cs` square whose top-left cell is `(sx, sy)`.
pub open spec fn in_square(cs: int, sx: int, sy: int, x: int, y: int) -> bool {
    sx <= x < sx + cs && sy <= y < sy + cs
}

/// Whether `(x, y)` is one of the chunk's exits once it is drawn at `(sx, sy)`.
pub open spec fn is_drawn_exit(chunk: MapChunk, cs: int, sx: int, sy: int, x: int, y: int) -> bool {
    ||| on_edge(chunk.exits[0]@, sx, sy, true, x, y)
    ||| on_edge(chunk.exits[1]@, sx, sy + cs - 1, true, x, y)
    ||| on_edge(chunk.exits[2]@, sx, sy, false, x, y)
    ||| on_edge(chunk.exits[3]@, sx + cs - 1, sy, false, x, y)
}

/// Whether every marked slot of an edge lies on the map.
pub open spec fn edge_fits(m: GameMap, len: int, x0: int, y0: int, horizontal: bool) -> bool {
    len > 0 ==> if horizontal {
        0 <= x0 && x0 + len <= m.width && 0 <= y0 < m.height
    } else {
        0 <= y0 && y0 + len <= m.height && 0 <= x0 < m.width
    }
}

/// Turns every marked slot of an edge into down stairs.
fn mark_edge(map: &mut GameMap, edge: &Vec<bool>, x0: i32, y0: i32, horizontal: bool)
    requires
        old(map).wf(),
        edge_fits(*old(map), edge.len() as int, x0 as int, y0 as int, horizontal),
    ensures
        final(map).wf(),
        final(map).same_but_tiles(&*old(map)),
        forall|x: int, y: int| #![trigger idx(final(map).width as int, x, y)]
            in_grid(final(map).width as int, final(map).height as int, x, y) ==>
            final(map).tiles@[idx(final(map).width as int, x, y)] == if on_edge(edge@, x0 as int, y0 as int, horizontal, x, y) {
                TileType::DownStairs
            } else {
                old(map).tiles@[idx(final(map).width as int, x, y)]
            },
{
    let ghost w = map.width as int;
    let ghost h = map.height as int;
    let mut k: usize = 0;
    while k < edge.len()
        invariant
            map.wf(),
            map.same_but_tiles(&*old(map)),
            w == map.width,
            h == map.height,
            edge_fits(*old(map), edge.len() as int, x0 as int, y0 as int, horizontal),
            k <= edge.len(),
            forall|x: int, y: int| #![trigger idx(w, x, y)]
                in_grid(w, h, x, y) ==>
                map.tiles@[idx(w, x, y)] == if on_edge(edge@.take(k as int), x0 as int, y0 as int, horizontal, x, y) {
                    TileType::DownStairs
                } else {
                    old(map).tiles@[idx(w, x, y)]
                },
        decreases edge.len() - k,
    {
        let ghost before = map.tiles@;
        if edge[k] {
            let (x, y) = if horizontal { (x0 + k as i32, y0) } else { (x0, y0 + k as i32) };
            proof { lemma_idx_in_bounds(w, h, x as int, y as int); }
            let index = map.xy_index(x, y);
            map.tiles.set(index, TileType::DownStairs);
            proof {
                assert forall|a: int, b: int| #![trigger idx(w, a, b)] in_grid(w, h, a, b) && (a != x || b != y) implies
                    map.tiles@[idx(w, a, b)] == before[idx(w, a, b)] by {
                    lemma_idx_in_bounds(w, h, a, b);
                    if idx(w, a, b) == idx(w, x as int, y as int) {
                        lemma_idx_injective(w, a, b, x as int, y as int);
                    }
                }
            }
        }
        proof {
            let t = edge@.take(k as int);
            let t1 = edge@.take(k + 1);
            assert forall|a: int, b: int| #![trigger idx(w, a, b)] in_grid(w, h, a, b) implies
                map.tiles@[idx(w, a, b)] == if on_edge(t1, x0 as int, y0 as int, horizontal, a, b) {
                    TileType::DownStairs
                } else {
                    old(map).tiles@[idx(w, a, b)]
                } by {
                if horizontal {
                    if b == y0 && 0 <= a - x0 < k { assert(t1[a - x0] == t[a - x0]); }
                } else {
                    if a == x0 && 0 <= b - y0 < k { assert(t1[b - y0] == t[b - y0]); }
                }
            }
        }
        k = k + 1;
    }
    assert(edge@.take(edge.len() as int) =~= edge@);
}

/// Draws a chunk's pattern with its top-left cell at `(start_x, start_y)`, making the drawn
/// cells visible, then turns the chunk's exits into down stairs.
pub fn render_pattern_to_map(map: &mut GameMap, chunk: &MapChunk, chunk_size: i32, start_x: i32, start_y: i32)
    requires
        old(map).wf(),
        chunk_size > 0 ==> {
            &&& 0 <= start_x
            &&& 0 <= start_y
            &&& start_x + chunk_size <= old(map).width
            &&& start_y + chunk_size <= old(map).height
            &&& chunk_size * chunk_size <= chunk.pattern.len()
        },
        edge_fits(*old(map), chunk.exits[0]@.len() as int, start_x as int, start_y as int, true),
        edge_fits(*old(map), chunk.exits[1]@.len() as int, start_x as int, start_y + chunk_size - 1, true),
        edge_fits(*old(map), chunk.exits[2]@.len() as int, start_x as int, start_y as int, false),
        edge_fits(*old(map), chunk.exits[3]@.len() as int, start_x + chunk_size - 1, start_y as int, false),
    ensures
        final(map).wf(),
        final(map).same_shape(&*old(map)),
        final(map).revealed_tiles == old(map).revealed_tiles,
        final(map).blocked == old(map).blocked,
        forall|x: int, y: int| #![trigger idx(final(map).width as int, x, y)]
            in_grid(final(map).width as int, final(map).height as int, x, y) ==> {
                let i = idx(final(map).width as int, x, y);
                &&& final(map).tiles@[i] == if is_drawn_exit(*chunk, chunk_size as int, start_x as int, start_y as int, x, y) {
                    TileType::DownStairs
                } else if in_square(chunk_size as int, start_x as int, start_y as int, x, y) {
                    chunk.pattern@[idx(chunk_size as int, x - start_x, y - start_y)]
                } else {
                    old(map).tiles@[i]
                }
                &&& final(map).visible_tiles@[i] == (in_square(chunk_size as int, start_x as int, start_y as int, x, y)
                    || old(map).visible_tiles@[i])
            },
{
    let ghost w = map.width as int;
    let ghost h = map.height as int;
    let ghost cs = chunk_size as int;
    let ghost sx = start_x as int;
    let ghost sy = start_y as int;
    if chunk_size > 0 {
        let mut i: usize = 0;
        let mut tile_y: i32 = 0;
        while tile_y < chunk_size
            invariant
                map.wf(),
                map.same_shape(&*old(map)),
                map.revealed_tiles == old(map).revealed_tiles,
                map.blocked == old(map).blocked,
                w == map.width,
                h == map.height,
                cs == chunk_size,
                sx == start_x,
                sy == start_y,
                0 < cs,
                0 <= sx,
                0 <= sy,
                sx + cs <= w,
                sy + cs <= h,
                cs * cs <= chunk.pattern.len(),
                0 <= tile_y <= chunk_size,
                i == tile_y * cs,
                forall|x: int, y: int| #![trigger idx(w, x, y)]
                    in_grid(w, h, x, y) ==> {
                        &&& map.tiles@[idx(w, x, y)] == if in_square(cs, sx, sy, x, y) && y - sy < tile_y {
                            chunk.pattern@[idx(cs, x - sx, y - sy)]
                        } else {
                            old(map).tiles@[idx(w, x, y)]
                        }
                        &&& map.visible_tiles@[idx(w, x, y)] == ((in_square(cs, sx, sy, x, y) && y - sy < tile_y)
                            || old(map).visible_tiles@[idx(w, x, y)])
                    },
            decreases chunk_size - tile_y,
        {
            let mut tile_x: i32 = 0;
            while tile_x < chunk_size
                invariant
                    map.wf(),
                    map.same_shape(&*old(map)),
                    map.revealed_tiles == old(map).revealed_tiles,
                    map.blocked == old(map).blocked,
                    w == map.width,
                    h == map.height,
                    cs == chunk_size,
                    sx == start_x,
                    sy == start_y,
                    0 < cs,
                    0 <= sx,
                    0 <= sy,
                    sx + cs <= w,
                    sy + cs <= h,
                    cs * cs <= chunk.pattern.len(),
                    0 <= tile_y < chunk_size,
                    0 <= tile_x <= chunk_size,
                    i == tile_y * cs + tile_x,
                    forall|x: int, y: int| #![trigger idx(w, x, y)]
                        in_grid(w, h, x, y) ==> {
                            &&& map.tiles@[idx(w, x, y)] == if in_square(cs, sx, sy, x, y) && (y - sy < tile_y
                                || (y - sy == tile_y && x - sx < tile_x)) {
                                chunk.pattern@[idx(cs, x - sx, y - sy)]
                            } else {
                                old(map).tiles@[idx(w, x, y)]
                            }
                            &&& map.visible_tiles@[idx(w, x, y)] == ((in_square(cs, sx, sy, x, y) && (y - sy < tile_y
                                || (y - sy == tile_y && x - sx < tile_x)))
                                || old(map).visible_tiles@[idx(w, x, y)])
                        },
                decreases chunk_size - tile_x,
            {
                let x = start_x + tile_x;
                let y = start_y + tile_y;
                proof {
                    lemma_idx_in_bounds(w, h, x as int, y as int);
                    assert(0 <= tile_y * cs + tile_x < cs * cs) by (nonlinear_arith)
                        requires 0 <= tile_x < cs, 0 <= tile_y < cs;
                }
                let map_index = map.xy_index(x, y);
                let ghost before_t = map.tiles@;
                let ghost before_v = map.visible_tiles@;
                map.tiles.set(map_index, chunk.pattern[i]);
                map.visible_tiles.set(map_index, true);
                proof {
                    assert forall|a: int, b: int| #![trigger idx(w, a, b)] in_grid(w, h, a, b) && (a != x || b != y) implies
                        map.tiles@[idx(w, a, b)] == before_t[idx(w, a, b)]
                        && map.visible_tiles@[idx(w, a, b)] == before_v[idx(w, a, b)] by {
                        lemma_idx_in_bounds(w, h, a, b);
                        if idx(w, a, b) == idx(w, x as int, y as int) {
                            lemma_idx_injective(w, a, b, x as int, y as int);
                        }
                    }
                    assert(idx(cs, x - sx, y - sy) == i);
                }
                i = i + 1;
                tile_x = tile_x + 1;
            }
            assert(tile_y * cs + cs == (tile_y + 1) * cs) by (nonlinear_arith);
            tile_y = tile_y + 1;
        }
    }
    let ghost drawn = *map;
    assert(forall|x: int, y: int| #![trigger idx(w, x, y)] in_grid(w, h, x, y) ==>
        drawn.tiles@[idx(w, x, y)] == if in_square(cs, sx, sy, x, y) {
            chunk.pattern@[idx(cs, x - sx, y - sy)]
        } else {
            old(map).tiles@[idx(w, x, y)]
        });
    mark_edge(map, &chunk.exits[0], start_x, start_y, true);
    if chunk.exits[1].len() > 0 {
        mark_edge(map, &chunk.exits[1], start_x, start_y + chunk_size - 1, true);
    }
    mark_edge(map, &chunk.exits[2], start_x, start_y, false);
    if chunk.exits[3].len() > 0 {
        mark_edge(map, &chunk.exits[3], start_x + chunk_size - 1, start_y, false);
    }
}

} // verus!
