//! What can be seen: the tiles in view, what the player has revealed, what blocks sight.
use vstd::prelude::*;
use crate::components::Position;
use crate::map::{GameMap, idx, in_grid, lemma_idx_in_bounds};
use crate::inventory::{contents_along, contents_of_tiles, holds};
use crate::rng::roll_dice;
use rltk::RandomNumberGenerator;

verus! {

broadcast use vstd::std_specs::hash::group_hash_axioms;

/// Recomputes each viewer's field of view and reveals what the player sees.
pub struct VisibilitySystem {}

/// Whether `lo_x <= p.0 < hi_x` and `lo_y <= p.1 < hi_y`.
pub open spec fn point_within(p: (i32, i32), lo_x: int, hi_x: int, lo_y: int, hi_y: int) -> bool {
    lo_x <= p.0 < hi_x && lo_y <= p.1 < hi_y
}

/// Whether the tile with index `i` is one of the points strictly inside the map's border.
pub open spec fn sees_tile(points: Seq<(i32, i32)>, w: int, h: int, i: int) -> bool {
    exists|k: int| 0 <= k < points.len() && point_within(#[trigger] points[k], 1, w - 1, 1, h - 1)
        && idx(w, points[k].0 as int, points[k].1 as int) == i
}

/// Keeps the points inside the given ranges, in order.
pub fn points_within(points: &Vec<(i32, i32)>, lo_x: i32, hi_x: i32, lo_y: i32, hi_y: i32) -> (r: Vec<(i32, i32)>)
    ensures
        r@ == points@.filter(|p: (i32, i32)| point_within(p, lo_x as int, hi_x as int, lo_y as int, hi_y as int)),
{
    let ghost keep = |p: (i32, i32)| point_within(p, lo_x as int, hi_x as int, lo_y as int, hi_y as int);
    let mut r: Vec<(i32, i32)> = Vec::new();
    let mut i: usize = 0;
    while i < points.len()
        invariant
            i <= points.len(),
            keep == (|p: (i32, i32)| point_within(p, lo_x as int, hi_x as int, lo_y as int, hi_y as int)),
            r@ == points@.take(i as int).filter(keep),
        decreases points.len() - i,
    {
        let p = points[i];
        proof {
            assert(points@.take(i + 1).drop_last() =~= points@.take(i as int));
            reveal(Seq::filter);
            assert(points@.take(i + 1).last() == p);
        }
        if lo_x <= p.0 && p.0 < hi_x && lo_y <= p.1 && p.1 < hi_y {
            r.push(p);
        }
        i = i + 1;
    }
    assert(points@.take(points.len() as int) =~= points@);
    r
}

/// Shows the player what they see: every tile stops being visible, then each seen tile
/// strictly inside the map's border becomes visible and revealed.
pub fn reveal_visible(map: &mut GameMap, points: &Vec<(i32, i32)>)
    requires
        old(map).wf(),
    ensures
        final(map).wf(),
        final(map).tiles == old(map).tiles,
        final(map).blocked == old(map).blocked,
        final(map).width == old(map).width,
        final(map).height == old(map).height,
        final(map).depth == old(map).depth,
        final(map).view_blocked@ == old(map).view_blocked@,
        final(map).tile_content == old(map).tile_content,
        forall|i: int| 0 <= i < old(map).tiles.len() ==> (#[trigger] final(map).visible_tiles@[i])
            == sees_tile(points@, old(map).width as int, old(map).height as int, i),
        forall|i: int| 0 <= i < old(map).tiles.len() ==> (#[trigger] final(map).revealed_tiles@[i])
            == (old(map).revealed_tiles@[i] || sees_tile(points@, old(map).width as int, old(map).height as int, i)),
{
    let ghost w = map.width as int;
    let ghost h = map.height as int;
    let ghost m0 = *map;
    let n = map.visible_tiles.len();
    let mut j: usize = 0;
    while j < n
        invariant
            j <= n,
            n == map.visible_tiles.len(),
            map.wf(),
            map.tiles == m0.tiles,
            map.blocked == m0.blocked,
            map.revealed_tiles == m0.revealed_tiles,
            map.width == m0.width,
            map.height == m0.height,
            map.depth == m0.depth,
            map.view_blocked@ == m0.view_blocked@,
            map.tile_content == m0.tile_content,
            forall|i: int| 0 <= i < j ==> !(#[trigger] map.visible_tiles@[i]),
        decreases n - j,
    {
        map.visible_tiles.set(j, false);
        j = j + 1;
    }
    let mut k: usize = 0;
    while k < points.len()
        invariant
            k <= points.len(),
            map.wf(),
            w == map.width,
            h == map.height,
            map.tiles == m0.tiles,
            map.blocked == m0.blocked,
            map.width == m0.width,
            map.height == m0.height,
            map.depth == m0.depth,
            map.view_blocked@ == m0.view_blocked@,
            map.tile_content == m0.tile_content,
            forall|i: int| 0 <= i < m0.tiles.len() ==> (#[trigger] map.visible_tiles@[i])
                == sees_tile(points@.take(k as int), w, h, i),
            forall|i: int| 0 <= i < m0.tiles.len() ==> (#[trigger] map.revealed_tiles@[i])
                == (m0.revealed_tiles@[i] || sees_tile(points@.take(k as int), w, h, i)),
        decreases points.len() - k,
    {
        let p = points[k];
        let ghost prev = points@.take(k as int);
        let ghost next = points@.take(k + 1);
        let inside = p.0 > 0 && p.0 < map.width - 1 && p.1 > 0 && p.1 < map.height - 1;
        let ghost pi = idx(w, p.0 as int, p.1 as int);
        if inside {
            proof { lemma_idx_in_bounds(w, h, p.0 as int, p.1 as int); }
            let index = map.xy_index(p.0, p.1);
            map.revealed_tiles.set(index, true);
            map.visible_tiles.set(index, true);
        }
        proof {
            assert forall|i: int| 0 <= i < m0.tiles.len() implies
                sees_tile(next, w, h, i) == (sees_tile(prev, w, h, i) || (inside && i == pi)) by {
                if sees_tile(next, w, h, i) {
                    let q = choose|q: int| 0 <= q < next.len() && point_within(#[trigger] next[q], 1, w - 1, 1, h - 1)
                        && idx(w, next[q].0 as int, next[q].1 as int) == i;
                    if q < k {
                        assert(prev[q] == next[q]);
                    }
                }
                if sees_tile(prev, w, h, i) {
                    let q = choose|q: int| 0 <= q < prev.len() && point_within(#[trigger] prev[q], 1, w - 1, 1, h - 1)
                        && idx(w, prev[q].0 as int, prev[q].1 as int) == i;
                    assert(next[q] == prev[q]);
                }
                if inside && i == pi {
                    assert(next[k as int] == p);
                }
            }
        }
        k = k + 1;
    }
    assert(points@.take(points.len() as int) =~= points@);
}

/// Whether a position's tile index `y * w + x` can be worked out in a `usize`: both
/// coordinates are at least 0 and the index fits.
pub open spec fn index_fits(w: int, p: Position) -> bool {
    0 <= p.x && 0 <= p.y && idx(w, p.x as int, p.y as int) <= usize::MAX
}

/// Rebuilds the set of tiles whose occupant blocks sight: exactly the tiles the blockers
/// stand on.
pub fn rebuild_view_blocked(map: &mut GameMap, blockers: &Vec<Position>)
    requires
        old(map).wf(),
        forall|k: int| 0 <= k < blockers.len() ==> index_fits(old(map).width as int, #[trigger] blockers@[k]),
    ensures
        final(map).wf(),
        final(map).tiles == old(map).tiles,
        final(map).blocked == old(map).blocked,
        final(map).revealed_tiles == old(map).revealed_tiles,
        final(map).visible_tiles == old(map).visible_tiles,
        final(map).width == old(map).width,
        final(map).height == old(map).height,
        final(map).tile_content == old(map).tile_content,
        final(map).view_blocked@ == Set::new(|i: usize| exists|k: int| 0 <= k < blockers.len()
            && idx(old(map).width as int, (#[trigger] blockers@[k]).x as int, blockers@[k].y as int) == i),
{
    let ghost w = map.width as int;
    let ghost h = map.height as int;
    let ghost m0 = *map;
    map.view_blocked.clear();
    let mut k: usize = 0;
    while k < blockers.len()
        invariant
            k <= blockers.len(),
            map.wf(),
            w == map.width,
            h == map.height,
            map.tiles == m0.tiles,
            map.blocked == m0.blocked,
            map.revealed_tiles == m0.revealed_tiles,
            map.visible_tiles == m0.visible_tiles,
            map.tile_content == m0.tile_content,
            forall|q: int| 0 <= q < blockers.len() ==> index_fits(w, #[trigger] blockers@[q]),
            map.view_blocked@ == Set::new(|i: usize| exists|q: int| 0 <= q < k
                && idx(w, (#[trigger] blockers@[q]).x as int, blockers@[q].y as int) == i),
        decreases blockers.len() - k,
    {
        let b = blockers[k];
        assert(index_fits(w, b));
        let index = (b.y as usize) * (map.width as usize) + (b.x as usize);
        map.view_blocked.insert(index);
        assert(map.view_blocked@ =~= Set::new(|i: usize| exists|q: int| 0 <= q < k + 1
            && idx(w, (#[trigger] blockers@[q]).x as int, blockers@[q].y as int) == i)) by {
            assert(blockers@[k as int] == b);
        }
        k = k + 1;
    }
}

/// What an entity sees: the tiles in view, how far it sees, and whether the view must be
/// worked out again.
pub struct Viewshed {
    pub visible_tiles: Vec<(i32, i32)>,
    pub range: i32,
    pub dirty: bool,
}

/// Brings a viewshed up to date on a `w` by `h` map: a dirty one takes the tiles of `seen`
/// that lie on the map and is clean afterwards; a clean one is left as it is. The result
/// says whether the view was worked out again.
pub fn refresh_viewshed(vs: &mut Viewshed, seen: &Vec<(i32, i32)>, w: i32, h: i32) -> (recomputed: bool)
    ensures
        recomputed == old(vs).dirty,
        !final(vs).dirty,
        final(vs).range == old(vs).range,
        old(vs).dirty ==> final(vs).visible_tiles@
            == seen@.filter(|p: (i32, i32)| point_within(p, 0, w as int, 0, h as int)),
        !old(vs).dirty ==> final(vs).visible_tiles@ == old(vs).visible_tiles@,
{
    if vs.dirty {
        vs.dirty = false;
        vs.visible_tiles = points_within(seen, 0, w, 0, h);
        true
    } else {
        false
    }
}

/// Whether a hidden thing on a seen tile is spotted, for a d24 roll: on a 1.
pub fn hidden_spotted(roll: i32) -> (spotted: bool)
    ensures
        spotted == (roll == 1),
{
    roll == 1
}

/// The ones among `entities` that are in `hidden`, in order.
pub fn hidden_among(entities: &Vec<u32>, hidden: &Vec<u32>) -> (r: Vec<u32>)
    ensures
        r@ == entities@.filter(|e: u32| hidden@.contains(e)),
{
    let ghost keep = |e: u32| hidden@.contains(e);
    let mut r: Vec<u32> = Vec::new();
    let mut i: usize = 0;
    while i < entities.len()
        invariant
            i <= entities.len(),
            keep == (|e: u32| hidden@.contains(e)),
            r@ == entities@.take(i as int).filter(keep),
        decreases entities.len() - i,
    {
        let e = entities[i];
        proof {
            assert(entities@.take(i + 1).drop_last() =~= entities@.take(i as int));
            reveal(Seq::filter);
            assert(entities@.take(i + 1).last() == e);
        }
        if holds(hidden, e) {
            r.push(e);
        }
        i = i + 1;
    }
    assert(entities@.take(entities.len() as int) =~= entities@);
    r
}

/// Which of the first `n` candidates are spotted when the `k`-th of them is rolled for with
/// `rolls[k]`: a candidate not spotted yet is spotted on a roll of 1, in the order they come.
pub open spec fn spotted_by(cands: Seq<u32>, rolls: Seq<i32>, n: int) -> Seq<u32>
    decreases n,
{
    if n <= 0 {
        Seq::empty()
    } else {
        let s = spotted_by(cands, rolls, n - 1);
        if !s.contains(cands[n - 1]) && rolls[n - 1] == 1 {
            s.push(cands[n - 1])
        } else {
            s
        }
    }
}

/// The hidden entities standing on the tiles in view strictly inside the map's border,
/// in the order the tiles come.
pub open spec fn hidden_in_view(m: GameMap, visible: Seq<(i32, i32)>, hidden: Seq<u32>) -> Seq<u32> {
    contents_along(m, visible).filter(|e: u32| hidden.contains(e))
}

/// The hidden entities that the player spots among what stands on the tiles in view
/// (strictly inside the map's border): each hidden one not spotted yet gets a d24 roll and
/// is spotted on a 1. Whatever the dice gave, the result is `spotted_by` of those
/// candidates for some rolls between 1 and 24.
pub fn spot_hidden(rng: &mut RandomNumberGenerator, map: &GameMap, visible: &Vec<(i32, i32)>, hidden: &Vec<u32>) -> (r: Vec<u32>)
    requires
        map.wf(),
    ensures
        exists|rolls: Seq<i32>|
            rolls.len() == hidden_in_view(*map, visible@, hidden@).len()
            && (forall|k: int| 0 <= k < rolls.len() ==> 1 <= #[trigger] rolls[k] <= 24)
            && r@ == #[trigger] spotted_by(
                hidden_in_view(*map, visible@, hidden@),
                rolls,
                hidden_in_view(*map, visible@, hidden@).len() as int,
            ),
{
    let on_view = contents_of_tiles(map, visible);
    let cands = hidden_among(&on_view, hidden);
    let ghost mut rolls: Seq<i32> = Seq::empty();
    let mut r: Vec<u32> = Vec::new();
    let mut k: usize = 0;
    while k < cands.len()
        invariant
            k <= cands.len(),
            cands@ == hidden_in_view(*map, visible@, hidden@),
            rolls.len() == k,
            forall|q: int| 0 <= q < rolls.len() ==> 1 <= #[trigger] rolls[q] <= 24,
            r@ == spotted_by(cands@, rolls, k as int),
        decreases cands.len() - k,
    {
        let c = cands[k];
        let ghost before = rolls;
        if holds(&r, c) {
            proof {
                rolls = rolls.push(1);
                lemma_spotted_by_rolls(cands@, before, rolls, k as int);
            }
        } else {
            let roll = roll_dice(rng, 1, 24);
            proof {
                rolls = rolls.push(roll);
                lemma_spotted_by_rolls(cands@, before, rolls, k as int);
            }
            if hidden_spotted(roll) {
                r.push(c);
            }
        }
        k = k + 1;
    }
    r
}

/// Which candidates are spotted when the `k`-th is rolled for with `rolls[k]` (a roll for
/// one already spotted counts for nothing).
pub fn spotted_with(cands: &Vec<u32>, rolls: &Vec<i32>) -> (r: Vec<u32>)
    requires
        rolls.len() == cands.len(),
    ensures
        r@ == spotted_by(cands@, rolls@, cands.len() as int),
{
    let mut r: Vec<u32> = Vec::new();
    let mut k: usize = 0;
    while k < cands.len()
        invariant
            k <= cands.len(),
            rolls.len() == cands.len(),
            r@ == spotted_by(cands@, rolls@, k as int),
        decreases cands.len() - k,
    {
        let c = cands[k];
        if !holds(&r, c) && hidden_spotted(rolls[k]) {
            r.push(c);
        }
        k = k + 1;
    }
    r
}

/// `spotted_by` over the first `n` candidates reads only the first `n` rolls.
proof fn lemma_spotted_by_rolls(cands: Seq<u32>, a: Seq<i32>, b: Seq<i32>, n: int)
    requires
        n <= a.len(),
        n <= b.len(),
        forall|q: int| 0 <= q < n ==> a[q] == b[q],
    ensures
        spotted_by(cands, a, n) == spotted_by(cands, b, n),
    decreases n,
{
    if n > 0 {
        lemma_spotted_by_rolls(cands, a, b, n - 1);
    }
}

/// Whether any of the `monsters` stands on a tile in view.
#[verifier::loop_isolation(false)]
pub fn monster_in_view(map: &GameMap, visible: &Vec<(i32, i32)>, monsters: &Vec<u32>) -> (seen: bool)
    requires
        map.wf(),
        forall|k: int| 0 <= k < visible.len() ==> in_grid(map.width as int, map.height as int,
            (#[trigger] visible@[k]).0 as int, visible@[k].1 as int),
    ensures
        seen == exists|k: int, e: int| 0 <= k < visible.len()
            && 0 <= e < map.tile_content@[idx(map.width as int, visible@[k].0 as int, visible@[k].1 as int)].len()
            && monsters@.contains(#[trigger] map.tile_content@[idx(map.width as int, (#[trigger] visible@[k]).0 as int, visible@[k].1 as int)]@[e]),
{
    let ghost w = map.width as int;
    let ghost h = map.height as int;
    let mut k: usize = 0;
    while k < visible.len()
        invariant
            k <= visible.len(),
            map.wf(),
            w == map.width,
            h == map.height,
            forall|q: int| 0 <= q < visible.len() ==> in_grid(w, h, (#[trigger] visible@[q]).0 as int, visible@[q].1 as int),
            forall|q: int, e: int| 0 <= q < k && 0 <= e < map.tile_content@[idx(w, visible@[q].0 as int, visible@[q].1 as int)].len()
                ==> !monsters@.contains(#[trigger] map.tile_content@[idx(w, (#[trigger] visible@[q]).0 as int, visible@[q].1 as int)]@[e]),
        decreases visible.len() - k,
    {
        let t = visible[k];
        proof { lemma_idx_in_bounds(w, h, t.0 as int, t.1 as int); }
        let index = map.xy_index(t.0, t.1);
        let content = &map.tile_content[index];
        let mut e: usize = 0;
        while e < content.len()
            invariant
                e <= content.len(),
                forall|f: int| 0 <= f < e ==> !monsters@.contains(#[trigger] content@[f]),
            decreases content.len() - e,
        {
            let id = content[e];
            let mut j: usize = 0;
            while j < monsters.len()
                invariant
                    j <= monsters.len(),
                    forall|g: int| 0 <= g < j ==> monsters@[g] != id,
                decreases monsters.len() - j,
            {
                if monsters[j] == id {
                    assert(monsters@[j as int] == content@[e as int]);
                    assert(monsters@.contains(content@[e as int]));
                    assert(visible@[k as int] == t);
                    assert(content@ == map.tile_content@[idx(w, visible@[k as int].0 as int, visible@[k as int].1 as int)]@);
                    return true;
                }
                j = j + 1;
            }
            e = e + 1;
        }
        proof {
            assert(visible@[k as int] == t);
        }
        k = k + 1;
    }
    false
}

} // verus!
