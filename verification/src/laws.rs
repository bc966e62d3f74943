//! Properties that hold across the library's operations.
use vstd::prelude::*;
use crate::components::Position;
use crate::map::{GameMap, idx, in_grid};
use crate::tile::spec_tile_walkable;
use crate::damage::{Combatant, total_damage, dead_monsters, is_dead};
use crate::state::{RunState, FrameEvent, spec_next_state, EntityInfo, leaving, stays_on_level_change};
use crate::player::{Occupant, meet_occupants, step_within};
use crate::map_builders::waveform_collapse::{
    MapChunk, compatible, compat_list, opposite, edges_fit, exits_read_from, spec_exits, chunk_sequence, chunk_pattern,
};
use crate::map_builders::chain::{MetaStep, finishing_plan, finishing_steps, die};
use crate::map_builders::cull_unreachable::culled;
use crate::map_builders::common::carved;
use crate::map_builders::UNREACHABLE_DISTANCE;
use crate::map_builders::BuilderMap;
use crate::map_builders::prefab_builder::{PrefabRoom, vault_run, vault_turns, vault_turn_spec, pick_index, eligible};
use crate::tile::TileType;

verus! {

/// A chunk without exits fits on every side of every chunk: its index is in each
/// compatibility list, and its own lists hold every chunk.
pub proof fn law_exitless_chunk_fits_everywhere(chunks: Seq<MapChunk>, c: MapChunk, d: int, k: int)
    requires
        0 <= k <= chunks.len(),
        !c.has_exits,
    ensures
        compat_list(chunks, c, d, k) == Seq::new(k as nat, |j: int| j as usize),
    decreases k,
{
    if k > 0 {
        law_exitless_chunk_fits_everywhere(chunks, c, d, k - 1);
        assert(compat_list(chunks, c, d, k) =~= Seq::new(k as nat, |j: int| j as usize));
    }
}

/// An exitless chunk is in the compatibility list of every chunk, on every side.
pub proof fn law_exitless_chunk_is_everyones_neighbour(chunks: Seq<MapChunk>, c: MapChunk, d: int, j: int)
    requires
        0 <= j < chunks.len(),
        !chunks[j].has_exits,
    ensures
        compat_list(chunks, c, d, chunks.len() as int).contains(j as usize),
{
    lemma_compat_list_has(chunks, c, d, chunks.len() as int, j);
}

proof fn lemma_compat_list_has(chunks: Seq<MapChunk>, c: MapChunk, d: int, k: int, j: int)
    requires
        0 <= j < k <= chunks.len(),
        compatible(c, chunks[j], d),
    ensures
        compat_list(chunks, c, d, k).contains(j as usize),
    decreases k,
{
    if k - 1 == j {
        let l = compat_list(chunks, c, d, k);
        assert(l.last() == j as usize);
        assert(l[l.len() - 1] == j as usize);
    } else {
        lemma_compat_list_has(chunks, c, d, k - 1, j);
        let prev = compat_list(chunks, c, d, k - 1);
        let q = choose|q: int| 0 <= q < prev.len() && prev[q] == j as usize;
        if compatible(c, chunks[k - 1], d) {
            assert(prev.push((k - 1) as usize)[q] == j as usize);
        }
    }
}

/// Fitting is symmetric across facing sides: `b` fits on side `d` of `a` exactly when `a`
/// fits on the opposite side of `b`.
pub proof fn law_compatibility_symmetric(a: MapChunk, b: MapChunk, d: int)
    requires
        0 <= d < 4,
        a.exits[d]@.len() == b.exits[opposite(d)]@.len(),
    ensures
        compatible(a, b, d) == compatible(b, a, opposite(d)),
{
    assert(opposite(opposite(d)) == d);
    if edges_fit(a.exits[d]@, b.exits[opposite(d)]@) {
        let s = choose|s: int| 0 <= s < a.exits[d]@.len() && #[trigger] a.exits[d]@[s] && b.exits[opposite(d)]@[s];
        assert(b.exits[opposite(d)]@[s] && a.exits[d]@[s]);
    }
    if edges_fit(b.exits[opposite(d)]@, a.exits[d]@) {
        let s = choose|s: int| 0 <= s < b.exits[opposite(d)]@.len() && #[trigger] b.exits[opposite(d)]@[s] && a.exits[d]@[s];
        assert(a.exits[d]@[s] && b.exits[opposite(d)]@[s]);
    }
}

/// On the patterns with symmetric exits that `patterns_to_constraints` reads, fitting is
/// symmetric across facing sides of any two chunks.
pub proof fn law_constraints_symmetric(chunks: Seq<MapChunk>, cs: int, i: int, j: int, d: int)
    requires
        0 <= i < chunks.len(),
        0 <= j < chunks.len(),
        0 <= d < 4,
        forall|k: int| 0 <= k < chunks.len() ==> exits_read_from(#[trigger] chunks[k], cs),
    ensures
        compatible(chunks[i], chunks[j], d) == compatible(chunks[j], chunks[i], opposite(d)),
{
    assert(exits_read_from(chunks[i], cs));
    assert(exits_read_from(chunks[j], cs));
    assert(chunks[i].exits[d]@ == spec_exits(chunks[i].pattern@, cs, d));
    assert(chunks[j].exits[opposite(d)]@ == spec_exits(chunks[j].pattern@, cs, opposite(d)));
    law_compatibility_symmetric(chunks[i], chunks[j], d);
}

proof fn lemma_compat_list_only(chunks: Seq<MapChunk>, c: MapChunk, d: int, k: int, j: int)
    requires
        0 <= k <= chunks.len(),
        chunks.len() <= usize::MAX,
        0 <= j < chunks.len(),
        compat_list(chunks, c, d, k).contains(j as usize),
    ensures
        j < k,
        compatible(c, chunks[j], d),
    decreases k,
{
    if k > 0 {
        let prev = compat_list(chunks, c, d, k - 1);
        let l = compat_list(chunks, c, d, k);
        let q = choose|q: int| 0 <= q < l.len() && l[q] == j as usize;
        if q < prev.len() {
            if compatible(c, chunks[k - 1], d) {
                assert(prev.push((k - 1) as usize)[q] == prev[q]);
            }
            assert(prev.contains(j as usize));
            lemma_compat_list_only(chunks, c, d, k - 1, j);
        } else {
            assert(compatible(c, chunks[k - 1], d));
            assert(prev.push((k - 1) as usize)[q] == (k - 1) as usize);
        }
    }
}

/// The compatibility lists that `patterns_to_constraints` builds agree across facing
/// sides: chunk `j` is listed on side `d` of chunk `i` exactly when `i` is listed on the
/// opposite side of `j`.
pub proof fn law_compat_lists_symmetric(chunks: Seq<MapChunk>, cs: int, i: int, j: int, d: int)
    requires
        0 <= i < chunks.len(),
        0 <= j < chunks.len(),
        chunks.len() <= usize::MAX,
        0 <= d < 4,
        forall|k: int| 0 <= k < chunks.len() ==> exits_read_from(#[trigger] chunks[k], cs),
    ensures
        compat_list(chunks, chunks[i], d, chunks.len() as int).contains(j as usize)
            <==> compat_list(chunks, chunks[j], opposite(d), chunks.len() as int).contains(i as usize),
{
    let n = chunks.len() as int;
    law_constraints_symmetric(chunks, cs, i, j, d);
    if compat_list(chunks, chunks[i], d, n).contains(j as usize) {
        lemma_compat_list_only(chunks, chunks[i], d, n, j);
        lemma_compat_list_has(chunks, chunks[j], opposite(d), n, i);
    }
    if compat_list(chunks, chunks[j], opposite(d), n).contains(i as usize) {
        lemma_compat_list_only(chunks, chunks[j], opposite(d), n, i);
        lemma_compat_list_has(chunks, chunks[i], d, n, j);
    }
}

/// Once the blocked flags are filled from the tiles, a path may step onto a cell exactly
/// when it is an inner cell (not on the top or left border) whose tile can be walked on.
pub proof fn law_exits_follow_walkability(m: GameMap, x: int, y: int)
    requires
        m.wf(),
        m.blocked@ == m.tiles@.map_values(|t| !spec_tile_walkable(t)),
    ensures
        m.spec_exit_valid(x, y) == (1 <= x <= m.width - 1 && 1 <= y <= m.height - 1
            && spec_tile_walkable(m.tiles@[idx(m.width as int, x, y)])),
{
    if 1 <= x <= m.width - 1 && 1 <= y <= m.height - 1 {
        crate::map::lemma_idx_in_bounds(m.width as int, m.height as int, x, y);
    }
}

/// Damage from two batches adds up: the total of both is the sum of their totals.
pub proof fn law_damage_adds_up(a: Seq<i32>, b: Seq<i32>)
    ensures
        total_damage(a + b) == total_damage(a) + total_damage(b),
    decreases b.len(),
{
    if b.len() == 0 {
        assert(a + b =~= a);
    } else {
        law_damage_adds_up(a, b.drop_last());
        assert((a + b).drop_last() =~= a + b.drop_last());
    }
}

/// Healing never raises hit points above the maximum, and never lowers them when the
/// amount is positive and the entity was not above its maximum.
pub proof fn law_heal_bounded(current: i32, max: i32, amount: i32, healed: int)
    requires
        healed == (if current + amount < max { current + amount } else { max as int }),
    ensures
        healed <= max,
        amount >= 0 && current <= max ==> healed >= current,
{
}

/// Resting heals at most one hit point, never above the maximum, and nothing while a
/// monster is in view.
pub proof fn law_rest_bounded(hp: i32, max_hp: i32, monster_in_view: bool, rested: int)
    requires
        hp <= max_hp,
        rested == (if monster_in_view { hp as int } else if hp + 1 < max_hp { hp + 1 } else { max_hp as int }),
    ensures
        hp <= rested <= hp + 1,
        rested <= max_hp,
        monster_in_view ==> rested == hp,
{
}

/// The player is never among the entities removed as dead.
pub proof fn law_player_never_deleted(cs: Seq<Combatant>, player: u32)
    requires
        forall|k: int| 0 <= k < cs.len() ==> ((#[trigger] cs[k]).entity == player <==> cs[k].is_player),
    ensures
        !dead_monsters(cs).contains(player),
    decreases cs.len(),
{
    if cs.len() > 0 {
        law_player_never_deleted(cs.drop_last(), player);
        assert forall|k: int| 0 <= k < cs.drop_last().len() implies
            ((#[trigger] cs.drop_last()[k]).entity == player <==> cs.drop_last()[k].is_player) by {
            assert(cs.drop_last()[k] == cs[k]);
        }
        let last = cs.last();
        let tail: Seq<u32> = if is_dead(last) && !last.is_player { seq![last.entity] } else { Seq::empty() };
        assert(cs[cs.len() - 1] == last);
        if dead_monsters(cs).contains(player) {
            let q = choose|q: int| 0 <= q < dead_monsters(cs).len() && dead_monsters(cs)[q] == player;
            let prev = dead_monsters(cs.drop_last());
            if q >= prev.len() {
                assert(dead_monsters(cs)[q] == tail[q - prev.len()]);
            } else {
                assert(dead_monsters(cs)[q] == prev[q]);
            }
        }
    }
}

/// A turn cycle: after the player acts, the monsters act once, then input is awaited.
pub proof fn law_turn_cycle(after_mapgen: RunState)
    ensures
        spec_next_state(RunState::PlayerTurn, FrameEvent::SystemsRan, after_mapgen) == RunState::MonsterTurn,
        spec_next_state(RunState::MonsterTurn, FrameEvent::SystemsRan, after_mapgen) == RunState::AwaitingInput,
        spec_next_state(RunState::PreRun, FrameEvent::SystemsRan, after_mapgen) == RunState::AwaitingInput,
{
}

/// Cancelling any item menu returns to waiting for input.
pub proof fn law_cancel_returns_to_input(s: RunState, item: Option<u32>, ranged: Option<i32>, after_mapgen: RunState)
    requires
        s is ShowInventory || s is ShowDropItem || s is ShowRemoveItem || s is ShowTargeting,
    ensures
        spec_next_state(s, FrameEvent::ItemMenu { result: crate::state::ItemMenuResult::Cancel, item, ranged }, after_mapgen)
            == RunState::AwaitingInput,
{
}

/// On a level change an entity is removed exactly when it is not the player and not
/// carried or worn by the player.
pub proof fn law_level_change_keeps_belongings(es: Seq<EntityInfo>, player: u32, id: u32)
    requires
        forall|i: int, j: int| 0 <= i < j < es.len() ==> (#[trigger] es[i]).entity != (#[trigger] es[j]).entity,
    ensures
        leaving(es, player).contains(id) <==> exists|k: int| 0 <= k < es.len() && (#[trigger] es[k]).entity == id
            && !stays_on_level_change(es[k], player),
    decreases es.len(),
{
    if es.len() > 0 {
        let init = es.drop_last();
        assert forall|i: int, j: int| 0 <= i < j < init.len() implies (#[trigger] init[i]).entity != (#[trigger] init[j]).entity by {
            assert(init[i] == es[i] && init[j] == es[j]);
        }
        law_level_change_keeps_belongings(init, player, id);
        let prev = leaving(init, player);
        let last = es.last();
        let tail: Seq<u32> = if stays_on_level_change(last, player) { Seq::empty() } else { seq![last.entity] };
        assert(leaving(es, player) == prev + tail);
        if leaving(es, player).contains(id) {
            let q = choose|q: int| 0 <= q < leaving(es, player).len() && leaving(es, player)[q] == id;
            if q < prev.len() {
                assert((prev + tail)[q] == prev[q]);
                assert(prev.contains(id));
                let k = choose|k: int| 0 <= k < init.len() && (#[trigger] init[k]).entity == id && !stays_on_level_change(init[k], player);
                assert(es[k] == init[k]);
            } else {
                assert((prev + tail)[q] == tail[q - prev.len()]);
                assert(es[es.len() - 1] == last);
            }
        }
        if exists|k: int| 0 <= k < es.len() && (#[trigger] es[k]).entity == id && !stays_on_level_change(es[k], player) {
            let k = choose|k: int| 0 <= k < es.len() && (#[trigger] es[k]).entity == id && !stays_on_level_change(es[k], player);
            if k < init.len() {
                assert(init[k] == es[k]);
                let q = choose|q: int| 0 <= q < prev.len() && prev[q] == id;
                assert((prev + tail)[q] == id);
            } else {
                assert(es[k] == last);
                assert((prev + tail)[prev.len() as int] == id);
            }
        }
    }
}

proof fn lemma_meet_in_grid(occ: Seq<Occupant>, start: Position, dx: int, dy: int, w: int, h: int)
    requires
        0 < w,
        0 < h,
        w <= i32::MAX,
        h <= i32::MAX,
        in_grid(w, h, start.x as int, start.y as int),
    ensures
        in_grid(w, h, meet_occupants(occ, start, dx, dy, w, h).0.x as int, meet_occupants(occ, start, dx, dy, w, h).0.y as int),
    decreases occ.len(),
{
    if occ.len() > 0 {
        lemma_meet_in_grid(occ.drop_last(), start, dx, dy, w, h);
    }
}

/// A move never takes the player off the map: whatever the step, the occupants of the
/// destination and its blocked flag, the player ends on a cell of the map.
pub proof fn law_player_stays_on_map(m: GameMap, pos: Position, dx: int, dy: int, occ: Seq<Occupant>, stepped: bool)
    requires
        m.wf(),
        in_grid(m.width as int, m.height as int, pos.x as int, pos.y as int),
    ensures
        ({
            let p = meet_occupants(occ, pos, dx, dy, m.width as int, m.height as int).0;
            let q = if stepped { step_within(p, dx, dy, m.width as int, m.height as int) } else { p };
            in_grid(m.width as int, m.height as int, q.x as int, q.y as int)
        }),
{
    lemma_meet_in_grid(occ, pos, dx, dy, m.width as int, m.height as int);
}

/// Every random level ends by placing doors and then vaults.
pub proof fn law_random_levels_end_with_doors_and_vaults(steps: Seq<MetaStep>)
    requires
        finishing_plan(steps),
    ensures
        steps.len() >= 2,
        steps[steps.len() - 2] == MetaStep::DoorPlacement,
        steps.last() == MetaStep::PrefabVaults,
{
    let (wfc, sx, sy, fort) = choose|wfc: int, start_x: int, start_y: int, fort: int| die(wfc, 3) && die(start_x, 3)
        && die(start_y, 3) && die(fort, 20) && steps == #[trigger] finishing_steps(wfc, start_x, start_y, fort);
    let a: Seq<MetaStep> = if wfc == 1 {
        seq![MetaStep::WaveformCollapse, crate::map_builders::chain::area_start(sx, sy), MetaStep::VoronoiSpawning, MetaStep::DistantExit]
    } else {
        Seq::empty()
    };
    let b: Seq<MetaStep> = if fort == 1 { seq![MetaStep::PrefabUndergroundFort] } else { Seq::empty() };
    let c: Seq<MetaStep> = seq![MetaStep::DoorPlacement, MetaStep::PrefabVaults];
    assert(steps == a + b + c);
    assert((a + b + c)[(a + b).len() as int] == c[0]);
    assert((a + b + c)[(a + b).len() as int + 1] == c[1]);
}

/// Culling twice with the same distances changes nothing more than culling once.
pub proof fn law_cull_idempotent(tiles: Seq<TileType>, distances: Seq<u32>)
    ensures
        culled(culled(tiles, distances), distances) == culled(tiles, distances),
{
    assert(culled(culled(tiles, distances), distances) =~= culled(tiles, distances));
}

/// After culling, every floor tile is one the distance map reaches, and every reachable
/// tile keeps its kind.
pub proof fn law_cull_leaves_reachable_floor(tiles: Seq<TileType>, distances: Seq<u32>, i: int)
    requires
        0 <= i < tiles.len(),
    ensures
        culled(tiles, distances)[i] == TileType::Floor ==> tiles[i] == TileType::Floor && distances[i] != UNREACHABLE_DISTANCE,
        distances[i] != UNREACHABLE_DISTANCE ==> culled(tiles, distances)[i] == tiles[i],
{
}

/// Carving (rooms, tunnels, brush strokes) never turns floor into anything else.
pub proof fn law_carving_keeps_floor(m_old: Seq<TileType>, m_new: Seq<TileType>, w: int, h: int,
    covers: spec_fn(int, int) -> bool, x: int, y: int)
    requires
        carved(m_old, m_new, w, h, covers),
        in_grid(w, h, x, y),
        m_old[idx(w, x, y)] == TileType::Floor,
    ensures
        m_new[idx(w, x, y)] == TileType::Floor,
{
}

/// Cell `(tx, ty)` of a pattern `cs` cells wide, read row by row.
pub open spec fn cell(p: Seq<TileType>, cs: int, tx: int, ty: int) -> TileType {
    p[ty * cs + tx]
}

/// Whether patterns `4k` to `4k + 3` of `all` are pattern `k` of `plain` followed by its
/// left-right mirror, its top-bottom mirror and both mirrors.
pub open spec fn mirrored_at(all: Seq<Seq<TileType>>, plain: Seq<Seq<TileType>>, k: int, cs: int) -> bool {
    &&& all[4 * k] == plain[k]
    &&& forall|tx: int, ty: int| 0 <= tx < cs && 0 <= ty < cs ==> {
        &&& #[trigger] cell(all[4 * k + 1], cs, tx, ty) == cell(plain[k], cs, cs - 1 - tx, ty)
        &&& cell(all[4 * k + 2], cs, tx, ty) == cell(plain[k], cs, tx, cs - 1 - ty)
        &&& cell(all[4 * k + 3], cs, tx, ty) == cell(plain[k], cs, cs - 1 - tx, cs - 1 - ty)
    }
}

/// With flipping, every chunk gives four patterns in a row: the chunk as read without
/// flipping, then its left-right mirror, its top-bottom mirror and both mirrors, so that
/// cell `(tx, ty)` of a mirror is the cell of the unflipped chunk on the other side.
pub proof fn law_flipped_patterns_mirror_chunks(m: GameMap, cs: int, nx: int, n: int)
    requires
        cs >= 1,
        nx >= 1,
        n >= 0,
    ensures
        chunk_sequence(m, cs, true, nx, n).len() == 4 * n,
        chunk_sequence(m, cs, false, nx, n).len() == n,
        forall|k: int| 0 <= k < n ==> #[trigger] mirrored_at(
            chunk_sequence(m, cs, true, nx, n),
            chunk_sequence(m, cs, false, nx, n),
            k,
            cs,
        ),
    decreases n,
{
    if n > 0 {
        law_flipped_patterns_mirror_chunks(m, cs, nx, n - 1);
        let all = chunk_sequence(m, cs, true, nx, n);
        let plain = chunk_sequence(m, cs, false, nx, n);
        let all_prev = chunk_sequence(m, cs, true, nx, n - 1);
        let plain_prev = chunk_sequence(m, cs, false, nx, n - 1);
        let cx = (n - 1) % nx;
        let cy = (n - 1) / nx;
        assert(all == all_prev + seq![
            chunk_pattern(m, cs, cx, cy, false, false),
            chunk_pattern(m, cs, cx, cy, true, false),
            chunk_pattern(m, cs, cx, cy, false, true),
            chunk_pattern(m, cs, cx, cy, true, true),
        ]);
        assert(plain == plain_prev + seq![chunk_pattern(m, cs, cx, cy, false, false)]);
        assert forall|k: int| 0 <= k < n implies #[trigger] mirrored_at(all, plain, k, cs) by {
            if k < n - 1 {
                assert(mirrored_at(all_prev, plain_prev, k, cs));
                assert(all[4 * k] == all_prev[4 * k]);
                assert(all[4 * k + 1] == all_prev[4 * k + 1]);
                assert(all[4 * k + 2] == all_prev[4 * k + 2]);
                assert(all[4 * k + 3] == all_prev[4 * k + 3]);
                assert(plain[k] == plain_prev[k]);
            } else {
                assert forall|tx: int, ty: int| 0 <= tx < cs && 0 <= ty < cs implies {
                    &&& #[trigger] cell(all[4 * k + 1], cs, tx, ty) == cell(plain[k], cs, cs - 1 - tx, ty)
                    &&& cell(all[4 * k + 2], cs, tx, ty) == cell(plain[k], cs, tx, cs - 1 - ty)
                    &&& cell(all[4 * k + 3], cs, tx, ty) == cell(plain[k], cs, cs - 1 - tx, cs - 1 - ty)
                } by {
                    law_cell_index_in_chunk(cs, tx, ty);
                    law_cell_index_in_chunk(cs, cs - 1 - tx, ty);
                    law_cell_index_in_chunk(cs, tx, cs - 1 - ty);
                    law_cell_index_in_chunk(cs, cs - 1 - tx, cs - 1 - ty);
                }
            }
        }
    }
}

/// Cell `(tx, ty)` of a chunk `cs` wide sits at `ty * cs + tx`, inside the chunk, and the
/// cell is read back from its index, so distinct cells have distinct indices.
pub proof fn law_cell_index_in_chunk(cs: int, tx: int, ty: int)
    requires
        cs >= 1,
        0 <= tx < cs,
        0 <= ty < cs,
    ensures
        (ty * cs + tx) % cs == tx,
        (ty * cs + tx) / cs == ty,
        0 <= ty * cs + tx < cs * cs,
{
    vstd::arithmetic::div_mod::lemma_fundamental_div_mod_converse(ty * cs + tx, cs, ty, tx);
    assert(ty * cs + tx < cs * cs) by (nonlinear_arith)
        requires
            0 <= tx < cs,
            0 <= ty < cs,
    ;
    assert(0 <= ty * cs) by (nonlinear_arith)
        requires
            0 <= ty,
            cs >= 1,
    ;
}

/// A vault roll that falls short (the d6 plus the depth under 4) places nothing: the map,
/// the spawns and the start stay as they were, and only the opening snapshot is added.
pub proof fn law_short_vault_roll_changes_nothing(b_old: BuilderMap, b_new: BuilderMap, vaults: Seq<PrefabRoom>,
    roll: int, count: int, picks: Seq<int>, tr: Seq<BuilderMap>, us: Seq<Set<usize>>, ps: Seq<Seq<PrefabRoom>>,
    pl: Seq<bool>)
    requires
        vault_run(b_old, b_new, vaults, roll, count, picks, tr, us, ps, pl),
        roll + b_old.map.depth < 4,
    ensures
        b_new.map == b_old.map,
        b_new.spawn_list == b_old.spawn_list,
        b_new.starting_position == b_old.starting_position,
        b_new.history.len() == b_old.history.len() + 1,
{
}

/// Whether `after` is `before` without the vault that `pick` names.
pub open spec fn drops_pick(before: Seq<PrefabRoom>, after: Seq<PrefabRoom>, pick: int) -> bool {
    let k = pick_index(before.len() as int, pick);
    0 <= k < before.len() && after == before.remove(k)
}

/// Each vault turn places at most one vault, and a placed vault leaves the list it was
/// drawn from, so no vault is placed twice and no more vaults are placed than apply at the
/// level's depth.
pub proof fn law_each_vault_placed_at_most_once(b_old: BuilderMap, b_new: BuilderMap, vaults: Seq<PrefabRoom>,
    roll: int, count: int, picks: Seq<int>, tr: Seq<BuilderMap>, us: Seq<Set<usize>>, ps: Seq<Seq<PrefabRoom>>,
    pl: Seq<bool>)
    requires
        vault_run(b_old, b_new, vaults, roll, count, picks, tr, us, ps, pl),
    ensures
        vault_turns(roll, b_old.map.depth as int, count, eligible(vaults, b_old.map.depth as int).len() as int)
            <= eligible(vaults, b_old.map.depth as int).len(),
        forall|i: int| 0 <= i < pl.len() ==> #[trigger] ps[i + 1].len() + (if pl[i] { 1int } else { 0 }) == ps[i].len(),
        forall|i: int| 0 <= i < pl.len() && pl[i] ==> #[trigger] drops_pick(ps[i], ps[i + 1], picks[i]),
{
    assert forall|i: int| 0 <= i < pl.len() implies #[trigger] ps[i + 1].len() + (if pl[i] { 1int } else { 0 }) == ps[i].len() by {
        assert(vault_turn_spec(tr[i], us[i], ps[i], picks[i], tr[i + 1], us[i + 1], ps[i + 1], pl[i]));
    }
    assert forall|i: int| 0 <= i < pl.len() && pl[i] implies #[trigger] drops_pick(ps[i], ps[i + 1], picks[i]) by {
        assert(vault_turn_spec(tr[i], us[i], ps[i], picks[i], tr[i + 1], us[i + 1], ps[i + 1], pl[i]));
    }
}

} // verus!
