//! The monster AI's decisions: whom to strike, where to step.
use vstd::prelude::*;
use crate::components::Position;
use crate::map::{GameMap, idx, in_grid, lemma_idx_in_bounds};
use crate::raws::Reaction;
use crate::rng::roll_dice;
use rltk::RandomNumberGenerator;

verus! {

/// Strikes at an adjacent enemy.
pub struct AdjacentAI {}

/// Steps toward a chosen tile along a path.
pub struct ApproachAI {}

/// Wanders when nothing else claims the turn.
pub struct DefaultMoveAI {}

/// How an entity wanders.
pub enum Movement {
    Static,
    Random,
    RandomWaypoint { path: Option<Vec<usize>> },
}

/// What a waypoint walker did this turn.
#[derive(PartialEq, Eq, Structural, Copy, Clone, Debug)]
pub enum WaypointStep {
    /// It stepped onto the next tile of its path.
    Moved,
    /// The next tile was blocked, so it waited.
    Waiting,
    /// Its path is used up; it needs a new target.
    Arrived,
}

/// The tiles around `(x, y)` that the adjacency check looks at, in the order it looks:
/// west, east, north, south, north-west, north-east, south-west, south-east, each only
/// where it lies on the map.
pub open spec fn adjacent_cells(w: int, h: int, x: int, y: int) -> Seq<int> {
    let i = idx(w, x, y);
    (if x > 0 { seq![i - 1] } else { seq![] })
    + (if x < w - 1 { seq![i + 1] } else { seq![] })
    + (if y > 0 { seq![i - w] } else { seq![] })
    + (if y < h - 1 { seq![i + w] } else { seq![] })
    + (if y > 0 && x > 0 { seq![i - w - 1] } else { seq![] })
    + (if y > 0 && x < w - 1 { seq![i - w + 1] } else { seq![] })
    + (if y < h - 1 && x > 0 { seq![i + w - 1] } else { seq![] })
    + (if y < h - 1 && x < w - 1 { seq![i + w + 1] } else { seq![] })
}

/// Whether the adjacency check can run at `(x, y)`: the cell lies on the map.
pub open spec fn adjacency_ok(w: int, h: int, x: int, y: int) -> bool {
    in_grid(w, h, x, y)
}

/// The target of the last `Attack` among the reactions, if any: each attack overwrites the
/// one before.
pub open spec fn last_attack(reactions: Seq<(u32, Reaction)>) -> Option<u32>
    decreases reactions.len(),
{
    if reactions.len() == 0 {
        None
    } else if reactions.last().1 == Reaction::Attack {
        Some(reactions.last().0)
    } else {
        last_attack(reactions.drop_last())
    }
}

/// The cell a random wanderer heads for on a d5 roll: west, east, north, south, or stay.
pub open spec fn wander_target(x: int, y: int, roll: int) -> (int, int) {
    if roll == 1 {
        (x - 1, y)
    } else if roll == 2 {
        (x + 1, y)
    } else if roll == 3 {
        (x, y - 1)
    } else if roll == 4 {
        (x, y + 1)
    } else {
        (x, y)
    }
}

/// The map after an entity leaves tile `from` for tile `to`: only the blocked flags of
/// the two tiles change.
pub open spec fn moved_blocker(m_old: GameMap, m_new: GameMap, from: int, to: int) -> bool {
    &&& m_new.wf()
    &&& m_new.same_shape(&m_old)
    &&& m_new.tiles == m_old.tiles
    &&& m_new.blocked@ == m_old.blocked@.update(from, false).update(to, true)
}

/// A random wanderer's turn on `roll`: it steps to the cell the roll names when that cell
/// is inside the map's border and not blocked, moving its blocker with it.
pub open spec fn wandered(m0: GameMap, p0: Position, roll: int, m1: GameMap, p1: Position, moved: bool) -> bool {
    let w = m0.width as int;
    let h = m0.height as int;
    let (tx, ty) = wander_target(p0.x as int, p0.y as int, roll);
    let free = 0 < tx < w - 1 && 0 < ty < h - 1 && !m0.blocked@[idx(w, tx, ty)];
    &&& moved == free
    &&& free ==> p1.x == tx && p1.y == ty && moved_blocker(m0, m1, idx(w, p0.x as int, p0.y as int), idx(w, tx, ty))
    &&& !free ==> p1 == p0 && m1 == m0
}

/// A random wanderer's turn for some roll of a d5.
pub open spec fn wandered_on_d5(m0: GameMap, p0: Position, m1: GameMap, p1: Position, moved: bool) -> bool {
    exists|roll: int| 1 <= roll <= 5 && #[trigger] wandered(m0, p0, roll, m1, p1, moved)
}

/// The tile a path leads to next, if it has one, lies on a map of `n` tiles.
pub open spec fn next_on_map(path: Seq<usize>, n: int) -> bool {
    path.len() > 1 ==> path[1] < n
}

/// A waypoint walker's turn: with two or more tiles left it steps onto the second unless
/// that tile is blocked, moving its blocker and dropping the path's first tile; with
/// fewer it has arrived.
pub open spec fn followed(m0: GameMap, p0: Position, path0: Seq<usize>, m1: GameMap, p1: Position,
    path1: Seq<usize>, step: WaypointStep) -> bool
{
    let w = m0.width as int;
    &&& path0.len() <= 1 ==> step == WaypointStep::Arrived && m1 == m0 && p1 == p0 && path1 == path0
    &&& path0.len() > 1 && m0.blocked@[path0[1] as int] ==> step == WaypointStep::Waiting
        && m1 == m0 && p1 == p0 && path1 == path0
    &&& path0.len() > 1 && !m0.blocked@[path0[1] as int] ==> step == WaypointStep::Moved
        && p1.x == path0[1] as int % w && p1.y == path0[1] as int / w
        && moved_blocker(m0, m1, idx(w, p0.x as int, p0.y as int), path0[1] as int)
        && path1 == path0.drop_first()
}

/// The tile indices around the entity at `(x, y)` whose occupants it reacts to.
#[verifier::rlimit(40)]
pub fn adjacent_indices(map: &GameMap, x: i32, y: i32) -> (r: Vec<usize>)
    requires
        map.wf(),
        adjacency_ok(map.width as int, map.height as int, x as int, y as int),
    ensures
        r@.map_values(|i: usize| i as int) == adjacent_cells(map.width as int, map.height as int, x as int, y as int),
        forall|k: int| 0 <= k < r.len() ==> #[trigger] r@[k] < map.tiles.len(),
{
    let ghost w = map.width as int;
    let ghost h = map.height as int;
    proof {
        lemma_idx_in_bounds(w, h, x as int, y as int);
        if x > 0 && y < h - 1 { lemma_idx_in_bounds(w, h, x - 1, y + 1); }
        if y > 0 && x > 0 { lemma_idx_in_bounds(w, h, x - 1, y - 1); }
        if y < h - 1 && x < w - 1 { lemma_idx_in_bounds(w, h, x + 1, y + 1); }
        if y < h - 1 { lemma_idx_in_bounds(w, h, x as int, y + 1); }
        if x < w - 1 { lemma_idx_in_bounds(w, h, x + 1, y as int); }
        if y > 0 { lemma_idx_in_bounds(w, h, x as int, y - 1); }
        if y > 0 && x < w - 1 { lemma_idx_in_bounds(w, h, x + 1, y - 1); }
        assert(idx(w, x - 1, y + 1) == idx(w, x as int, y as int) + w - 1) by (nonlinear_arith);
        assert(idx(w, x + 1, y + 1) == idx(w, x as int, y as int) + w + 1) by (nonlinear_arith);
        assert(idx(w, x as int, y + 1) == idx(w, x as int, y as int) + w) by (nonlinear_arith);
        assert(idx(w, x as int, y - 1) == idx(w, x as int, y as int) - w) by (nonlinear_arith);
        assert(idx(w, x + 1, y - 1) == idx(w, x as int, y as int) - w + 1) by (nonlinear_arith);
        assert(idx(w, x - 1, y - 1) == idx(w, x as int, y as int) - w - 1) by (nonlinear_arith);
    }
    let index = map.xy_index(x, y);
    let w_us = map.width as usize;
    let mut r: Vec<usize> = Vec::new();
    let ghost c = idx(w, x as int, y as int);
    let ghost part1: Seq<int> = if x > 0 { seq![c - 1] } else { seq![] };
    let ghost part2: Seq<int> = part1 + if x < w - 1 { seq![c + 1] } else { seq![] };
    let ghost part3: Seq<int> = part2 + if y > 0 { seq![c - w] } else { seq![] };
    let ghost part4: Seq<int> = part3 + if y < h - 1 { seq![c + w] } else { seq![] };
    let ghost part5: Seq<int> = part4 + if y > 0 && x > 0 { seq![c - w - 1] } else { seq![] };
    let ghost part6: Seq<int> = part5 + if y > 0 && x < w - 1 { seq![c - w + 1] } else { seq![] };
    let ghost part7: Seq<int> = part6 + if y < h - 1 && x > 0 { seq![c + w - 1] } else { seq![] };
    if x > 0 { r.push(index - 1); }
    assert(r@.map_values(|i: usize| i as int) =~= part1);
    assert(forall|k: int| 0 <= k < r.len() ==> #[trigger] r@[k] < map.tiles.len());
    if x < map.width - 1 { r.push(index + 1); }
    assert(r@.map_values(|i: usize| i as int) =~= part2);
    assert(forall|k: int| 0 <= k < r.len() ==> #[trigger] r@[k] < map.tiles.len());
    if y > 0 { r.push(index - w_us); }
    assert(r@.map_values(|i: usize| i as int) =~= part3);
    assert(forall|k: int| 0 <= k < r.len() ==> #[trigger] r@[k] < map.tiles.len());
    if y < map.height - 1 { r.push(index + w_us); }
    assert(r@.map_values(|i: usize| i as int) =~= part4);
    assert(forall|k: int| 0 <= k < r.len() ==> #[trigger] r@[k] < map.tiles.len());
    if y > 0 && x > 0 { r.push((index - w_us) - 1); }
    assert(r@.map_values(|i: usize| i as int) =~= part5);
    assert(forall|k: int| 0 <= k < r.len() ==> #[trigger] r@[k] < map.tiles.len());
    if y > 0 && x < map.width - 1 { r.push((index - w_us) + 1); }
    assert(r@.map_values(|i: usize| i as int) =~= part6);
    assert(forall|k: int| 0 <= k < r.len() ==> #[trigger] r@[k] < map.tiles.len());
    if y < map.height - 1 && x > 0 { r.push((index + w_us) - 1); }
    assert(r@.map_values(|i: usize| i as int) =~= part7);
    assert(forall|k: int| 0 <= k < r.len() ==> #[trigger] r@[k] < map.tiles.len());
    if y < map.height - 1 && x < map.width - 1 { r.push((index + w_us) + 1); }
    assert(r@.map_values(|i: usize| i as int) =~= adjacent_cells(w, h, x as int, y as int));
    r
}

/// The entity to strike: the target of the last `Attack` reaction, if any. The turn is
/// spent exactly when there is one.
pub fn melee_target(reactions: &Vec<(u32, Reaction)>) -> (t: Option<u32>)
    ensures
        t == last_attack(reactions@),
{
    let mut t: Option<u32> = None;
    let mut i: usize = 0;
    while i < reactions.len()
        invariant
            i <= reactions.len(),
            t == last_attack(reactions@.take(i as int)),
        decreases reactions.len() - i,
    {
        assert(reactions@.take(i + 1).drop_last() =~= reactions@.take(i as int));
        if reactions[i].1 == Reaction::Attack {
            t = Some(reactions[i].0);
        }
        i = i + 1;
    }
    assert(reactions@.take(reactions.len() as int) =~= reactions@);
    t
}

/// The tile index an approach aims at, given as a flat index into a map `w` wide.
pub fn approach_goal(map: &GameMap, index: i32) -> (r: usize)
    requires
        map.wf(),
        map.width > 0,
        0 <= index,
    ensures
        r == index,
{
    let x = index % map.width;
    let y = index / map.width;
    proof {
        assert(idx(map.width as int, x as int, y as int) == index) by (nonlinear_arith)
            requires x == index % map.width, y == index / map.width, map.width > 0, index >= 0;
    }
    map.xy_index(x, y)
}

/// Where a path found by the approach search takes the walker: the path's second tile,
/// when the search succeeded and the path has one.
pub fn approach_step(map: &GameMap, success: bool, steps: &Vec<usize>) -> (p: Option<Position>)
    requires
        map.wf(),
        map.width > 0,
        success && steps.len() > 1 ==> steps@[1] <= i32::MAX,
    ensures
        p == (if success && steps.len() > 1 {
            Some(Position { x: (steps@[1] as int % map.width as int) as i32, y: (steps@[1] as int / map.width as int) as i32 })
        } else {
            None
        }),
{
    if success && steps.len() > 1 {
        let s = steps[1] as i32;
        Some(Position { x: s % map.width, y: s / map.width })
    } else {
        None
    }
}

/// The waypoint path a search for a new wander target gives: its steps when the search
/// succeeded and found more than the starting tile, otherwise none (the walker keeps
/// looking next turn).
pub fn path_from_search(success: bool, steps: Vec<usize>) -> (path: Option<Vec<usize>>)
    ensures
        success && steps.len() > 1 ==> (path matches Some(q) && q@ == steps@),
        !(success && steps.len() > 1) ==> path is None,
{
    if success && steps.len() > 1 {
        Some(steps)
    } else {
        None
    }
}

/// A random wanderer's turn on a d5 roll: it steps to the neighbour the roll names when
/// that cell is inside the map's border and not blocked, moving its blocker with it.
pub fn random_move(map: &mut GameMap, pos: &mut Position, roll: i32) -> (moved: bool)
    requires
        old(map).wf(),
        in_grid(old(map).width as int, old(map).height as int, old(pos).x as int, old(pos).y as int),
    ensures
        wandered(*old(map), *old(pos), roll as int, *final(map), *final(pos), moved),
{
    let ghost w = map.width as int;
    let ghost h = map.height as int;
    let mut x = pos.x;
    let mut y = pos.y;
    if roll == 1 {
        x = x - 1;
    } else if roll == 2 {
        x = x + 1;
    } else if roll == 3 {
        y = y - 1;
    } else if roll == 4 {
        y = y + 1;
    }
    if x > 0 && x < map.width - 1 && y > 0 && y < map.height - 1 {
        proof {
            lemma_idx_in_bounds(w, h, x as int, y as int);
            lemma_idx_in_bounds(w, h, pos.x as int, pos.y as int);
        }
        let dest_index = map.xy_index(x, y);
        if !map.blocked[dest_index] {
            let index = map.xy_index(pos.x, pos.y);
            map.blocked.set(index, false);
            pos.x = x;
            pos.y = y;
            map.blocked.set(dest_index, true);
            return true;
        }
    }
    false
}

/// A waypoint walker's turn: with two or more tiles left on its path it steps onto the
/// second when that tile is not blocked, moving its blocker and dropping the path's first
/// tile; with fewer it has arrived.
pub fn waypoint_step(map: &mut GameMap, pos: &mut Position, path: &mut Vec<usize>) -> (step: WaypointStep)
    requires
        old(map).wf(),
        old(map).width > 0,
        in_grid(old(map).width as int, old(map).height as int, old(pos).x as int, old(pos).y as int),
        next_on_map(old(path)@, old(map).tiles.len() as int),
    ensures
        followed(*old(map), *old(pos), old(path)@, *final(map), *final(pos), final(path)@, step),
{
    let ghost w = map.width as int;
    let ghost h = map.height as int;
    if path.len() > 1 {
        let next = path[1];
        if !map.blocked[next] {
            proof { lemma_idx_in_bounds(w, h, pos.x as int, pos.y as int); }
            let index = map.xy_index(pos.x, pos.y);
            map.blocked.set(index, false);
            proof {
                assert(next < w * h);
                assert(next <= i32::MAX);
            }
            let n = next as i32;
            pos.x = n % map.width;
            pos.y = n / map.width;
            proof {
                assert(idx(w, pos.x as int, pos.y as int) == next) by (nonlinear_arith)
                    requires pos.x == n as int % w, pos.y == n as int / w, w > 0, n >= 0, n == next;
            }
            let new_index = map.xy_index(pos.x, pos.y);
            map.blocked.set(new_index, true);
            path.remove(0);
            WaypointStep::Moved
        } else {
            WaypointStep::Waiting
        }
    } else {
        WaypointStep::Arrived
    }
}

/// Whether a wanderer may pick `(x, y)` as its next waypoint: its tile must be walkable.
pub fn waypoint_target_ok(map: &GameMap, x: i32, y: i32) -> (ok: bool)
    requires
        map.wf(),
        in_grid(map.width as int, map.height as int, x as int, y as int),
    ensures
        ok == crate::tile::spec_tile_walkable(map.tiles@[idx(map.width as int, x as int, y as int)]),
{
    proof { lemma_idx_in_bounds(map.width as int, map.height as int, x as int, y as int); }
    let index = map.xy_index(x, y);
    crate::tile::tile_walkable(map.tiles[index])
}

/// A wanderer's turn. A static one stays put. A random one steps on a d5 roll. One with a
/// waypoint path follows it, and forgets it on arrival. One without a path picks a random
/// cell two or more in from the map's edge (a d(w-2) across, a d(h-2) down) and, when its
/// tile is walkable, asks for a path to it: the result names the cell. The result also
/// says whether the wanderer moved.
pub fn default_move(map: &mut GameMap, pos: &mut Position, mode: Movement, rng: &mut RandomNumberGenerator)
    -> (r: (Movement, Option<(i32, i32)>, bool))
    requires
        old(map).wf(),
        in_grid(old(map).width as int, old(map).height as int, old(pos).x as int, old(pos).y as int),
        mode matches Movement::RandomWaypoint { path: None } ==> old(map).width >= 3 && old(map).height >= 3,
        mode matches Movement::RandomWaypoint { path: Some(p) } ==> next_on_map(p@, old(map).tiles.len() as int),
    ensures
        match mode {
            Movement::Static => r.0 == Movement::Static && (r.1 is None) && !r.2 && *final(map) == *old(map) && *final(pos) == *old(pos),
            Movement::Random => r.0 == Movement::Random && (r.1 is None)
                && wandered_on_d5(*old(map), *old(pos), *final(map), *final(pos), r.2),
            Movement::RandomWaypoint { path: Some(p) } => (r.1 is None)
                && exists|step: WaypointStep, p1: Seq<usize>|
                    #[trigger] followed(*old(map), *old(pos), p@, *final(map), *final(pos), p1, step)
                    && r.2 == (step == WaypointStep::Moved)
                    && (step == WaypointStep::Arrived ==> r.0 == (Movement::RandomWaypoint { path: None }))
                    && (step != WaypointStep::Arrived ==> (r.0 matches Movement::RandomWaypoint { path: Some(q) } && q@ == p1)),
            Movement::RandomWaypoint { path: None } => r.0 == (Movement::RandomWaypoint { path: None }) && !r.2
                && *final(map) == *old(map) && *final(pos) == *old(pos)
                && exists|tx: int, ty: int| 1 <= tx <= old(map).width - 2 && 1 <= ty <= old(map).height - 2
                    && r.1 == (if crate::tile::spec_tile_walkable(old(map).tiles@[#[trigger] idx(old(map).width as int, tx, ty)]) {
                        Some((tx as i32, ty as i32))
                    } else {
                        None
                    }),
        },
{
    match mode {
        Movement::Static => (Movement::Static, None, false),
        Movement::Random => {
            let roll = roll_dice(rng, 1, 5);
            let ghost m0 = *map;
            let ghost p0 = *pos;
            let moved = random_move(map, pos, roll);
            assert(wandered(m0, p0, roll as int, *map, *pos, moved));
            assert(wandered_on_d5(m0, p0, *map, *pos, moved));
            (Movement::Random, None, moved)
        },
        Movement::RandomWaypoint { path: Some(p) } => {
            let mut path = p;
            let step = waypoint_step(map, pos, &mut path);
            match step {
                WaypointStep::Arrived => (Movement::RandomWaypoint { path: None }, None, false),
                WaypointStep::Moved => (Movement::RandomWaypoint { path: Some(path) }, None, true),
                WaypointStep::Waiting => (Movement::RandomWaypoint { path: Some(path) }, None, false),
            }
        },
        Movement::RandomWaypoint { path: None } => {
            let target_x = roll_dice(rng, 1, map.width - 2);
            let target_y = roll_dice(rng, 1, map.height - 2);
            if waypoint_target_ok(map, target_x, target_y) {
                (Movement::RandomWaypoint { path: None }, Some((target_x, target_y)), false)
            } else {
                (Movement::RandomWaypoint { path: None }, None, false)
            }
        },
    }
}

} // verus!
