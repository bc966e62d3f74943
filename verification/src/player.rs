//! The player's commands: moving, bumping, picking up, resting, descending.
use vstd::prelude::*;
use crate::components::Position;
use crate::map::{GameMap, idx, in_grid, lemma_idx_in_bounds};
use crate::tile::TileType;
use crate::state::RunState;

verus! {

/// The keys the game responds to; every other key is `Other`.
#[derive(PartialEq, Eq, Structural, Copy, Clone, Debug)]
pub enum Key {
    Left, Right, Up, Down,
    Numpad1, Numpad2, Numpad3, Numpad4, Numpad5, Numpad6, Numpad7, Numpad8, Numpad9,
    H, J, K, L, Y, U, N, B,
    G, I, D, R,
    Period, Space, Escape,
    Other,
}

/// What a key press asks for.
#[derive(PartialEq, Eq, Structural, Copy, Clone, Debug)]
pub enum Command {
    /// No key, or one the game ignores.
    Nothing,
    Move { dx: i32, dy: i32 },
    PickUp,
    ShowInventory,
    ShowDropItem,
    Descend,
    ShowRemoveItem,
    SkipTurn,
    SaveGame,
}

/// What stands on the tile the player moves into.
#[derive(PartialEq, Eq, Structural, Copy, Clone, Debug)]
pub struct Occupant {
    pub entity: u32,
    pub bystander: bool,
    pub combatant: bool,
    pub door: bool,
}

/// The result of a move: where the player ends up, whether it moved, whom it attacks,
/// which bystanders trade places with it (entity and the cell it takes), and which doors
/// open.
pub struct MoveOutcome {
    pub position: Position,
    pub moved: bool,
    pub melee: Option<u32>,
    pub swaps: Vec<(u32, i32, i32)>,
    pub doors_opened: Vec<u32>,
}

/// The key bindings.
pub open spec fn spec_command(key: Option<Key>) -> Command {
    match key {
        None => Command::Nothing,
        Some(k) => match k {
            Key::Left | Key::Numpad4 | Key::H => Command::Move { dx: -1i32, dy: 0i32 },
            Key::Right | Key::Numpad6 | Key::L => Command::Move { dx: 1i32, dy: 0i32 },
            Key::Up | Key::Numpad8 | Key::K => Command::Move { dx: 0i32, dy: -1i32 },
            Key::Down | Key::Numpad2 | Key::J => Command::Move { dx: 0i32, dy: 1i32 },
            Key::Numpad9 | Key::Y => Command::Move { dx: 1i32, dy: -1i32 },
            Key::Numpad7 | Key::U => Command::Move { dx: -1i32, dy: -1i32 },
            Key::Numpad3 | Key::N => Command::Move { dx: 1i32, dy: 1i32 },
            Key::Numpad1 | Key::B => Command::Move { dx: -1i32, dy: 1i32 },
            Key::G => Command::PickUp,
            Key::I => Command::ShowInventory,
            Key::D => Command::ShowDropItem,
            Key::Period => Command::Descend,
            Key::R => Command::ShowRemoveItem,
            Key::Numpad5 | Key::Space => Command::SkipTurn,
            Key::Escape => Command::SaveGame,
            Key::Other => Command::Nothing,
        },
    }
}

/// The state a command leads to once carried out; `on_stairs` says whether the player
/// stands on a way down.
pub open spec fn spec_state_after(cmd: Command, on_stairs: bool) -> RunState {
    match cmd {
        Command::Nothing => RunState::AwaitingInput,
        Command::ShowInventory => RunState::ShowInventory,
        Command::ShowDropItem => RunState::ShowDropItem,
        Command::ShowRemoveItem => RunState::ShowRemoveItem,
        Command::SaveGame => RunState::SaveGame,
        Command::Descend => if on_stairs { RunState::NextLevel } else { RunState::PlayerTurn },
        _ => RunState::PlayerTurn,
    }
}

/// `i32::min(hi, i32::max(lo, v))`.
pub open spec fn clamp(lo: int, hi: int, v: int) -> int {
    if v < lo { if lo < hi { lo } else { hi } } else if v < hi { v } else { hi }
}

/// One step of `delta` from `p`, each coordinate kept within the map.
pub open spec fn step_within(p: Position, dx: int, dy: int, w: int, h: int) -> Position {
    Position { x: clamp(0, w - 1, p.x + dx) as i32, y: clamp(0, h - 1, p.y + dy) as i32 }
}

/// The state of a move after meeting the occupants in order: position, whether it moved,
/// the bystanders to swap, the doors opened, and the one attacked, which ends the move.
pub open spec fn meet_occupants(occ: Seq<Occupant>, start: Position, dx: int, dy: int, w: int, h: int)
    -> (Position, bool, Seq<(u32, i32, i32)>, Seq<u32>, Option<u32>)
    decreases occ.len(),
{
    if occ.len() == 0 {
        (start, false, Seq::empty(), Seq::empty(), None)
    } else {
        let (p, moved, swaps, doors, melee) = meet_occupants(occ.drop_last(), start, dx, dy, w, h);
        let o = occ.last();
        if melee is Some {
            (p, moved, swaps, doors, melee)
        } else if o.bystander {
            (step_within(p, dx, dy, w, h), true, swaps.push((o.entity, p.x, p.y)),
                if o.door { doors.push(o.entity) } else { doors }, None)
        } else if o.combatant {
            (p, moved, swaps, doors, Some(o.entity))
        } else {
            (p, moved, swaps, if o.door { doors.push(o.entity) } else { doors }, None)
        }
    }
}

/// The command a key press gives.
pub fn command_for_key(key: Option<Key>) -> (c: Command)
    ensures
        c == spec_command(key),
{
    match key {
        None => Command::Nothing,
        Some(k) => match k {
            Key::Left | Key::Numpad4 | Key::H => Command::Move { dx: -1, dy: 0 },
            Key::Right | Key::Numpad6 | Key::L => Command::Move { dx: 1, dy: 0 },
            Key::Up | Key::Numpad8 | Key::K => Command::Move { dx: 0, dy: -1 },
            Key::Down | Key::Numpad2 | Key::J => Command::Move { dx: 0, dy: 1 },
            Key::Numpad9 | Key::Y => Command::Move { dx: 1, dy: -1 },
            Key::Numpad7 | Key::U => Command::Move { dx: -1, dy: -1 },
            Key::Numpad3 | Key::N => Command::Move { dx: 1, dy: 1 },
            Key::Numpad1 | Key::B => Command::Move { dx: -1, dy: 1 },
            Key::G => Command::PickUp,
            Key::I => Command::ShowInventory,
            Key::D => Command::ShowDropItem,
            Key::Period => Command::Descend,
            Key::R => Command::ShowRemoveItem,
            Key::Numpad5 | Key::Space => Command::SkipTurn,
            Key::Escape => Command::SaveGame,
            Key::Other => Command::Nothing,
        },
    }
}

/// The state after the player's input has been carried out.
pub fn state_after_command(cmd: Command, on_stairs: bool) -> (s: RunState)
    ensures
        s == spec_state_after(cmd, on_stairs),
{
    match cmd {
        Command::Nothing => RunState::AwaitingInput,
        Command::ShowInventory => RunState::ShowInventory,
        Command::ShowDropItem => RunState::ShowDropItem,
        Command::ShowRemoveItem => RunState::ShowRemoveItem,
        Command::SaveGame => RunState::SaveGame,
        Command::Descend => if on_stairs { RunState::NextLevel } else { RunState::PlayerTurn },
        _ => RunState::PlayerTurn,
    }
}

/// The player's input for this frame: the command the key asks for, and the state the
/// game moves to once it is carried out (descending needs stairs down under the player).
pub fn player_input(key: Option<Key>, map: &GameMap, player: Position) -> (r: (Command, RunState))
    requires
        map.wf(),
        in_grid(map.width as int, map.height as int, player.x as int, player.y as int),
    ensures
        r.0 == spec_command(key),
        r.1 == spec_state_after(spec_command(key),
            map.tiles@[idx(map.width as int, player.x as int, player.y as int)] == TileType::DownStairs),
{
    let cmd = command_for_key(key);
    let on_stairs = match cmd {
        Command::Descend => try_next_level(map, player.x, player.y),
        _ => false,
    };
    (cmd, state_after_command(cmd, on_stairs))
}

/// Whether the player at `(x, y)` stands on stairs down.
pub fn try_next_level(map: &GameMap, x: i32, y: i32) -> (down: bool)
    requires
        map.wf(),
        in_grid(map.width as int, map.height as int, x as int, y as int),
    ensures
        down == (map.tiles@[idx(map.width as int, x as int, y as int)] == TileType::DownStairs),
{
    proof { lemma_idx_in_bounds(map.width as int, map.height as int, x as int, y as int); }
    let index = map.xy_index(x, y);
    map.tiles[index] == TileType::DownStairs
}

/// Hit points after resting a turn: one more, up to the maximum, unless a monster is in view.
pub fn skip_turn(hp: i32, max_hp: i32, monster_in_view: bool) -> (r: i32)
    requires
        hp < i32::MAX,
    ensures
        r == if monster_in_view { hp as int } else if hp + 1 < max_hp { hp + 1 } else { max_hp as int },
{
    if monster_in_view {
        hp
    } else if hp + 1 < max_hp {
        hp + 1
    } else {
        max_hp
    }
}

/// The item the player picks up: the last one listed at the player's position, if any.
pub fn get_item(items: &Vec<(u32, Position)>, player: Position) -> (r: Option<u32>)
    ensures
        r is None <==> forall|k: int| 0 <= k < items.len() ==> (#[trigger] items@[k]).1 != player,
        r matches Some(e) ==> exists|k: int| 0 <= k < items.len() && (#[trigger] items@[k]).1 == player
            && items@[k].0 == e
            && forall|j: int| k < j < items.len() ==> (#[trigger] items@[j]).1 != player,
{
    let mut target: Option<u32> = None;
    let mut i: usize = 0;
    while i < items.len()
        invariant
            i <= items.len(),
            target is None <==> forall|k: int| 0 <= k < i ==> (#[trigger] items@[k]).1 != player,
            target matches Some(e) ==> exists|k: int| 0 <= k < i && (#[trigger] items@[k]).1 == player
                && items@[k].0 == e
                && forall|j: int| k < j < i ==> (#[trigger] items@[j]).1 != player,
        decreases items.len() - i,
    {
        let it = items[i];
        if it.1 == player {
            target = Some(it.0);
            assert(items@[i as int].1 == player);
        }
        i = i + 1;
    }
    target
}

/// Moves the player by `(dx, dy)`. A move that would leave the map's inner area does
/// nothing. Otherwise each occupant of the destination is met in turn: a bystander trades
/// places (the player steps, the bystander takes the player's cell); anything that fights
/// is attacked, which ends the move with no swaps made; a door is opened. Then, if the
/// destination is not blocked, the player steps.
pub fn try_move_player(map: &GameMap, pos: Position, dx: i32, dy: i32, occupants: &Vec<Occupant>) -> (r: MoveOutcome)
    requires
        map.wf(),
        in_grid(map.width as int, map.height as int, pos.x as int, pos.y as int),
        i32::MIN <= pos.x + dx <= i32::MAX,
        1 <= pos.x + dx <= map.width - 1 ==> i32::MIN <= pos.y + dy <= i32::MAX,
    ensures
        ({
            let w = map.width as int;
            let h = map.height as int;
            let tx = pos.x + dx;
            let ty = pos.y + dy;
            if tx < 1 || tx > w - 1 || ty < 1 || ty > h - 1 {
                &&& r.position == pos
                &&& !r.moved
                &&& r.melee is None
                &&& r.swaps@.len() == 0
                &&& r.doors_opened@.len() == 0
            } else {
                let (p, moved, swaps, doors, melee) = meet_occupants(occupants@, pos, dx as int, dy as int, w, h);
                &&& r.melee == melee
                &&& r.doors_opened@ == doors
                &&& melee is Some ==> r.position == p && r.moved == moved && r.swaps@.len() == 0
                &&& melee is None && map.blocked@[idx(w, tx, ty)] ==> r.position == p && r.moved == moved && r.swaps@ == swaps
                &&& melee is None && !map.blocked@[idx(w, tx, ty)] ==> r.position == step_within(p, dx as int, dy as int, w, h)
                    && r.moved && r.swaps@ == swaps
            }
        }),
{
    let ghost w = map.width as int;
    let ghost h = map.height as int;
    if pos.x + dx < 1 || pos.x + dx > map.width - 1 || pos.y + dy < 1 || pos.y + dy > map.height - 1 {
        return MoveOutcome { position: pos, moved: false, melee: None, swaps: Vec::new(), doors_opened: Vec::new() };
    }
    proof {
        lemma_idx_in_bounds(w, h, pos.x + dx, pos.y + dy);
        assert(2 * w <= w * h && 2 * h <= w * h) by (nonlinear_arith)
            requires w >= 2, h >= 2;
    }
    let destination_index = map.xy_index(pos.x + dx, pos.y + dy);
    let mut p = pos;
    let mut moved = false;
    let mut swaps: Vec<(u32, i32, i32)> = Vec::new();
    let mut doors: Vec<u32> = Vec::new();
    let mut i: usize = 0;
    while i < occupants.len()
        invariant
            i <= occupants.len(),
            w == map.width,
            h == map.height,
            0 < w,
            0 < h,
            2 * w <= i32::MAX,
            2 * h <= i32::MAX,
            in_grid(w, h, pos.x as int, pos.y as int),
            0 <= p.x < w,
            0 <= p.y < h,
            1 <= pos.x + dx <= w - 1,
            1 <= pos.y + dy <= h - 1,
            meet_occupants(occupants@.take(i as int), pos, dx as int, dy as int, w, h)
                == (p, moved, swaps@, doors@, None::<u32>),
        decreases occupants.len() - i,
    {
        assert(occupants@.take(i + 1).drop_last() =~= occupants@.take(i as int));
        let o = occupants[i];
        if o.bystander {
            swaps.push((o.entity, p.x, p.y));
            let nx = p.x + dx;
            let ny = p.y + dy;
            let cx = if nx < 0 { 0 } else if nx < map.width - 1 { nx } else { map.width - 1 };
            let cy = if ny < 0 { 0 } else if ny < map.height - 1 { ny } else { map.height - 1 };
            p = Position { x: cx, y: cy };
            moved = true;
        } else if o.combatant {
            proof {
                let k = i + 1;
                assert(occupants@.take(k).last() == o);
                assert(meet_occupants(occupants@.take(k), pos, dx as int, dy as int, w, h)
                    == (p, moved, swaps@, doors@, Some(o.entity)));
                lemma_meet_stops(occupants@, k, pos, dx as int, dy as int, w, h);
                assert(occupants@.take(occupants.len() as int) =~= occupants@);
            }
            return MoveOutcome { position: p, moved, melee: Some(o.entity), swaps: Vec::new(), doors_opened: doors };
        }
        if o.door {
            doors.push(o.entity);
        }
        i = i + 1;
    }
    assert(occupants@.take(occupants.len() as int) =~= occupants@);
    if !map.blocked[destination_index] {
        let nx = p.x + dx;
        let ny = p.y + dy;
        let cx = if nx < 0 { 0 } else if nx < map.width - 1 { nx } else { map.width - 1 };
        let cy = if ny < 0 { 0 } else if ny < map.height - 1 { ny } else { map.height - 1 };
        p = Position { x: cx, y: cy };
        moved = true;
    }
    MoveOutcome { position: p, moved, melee: None, swaps, doors_opened: doors }
}

/// Once an attack has ended the move, later occupants change nothing.
proof fn lemma_meet_stops(occ: Seq<Occupant>, k: int, start: Position, dx: int, dy: int, w: int, h: int)
    requires
        0 <= k <= occ.len(),
        meet_occupants(occ.take(k), start, dx, dy, w, h).4 is Some,
    ensures
        meet_occupants(occ, start, dx, dy, w, h) == meet_occupants(occ.take(k), start, dx, dy, w, h),
    decreases occ.len() - k,
{
    if k < occ.len() {
        assert(occ.take(k + 1).drop_last() =~= occ.take(k));
        lemma_meet_stops(occ, k + 1, start, dx, dy, w, h);
    } else {
        assert(occ.take(k) =~= occ);
    }
}

} // verus!
