use roguelike::components::Position;
use roguelike::map::GameMap;
use roguelike::player::{
    command_for_key, get_item, player_input, skip_turn, state_after_command, try_move_player, try_next_level, Command, Key, Occupant,
};
use roguelike::state::RunState;
use roguelike::tile::TileType;

fn floor_map(w: i32, h: i32) -> GameMap {
    let mut m = GameMap::new(1, w, h, "Test");
    for y in 1..h - 1 {
        for x in 1..w - 1 {
            let i = m.xy_index(x, y);
            m.tiles[i] = TileType::Floor;
        }
    }
    m.populate_blocked();
    m
}

fn occupant(entity: u32, bystander: bool, combatant: bool, door: bool) -> Occupant {
    Occupant { entity, bystander, combatant, door }
}

#[test]
fn keys_map_to_commands() {
    assert_eq!(command_for_key(None), Command::Nothing);
    assert_eq!(command_for_key(Some(Key::Left)), Command::Move { dx: -1, dy: 0 });
    assert_eq!(command_for_key(Some(Key::L)), Command::Move { dx: 1, dy: 0 });
    assert_eq!(command_for_key(Some(Key::Numpad8)), Command::Move { dx: 0, dy: -1 });
    assert_eq!(command_for_key(Some(Key::J)), Command::Move { dx: 0, dy: 1 });
    assert_eq!(command_for_key(Some(Key::Y)), Command::Move { dx: 1, dy: -1 });
    assert_eq!(command_for_key(Some(Key::U)), Command::Move { dx: -1, dy: -1 });
    assert_eq!(command_for_key(Some(Key::N)), Command::Move { dx: 1, dy: 1 });
    assert_eq!(command_for_key(Some(Key::B)), Command::Move { dx: -1, dy: 1 });
    assert_eq!(command_for_key(Some(Key::G)), Command::PickUp);
    assert_eq!(command_for_key(Some(Key::I)), Command::ShowInventory);
    assert_eq!(command_for_key(Some(Key::D)), Command::ShowDropItem);
    assert_eq!(command_for_key(Some(Key::Period)), Command::Descend);
    assert_eq!(command_for_key(Some(Key::R)), Command::ShowRemoveItem);
    assert_eq!(command_for_key(Some(Key::Space)), Command::SkipTurn);
    assert_eq!(command_for_key(Some(Key::Numpad5)), Command::SkipTurn);
    assert_eq!(command_for_key(Some(Key::Escape)), Command::SaveGame);
    assert_eq!(command_for_key(Some(Key::Other)), Command::Nothing);
}

#[test]
fn commands_lead_to_states() {
    assert_eq!(state_after_command(Command::Nothing, false), RunState::AwaitingInput);
    assert_eq!(state_after_command(Command::Move { dx: 1, dy: 0 }, false), RunState::PlayerTurn);
    assert_eq!(state_after_command(Command::PickUp, false), RunState::PlayerTurn);
    assert_eq!(state_after_command(Command::ShowInventory, false), RunState::ShowInventory);
    assert_eq!(state_after_command(Command::Descend, true), RunState::NextLevel);
    assert_eq!(state_after_command(Command::Descend, false), RunState::PlayerTurn);
    assert_eq!(state_after_command(Command::SkipTurn, false), RunState::PlayerTurn);
    assert_eq!(state_after_command(Command::SaveGame, false), RunState::SaveGame);
}

#[test]
fn stairs_down_allow_descending() {
    let mut m = floor_map(6, 6);
    let i = m.xy_index(2, 3);
    m.tiles[i] = TileType::DownStairs;
    assert!(try_next_level(&m, 2, 3));
    assert!(!try_next_level(&m, 3, 3));
}

#[test]
fn resting_heals_one_point_when_safe() {
    assert_eq!(skip_turn(10, 20, false), 11);
    assert_eq!(skip_turn(20, 20, false), 20);
    assert_eq!(skip_turn(10, 20, true), 10);
}

#[test]
fn pick_up_the_last_item_here() {
    let here = Position { x: 2, y: 2 };
    let items = vec![(5, here), (6, Position { x: 3, y: 2 }), (7, here), (8, Position { x: 1, y: 1 })];
    assert_eq!(get_item(&items, here), Some(7));
    assert_eq!(get_item(&items, Position { x: 4, y: 4 }), None);
}

#[test]
fn moving_onto_free_floor() {
    let m = floor_map(6, 6);
    let r = try_move_player(&m, Position { x: 2, y: 2 }, 1, 0, &vec![]);
    assert_eq!(r.position, Position { x: 3, y: 2 });
    assert!(r.moved);
    assert!(r.melee.is_none());
}

#[test]
fn walls_stop_the_player() {
    let m = floor_map(6, 6);
    let r = try_move_player(&m, Position { x: 1, y: 1 }, -1, 0, &vec![]);
    assert_eq!(r.position, Position { x: 1, y: 1 });
    assert!(!r.moved);
    let r = try_move_player(&m, Position { x: 4, y: 4 }, 1, 0, &vec![]);
    assert_eq!(r.position, Position { x: 4, y: 4 });
    assert!(!r.moved);
}

#[test]
fn bumping_a_monster_attacks_it() {
    let m = floor_map(6, 6);
    let r = try_move_player(&m, Position { x: 2, y: 2 }, 0, 1, &vec![occupant(9, false, true, false)]);
    assert_eq!(r.melee, Some(9));
    assert_eq!(r.position, Position { x: 2, y: 2 });
    assert!(!r.moved);
    assert!(r.swaps.is_empty());
}

#[test]
fn bystanders_trade_places() {
    let m = floor_map(6, 6);
    let r = try_move_player(&m, Position { x: 2, y: 2 }, 1, 0, &vec![occupant(4, true, false, false)]);
    assert_eq!(r.swaps, vec![(4, 2, 2)]);
    // The player steps once for the bystander and once more onto the free tile.
    assert_eq!(r.position, Position { x: 4, y: 2 });
    assert!(r.moved);
}

#[test]
fn doors_open_when_bumped() {
    let mut m = floor_map(6, 6);
    let d = m.xy_index(3, 2);
    m.blocked[d] = true;
    let r = try_move_player(&m, Position { x: 2, y: 2 }, 1, 0, &vec![occupant(11, false, false, true)]);
    assert_eq!(r.doors_opened, vec![11]);
    assert_eq!(r.position, Position { x: 2, y: 2 });
    assert!(!r.moved);
}

#[test]
fn the_player_never_leaves_the_map() {
    let m = floor_map(5, 5);
    let crowd = vec![
        occupant(1, true, false, false),
        occupant(2, true, false, false),
        occupant(3, true, false, false),
        occupant(4, true, false, false),
    ];
    for (dx, dy) in [(1, 0), (-1, 0), (0, 1), (0, -1), (1, 1), (-1, -1)] {
        let r = try_move_player(&m, Position { x: 2, y: 2 }, dx, dy, &crowd);
        assert!(r.position.x >= 0 && r.position.x < 5);
        assert!(r.position.y >= 0 && r.position.y < 5);
        assert_eq!(r.swaps.len(), 4);
    }
}

#[test]
fn player_input_gives_the_command_and_the_next_state() {
    let mut m = floor_map(6, 6);
    let i = m.xy_index(2, 2);
    m.tiles[i] = TileType::DownStairs;
    let here = Position { x: 2, y: 2 };
    let there = Position { x: 3, y: 3 };
    assert_eq!(player_input(Some(Key::Period), &m, here), (Command::Descend, RunState::NextLevel));
    assert_eq!(player_input(Some(Key::Period), &m, there), (Command::Descend, RunState::PlayerTurn));
    assert_eq!(player_input(None, &m, here), (Command::Nothing, RunState::AwaitingInput));
    assert_eq!(player_input(Some(Key::H), &m, here), (Command::Move { dx: -1, dy: 0 }, RunState::PlayerTurn));
    assert_eq!(player_input(Some(Key::I), &m, here), (Command::ShowInventory, RunState::ShowInventory));
}
