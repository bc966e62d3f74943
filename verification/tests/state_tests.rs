use roguelike::components::Position;
use roguelike::map::GameMap;
use roguelike::state::{
    entities_to_remove_on_level_change, mapgen_advance, next_state, EntityInfo, FrameEvent, GameOverResult,
    ItemMenuResult, MainMenuResult, MainMenuSelection, RunState,
};
use roguelike::tile::TileType;
use roguelike::visibility::{points_within, rebuild_view_blocked, reveal_visible};

const PRE: RunState = RunState::PreRun;

#[test]
fn turns_cycle_through_the_monsters() {
    assert_eq!(next_state(RunState::PreRun, FrameEvent::SystemsRan, PRE), RunState::AwaitingInput);
    assert_eq!(next_state(RunState::PlayerTurn, FrameEvent::SystemsRan, PRE), RunState::MonsterTurn);
    assert_eq!(next_state(RunState::MonsterTurn, FrameEvent::SystemsRan, PRE), RunState::AwaitingInput);
    assert_eq!(
        next_state(RunState::AwaitingInput, FrameEvent::Input { next: RunState::PlayerTurn }, PRE),
        RunState::PlayerTurn
    );
}

#[test]
fn item_menus_answer() {
    let menu = |result, item, ranged| FrameEvent::ItemMenu { result, item, ranged };
    assert_eq!(next_state(RunState::ShowInventory, menu(ItemMenuResult::Cancel, None, None), PRE), RunState::AwaitingInput);
    assert_eq!(next_state(RunState::ShowInventory, menu(ItemMenuResult::NoResponse, None, None), PRE), RunState::ShowInventory);
    assert_eq!(next_state(RunState::ShowInventory, menu(ItemMenuResult::Selected, Some(9), None), PRE), RunState::PlayerTurn);
    assert_eq!(
        next_state(RunState::ShowInventory, menu(ItemMenuResult::Selected, Some(9), Some(6)), PRE),
        RunState::ShowTargeting { range: 6, item: 9 }
    );
    assert_eq!(next_state(RunState::ShowDropItem, menu(ItemMenuResult::Selected, Some(9), None), PRE), RunState::PlayerTurn);
    assert_eq!(next_state(RunState::ShowRemoveItem, menu(ItemMenuResult::Cancel, None, None), PRE), RunState::AwaitingInput);
    let targeting = RunState::ShowTargeting { range: 6, item: 9 };
    assert_eq!(next_state(targeting, menu(ItemMenuResult::NoResponse, None, None), PRE), targeting);
    assert_eq!(next_state(targeting, menu(ItemMenuResult::Selected, Some(9), None), PRE), RunState::PlayerTurn);
}

#[test]
fn main_menu_and_game_over() {
    let menu = RunState::MainMenu { menu_selection: MainMenuSelection::NewGame };
    assert_eq!(
        next_state(menu, FrameEvent::MainMenu { choice: MainMenuResult::NoSelection { selected: MainMenuSelection::LoadGame } }, PRE),
        RunState::MainMenu { menu_selection: MainMenuSelection::LoadGame }
    );
    assert_eq!(
        next_state(menu, FrameEvent::MainMenu { choice: MainMenuResult::Selected { selected: MainMenuSelection::NewGame } }, PRE),
        RunState::PreRun
    );
    assert_eq!(
        next_state(menu, FrameEvent::MainMenu { choice: MainMenuResult::Selected { selected: MainMenuSelection::LoadGame } }, PRE),
        RunState::AwaitingInput
    );
    assert_eq!(
        next_state(RunState::SaveGame, FrameEvent::Saved, PRE),
        RunState::MainMenu { menu_selection: MainMenuSelection::LoadGame }
    );
    assert_eq!(next_state(RunState::GameOver, FrameEvent::GameOver { answer: GameOverResult::NoSelection }, PRE), RunState::GameOver);
    assert_eq!(
        next_state(RunState::GameOver, FrameEvent::GameOver { answer: GameOverResult::QuitToMenu }, PRE),
        RunState::MainMenu { menu_selection: MainMenuSelection::NewGame }
    );
}

#[test]
fn level_changes_go_through_map_generation() {
    assert_eq!(next_state(RunState::NextLevel, FrameEvent::LevelBuilt, PRE), RunState::MapGeneration);
    assert_eq!(next_state(RunState::PreviousLevel, FrameEvent::LevelBuilt, PRE), RunState::MapGeneration);
    assert_eq!(next_state(RunState::MapGeneration, FrameEvent::MapgenShown { finished: false }, PRE), RunState::MapGeneration);
    assert_eq!(next_state(RunState::MapGeneration, FrameEvent::MapgenShown { finished: true }, PRE), RunState::PreRun);
    assert_eq!(mapgen_advance(0, 3), (1, false));
    assert_eq!(mapgen_advance(2, 3), (3, true));
    assert_eq!(mapgen_advance(0, 0), (1, true));
}

#[test]
fn level_change_keeps_the_player_and_belongings() {
    let player = 1;
    let es = vec![
        EntityInfo { entity: 1, is_player: true, backpack_owner: None, equipped_owner: None },
        EntityInfo { entity: 2, is_player: false, backpack_owner: Some(1), equipped_owner: None },
        EntityInfo { entity: 3, is_player: false, backpack_owner: None, equipped_owner: Some(1) },
        EntityInfo { entity: 4, is_player: false, backpack_owner: Some(7), equipped_owner: None },
        EntityInfo { entity: 5, is_player: false, backpack_owner: None, equipped_owner: None },
    ];
    assert_eq!(entities_to_remove_on_level_change(&es, player), vec![4, 5]);
}

#[test]
fn points_are_kept_inside_the_ranges() {
    let pts = vec![(0, 0), (1, 1), (5, 2), (4, 4), (-1, 3), (3, 5)];
    assert_eq!(points_within(&pts, 1, 5, 1, 5), vec![(1, 1), (4, 4)]);
    assert_eq!(points_within(&pts, 0, 6, 0, 6), vec![(0, 0), (1, 1), (5, 2), (4, 4), (3, 5)]);
}

#[test]
fn the_player_sees_and_remembers() {
    let mut m = GameMap::new(1, 6, 6, "Test");
    let old = m.xy_index(4, 4);
    m.visible_tiles[old] = true;
    m.revealed_tiles[old] = true;
    reveal_visible(&mut m, &vec![(2, 2), (0, 3), (5, 5), (3, 1)]);
    let a = m.xy_index(2, 2);
    let b = m.xy_index(3, 1);
    for i in 0..36 {
        assert_eq!(m.visible_tiles[i], i == a || i == b);
    }
    assert!(m.revealed_tiles[a] && m.revealed_tiles[b]);
    assert!(m.revealed_tiles[old]);
    assert!(!m.visible_tiles[old]);
    assert!(!m.revealed_tiles[m.xy_index(0, 3)]);
}

#[test]
fn view_blockers_are_rebuilt() {
    let mut m = GameMap::new(1, 6, 6, "Test");
    m.view_blocked.insert(0);
    rebuild_view_blocked(&mut m, &vec![Position { x: 2, y: 3 }, Position { x: 1, y: 1 }]);
    assert_eq!(m.view_blocked.len(), 2);
    assert!(m.view_blocked.contains(&20));
    assert!(m.view_blocked.contains(&7));
    assert!(!m.view_blocked.contains(&0));
    assert!(m.tiles.iter().all(|t| *t == TileType::Wall));
}
