use roguelike::ai::path_from_search;
use roguelike::components::Position;
use roguelike::inventory::{equip_item, EquipmentSlot, EquippedItem};
use roguelike::map::GameMap;
use roguelike::map_builders::cellular_automata::noise_tile;
use roguelike::map_builders::chain::{
    builder_from_rolls, initial_builder_from_roll, room_builder_from_rolls, shape_builder_from_rolls,
    shape_starter_from_roll, start_position_from_rolls, BuilderChain, InitialStep, LevelRolls, MetaStep, RoomRolls,
    RoomSort, XStart, YStart,
};
use roguelike::map_builders::dla::stagger_from_roll;
use roguelike::map_builders::limestone_cavern::{floor_decoration, lone_wall_decoration};
use roguelike::map_builders::yellow_brick_road::exit_corners;
use roguelike::tile::TileType;
use roguelike::visibility::rebuild_view_blocked;

fn room_rolls(build_room: i32) -> RoomRolls {
    RoomRolls {
        build_room,
        sort: 3,
        corridors: 2,
        corridor_spawner: 1,
        modifier: 2,
        start: 2,
        start_x: 1,
        start_y: 3,
        exit: 2,
        spawn: 1,
    }
}

#[test]
fn each_d17_roll_names_its_starting_builder() {
    let expected = [
        (InitialStep::BspDungeon, true),
        (InitialStep::BspInterior, true),
        (InitialStep::CellularAutomata, false),
        (InitialStep::DrunkardOpenArea, false),
        (InitialStep::DrunkardOpenHalls, false),
        (InitialStep::DrunkardWindingPassages, false),
        (InitialStep::DrunkardFatPassages, false),
        (InitialStep::DrunkardFearfulSymmetry, false),
        (InitialStep::Maze, false),
        (InitialStep::DlaWalkInwards, false),
        (InitialStep::DlaWalkOutwards, false),
        (InitialStep::DlaCentralAttractor, false),
        (InitialStep::DlaInsectoid, false),
        (InitialStep::VoronoiPythagoras, false),
        (InitialStep::VoronoiManhattan, false),
        (InitialStep::PrefabWfcPopulated, false),
        (InitialStep::SimpleMap, true),
    ];
    for (k, e) in expected.iter().enumerate() {
        assert_eq!(initial_builder_from_roll(k as i32 + 1), *e);
    }
}

#[test]
fn start_rolls_name_the_area() {
    assert_eq!(start_position_from_rolls(1, 1), (XStart::Left, YStart::Bottom));
    assert_eq!(start_position_from_rolls(2, 2), (XStart::Center, YStart::Center));
    assert_eq!(start_position_from_rolls(3, 3), (XStart::Right, YStart::Top));
    assert_eq!(start_position_from_rolls(1, 3), (XStart::Left, YStart::Top));
}

#[test]
fn each_d16_roll_names_its_shape() {
    assert_eq!(shape_starter_from_roll(1), InitialStep::CellularAutomata);
    assert_eq!(shape_starter_from_roll(7), InitialStep::Maze);
    assert_eq!(shape_starter_from_roll(13), InitialStep::VoronoiManhattan);
    assert_eq!(shape_starter_from_roll(16), InitialStep::PrefabWfcPopulated);
}

#[test]
fn room_rolls_give_the_room_plan() {
    let mut c = BuilderChain::new(1, 20, 20, "Test");
    room_builder_from_rolls(room_rolls(2), &mut c);
    assert_eq!(c.starter, Some(InitialStep::BspDungeon));
    assert_eq!(
        c.builders,
        vec![
            MetaStep::RoomSorter { sort: RoomSort::Topmost },
            MetaStep::RoomDrawer,
            MetaStep::NearestCorridors,
            MetaStep::CorridorSpawner,
            MetaStep::RoomCornerRounder,
            MetaStep::AreaStartingPosition { x: XStart::Left, y: YStart::Top },
            MetaStep::DistantExit,
            MetaStep::RoomBasedSpawner,
        ]
    );
}

#[test]
fn the_bsp_interior_skips_the_room_layout() {
    let mut c = BuilderChain::new(1, 20, 20, "Test");
    room_builder_from_rolls(room_rolls(3), &mut c);
    assert_eq!(c.starter, Some(InitialStep::BspInterior));
    assert_eq!(
        c.builders,
        vec![
            MetaStep::AreaStartingPosition { x: XStart::Left, y: YStart::Top },
            MetaStep::DistantExit,
            MetaStep::RoomBasedSpawner,
        ]
    );
}

#[test]
fn shape_rolls_give_the_shape_plan() {
    let mut c = BuilderChain::new(1, 20, 20, "Test");
    shape_builder_from_rolls(9, 3, 2, &mut c);
    assert_eq!(c.starter, Some(InitialStep::DlaWalkOutwards));
    assert_eq!(
        c.builders,
        vec![
            MetaStep::AreaStartingPosition { x: XStart::Center, y: YStart::Center },
            MetaStep::CullUnreachable,
            MetaStep::AreaStartingPosition { x: XStart::Right, y: YStart::Center },
            MetaStep::VoronoiSpawning,
            MetaStep::DistantExit,
        ]
    );
}

#[test]
fn level_rolls_give_the_whole_plan() {
    let rolls = LevelRolls {
        kind: 2,
        room: room_rolls(1),
        shape: 1,
        shape_x: 2,
        shape_y: 2,
        wfc: 1,
        wfc_x: 1,
        wfc_y: 1,
        fort: 1,
    };
    let c = builder_from_rolls(4, 30, 20, rolls);
    assert_eq!(c.starter, Some(InitialStep::CellularAutomata));
    assert_eq!(c.build_data.map.depth, 4);
    assert_eq!(
        c.builders,
        vec![
            MetaStep::AreaStartingPosition { x: XStart::Center, y: YStart::Center },
            MetaStep::CullUnreachable,
            MetaStep::AreaStartingPosition { x: XStart::Center, y: YStart::Center },
            MetaStep::VoronoiSpawning,
            MetaStep::DistantExit,
            MetaStep::WaveformCollapse,
            MetaStep::AreaStartingPosition { x: XStart::Left, y: YStart::Bottom },
            MetaStep::VoronoiSpawning,
            MetaStep::DistantExit,
            MetaStep::PrefabUndergroundFort,
            MetaStep::DoorPlacement,
            MetaStep::PrefabVaults,
        ]
    );
    let plain = builder_from_rolls(4, 30, 20, LevelRolls { kind: 1, wfc: 2, fort: 20, ..rolls });
    assert_eq!(plain.starter, Some(InitialStep::SimpleMap));
    let n = plain.builders.len();
    assert_eq!(n, 10);
    assert_eq!(plain.builders[n - 2], MetaStep::DoorPlacement);
    assert_eq!(plain.builders[n - 1], MetaStep::PrefabVaults);
}

#[test]
fn a_walker_staggers_the_way_its_d4_says() {
    assert_eq!(stagger_from_roll(5, 5, 1, 10, 10), (4, 5));
    assert_eq!(stagger_from_roll(5, 5, 2, 10, 10), (6, 5));
    assert_eq!(stagger_from_roll(5, 5, 3, 10, 10), (5, 4));
    assert_eq!(stagger_from_roll(5, 5, 4, 10, 10), (5, 6));
    assert_eq!(stagger_from_roll(2, 2, 1, 10, 10), (2, 2));
    assert_eq!(stagger_from_roll(8, 8, 2, 10, 10), (8, 8));
    assert_eq!(stagger_from_roll(8, 8, 4, 10, 10), (8, 8));
}

#[test]
fn noise_is_floor_above_55() {
    assert_eq!(noise_tile(56), TileType::Floor);
    assert_eq!(noise_tile(100), TileType::Floor);
    assert_eq!(noise_tile(55), TileType::Wall);
    assert_eq!(noise_tile(1), TileType::Wall);
}

#[test]
fn cave_decoration_follows_the_dice() {
    assert_eq!(floor_decoration(1, 5), TileType::Gravel);
    assert_eq!(floor_decoration(2, 1), TileType::ShallowWater);
    assert_eq!(floor_decoration(6, 10), TileType::Floor);
    assert_eq!(lone_wall_decoration(1), TileType::Stalactite);
    assert_eq!(lone_wall_decoration(2), TileType::Stalagmite);
    assert_eq!(lone_wall_decoration(3), TileType::Wall);
    assert_eq!(lone_wall_decoration(4), TileType::Wall);
}

#[test]
fn the_coin_picks_the_exit_corners() {
    assert_eq!(exit_corners(1, 80, 50, 50), (79, 1, 0, 49));
    assert_eq!(exit_corners(2, 80, 50, 50), (79, 49, 1, 49));
}

#[test]
fn a_search_gives_a_path_only_when_it_goes_somewhere() {
    assert_eq!(path_from_search(true, vec![3, 4, 5]), Some(vec![3, 4, 5]));
    assert_eq!(path_from_search(true, vec![3]), None);
    assert_eq!(path_from_search(false, vec![3, 4]), None);
}

#[test]
fn blockers_off_the_map_still_count_by_their_index() {
    let mut m = GameMap::new(1, 6, 6, "Test");
    rebuild_view_blocked(&mut m, &vec![Position { x: 7, y: 0 }, Position { x: 0, y: 9 }]);
    assert_eq!(m.view_blocked.len(), 2);
    assert!(m.view_blocked.contains(&7));
    assert!(m.view_blocked.contains(&54));
}

#[test]
fn equipping_removes_every_entry_of_a_taken_off_item() {
    let mut eq = vec![
        EquippedItem { item: 10, owner: 1, slot: EquipmentSlot::Melee },
        EquippedItem { item: 10, owner: 3, slot: EquipmentSlot::Head },
        EquippedItem { item: 11, owner: 3, slot: EquipmentSlot::Head },
    ];
    let mut pack = vec![(12, 1)];
    equip_item(&mut eq, &mut pack, 12, 1, EquipmentSlot::Melee);
    assert_eq!(
        eq,
        vec![
            EquippedItem { item: 11, owner: 3, slot: EquipmentSlot::Head },
            EquippedItem { item: 12, owner: 1, slot: EquipmentSlot::Melee },
        ]
    );
    assert_eq!(pack, vec![(10, 1)]);
}
