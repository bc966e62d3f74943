use rltk::RandomNumberGenerator;
use roguelike::map::GameMap;
use roguelike::map_builders::chain::{
    forest_builder, limestone_builder, random_builder, random_initial_builder, random_start_position, BuilderChain,
    InitialStep, MetaStep, XStart, YStart,
};
use roguelike::map_builders::prefab_builder::{PrefabBuilder, PrefabLevel, PrefabMode, PrefabRoom};
use roguelike::map_builders::waveform_collapse::{
    build_patterns, patterns_to_constraints, render_pattern_to_map, tile_index_in_chunk,
};
use roguelike::map_builders::BuilderMap;
use roguelike::tile::TileType;

#[test]
fn a_new_chain_is_empty() {
    let mut c = BuilderChain::new(4, 20, 10, "Somewhere");
    assert!(c.starter.is_none());
    assert!(c.builders.is_empty());
    assert_eq!(c.build_data.map.depth, 4);
    assert_eq!(c.build_data.map.name, "Somewhere");
    assert_eq!(c.build_data.map.tiles.len(), 200);
    c.start_with(InitialStep::Maze);
    c.with(MetaStep::DistantExit);
    assert_eq!(c.starter, Some(InitialStep::Maze));
    assert_eq!(c.builders, vec![MetaStep::DistantExit]);
}

#[test]
fn random_levels_always_end_with_doors_and_vaults() {
    for seed in 0..50u64 {
        let mut rng = RandomNumberGenerator::seeded(seed);
        let c = random_builder(5, &mut rng, 80, 50);
        assert!(c.starter.is_some());
        let n = c.builders.len();
        assert!(n >= 2);
        assert_eq!(c.builders[n - 2], MetaStep::DoorPlacement);
        assert_eq!(c.builders[n - 1], MetaStep::PrefabVaults);
        assert_eq!(c.build_data.map.name, "New Map");
        assert_eq!(c.build_data.map.depth, 5);
    }
}

#[test]
fn random_initial_builders_vary_with_the_roll() {
    let mut kinds: Vec<InitialStep> = Vec::new();
    for seed in 0..200u64 {
        let mut rng = RandomNumberGenerator::seeded(seed);
        let (step, rooms) = random_initial_builder(&mut rng);
        let makes_rooms = matches!(step, InitialStep::BspDungeon | InitialStep::BspInterior | InitialStep::SimpleMap);
        assert_eq!(rooms, makes_rooms);
        if !kinds.contains(&step) {
            kinds.push(step);
        }
    }
    assert!(kinds.len() > 10);
}

#[test]
fn random_start_positions_cover_the_map() {
    let mut seen: Vec<(XStart, YStart)> = Vec::new();
    for seed in 0..200u64 {
        let mut rng = RandomNumberGenerator::seeded(seed);
        let p = random_start_position(&mut rng);
        if !seen.contains(&p) {
            seen.push(p);
        }
    }
    assert_eq!(seen.len(), 9);
}

#[test]
fn the_forest_and_caverns_plans() {
    let mut rng = RandomNumberGenerator::seeded(1);
    let f = forest_builder(2, &mut rng, 80, 50);
    assert_eq!(f.starter, Some(InitialStep::CellularAutomata));
    assert_eq!(f.build_data.map.name, "Into the Woods");
    assert_eq!(
        f.builders,
        vec![
            MetaStep::AreaStartingPosition { x: XStart::Center, y: YStart::Center },
            MetaStep::CullUnreachable,
            MetaStep::AreaStartingPosition { x: XStart::Left, y: YStart::Center },
            MetaStep::VoronoiSpawning,
            MetaStep::DistantExit,
        ]
    );
    let l = limestone_builder(3, &mut rng, 80, 50);
    assert_eq!(l.starter, Some(InitialStep::DrunkardWindingPassages));
    assert_eq!(l.build_data.map.name, "Limestone Caverns");
    assert_eq!(l.builders.len(), 6);
    assert_eq!(l.builders[5], MetaStep::CaveDecorator);
}

#[test]
fn chunk_indices_are_row_major() {
    assert_eq!(tile_index_in_chunk(3, 0, 0), 0);
    assert_eq!(tile_index_in_chunk(3, 2, 1), 5);
    assert_eq!(tile_index_in_chunk(8, 7, 7), 63);
}

fn pattern(s: &str) -> Vec<TileType> {
    s.chars().map(|c| if c == '.' { TileType::Floor } else { TileType::Wall }).collect()
}

#[test]
fn constraints_read_exits_and_fit_neighbours() {
    let open_ns = pattern("#.##.##.#");
    let solid = pattern("#########");
    let open_ew = pattern("###...###");
    let chunks = patterns_to_constraints(vec![open_ns.clone(), solid.clone(), open_ew.clone()], 3);
    assert_eq!(chunks.len(), 3);
    assert_eq!(chunks[0].exits[0], vec![false, true, false]);
    assert_eq!(chunks[0].exits[1], vec![false, true, false]);
    assert_eq!(chunks[0].exits[2], vec![false, false, false]);
    assert!(chunks[0].has_exits);
    assert!(!chunks[1].has_exits);
    assert_eq!(chunks[2].exits[2], vec![false, true, false]);
    // A chunk without exits fits everywhere, and everything fits next to it.
    for d in 0..4 {
        assert_eq!(chunks[1].compatible_with[d], vec![0, 1, 2]);
        assert!(chunks[0].compatible_with[d].contains(&1));
    }
    // North of the corridor fits another north-south corridor.
    assert_eq!(chunks[0].compatible_with[0], vec![0, 1]);
    // West of the corridor, with no exit there, fits only chunks with no exit facing it.
    assert_eq!(chunks[0].compatible_with[2], vec![0, 1]);
    assert_eq!(chunks[2].compatible_with[3], vec![1, 2]);
}

#[test]
fn patterns_are_cut_in_reading_order() {
    let mut m = GameMap::new(1, 4, 2, "Test");
    m.tiles[1] = TileType::Floor;
    let patterns = build_patterns(&m, 2, false, false);
    assert_eq!(patterns.len(), 2);
    assert_eq!(patterns[0], vec![TileType::Wall, TileType::Floor, TileType::Wall, TileType::Wall]);
    assert_eq!(patterns[1], vec![TileType::Wall; 4]);
    let flipped = build_patterns(&m, 2, true, false);
    assert_eq!(flipped.len(), 8);
    let deduped = build_patterns(&m, 2, true, true);
    assert!(deduped.len() < flipped.len());
    for p in deduped.iter() {
        assert!(flipped.contains(p));
    }
    for i in 0..deduped.len() {
        for j in 0..i {
            assert_ne!(deduped[i], deduped[j]);
        }
    }
}

#[test]
fn rendering_a_chunk_copies_its_pattern() {
    let chunks = patterns_to_constraints(vec![pattern("#.##.##.#")], 3);
    let mut m = GameMap::new(1, 6, 6, "Test");
    render_pattern_to_map(&mut m, &chunks[0], 3, 3, 3);
    // Exit cells are marked with stairs so they show up in the replay.
    assert_eq!(m.tiles[m.xy_index(4, 3)], TileType::DownStairs);
    assert_eq!(m.tiles[m.xy_index(4, 4)], TileType::Floor);
    assert_eq!(m.tiles[m.xy_index(4, 5)], TileType::DownStairs);
    assert_eq!(m.tiles[m.xy_index(3, 4)], TileType::Wall);
    assert_eq!(m.tiles[m.xy_index(0, 0)], TileType::Wall);
    assert!(m.visible_tiles[m.xy_index(5, 5)]);
    assert!(!m.visible_tiles[m.xy_index(2, 2)]);
}

#[test]
fn templates_lose_their_line_breaks() {
    assert_eq!(PrefabBuilder::read_ascii_to_vec("ab\ncd\r\n"), vec!['a', 'b', 'c', 'd']);
    assert_eq!(PrefabBuilder::read_ascii_to_vec("#\u{a0}#"), vec!['#', ' ', '#']);
    assert_eq!(PrefabBuilder::read_ascii_to_vec(""), Vec::<char>::new());
}

#[test]
fn prefab_constructors_choose_the_mode() {
    assert!(PrefabBuilder::vaults().mode == PrefabMode::RoomVaults);
    assert!(PrefabBuilder::new().mode == PrefabMode::RoomVaults);
    let level = PrefabLevel { template: "#", width: 1, height: 1 };
    assert!(PrefabBuilder::constant(level).mode == PrefabMode::Constant { level });
}

#[test]
fn an_ascii_level_is_stamped_with_its_spawns() {
    let level = PrefabLevel { template: "\n####\n#g>#\n####\n", width: 4, height: 3 };
    let mut bd = BuilderMap {
        spawn_list: Vec::new(),
        map: GameMap::new(1, 4, 3, "Test"),
        starting_position: None,
        rooms: None,
        corridors: None,
        history: Vec::new(),
        width: 4,
        height: 3,
    };
    let mut b = PrefabBuilder::constant(level);
    b.load_ascii_map(&level, &mut bd);
    assert_eq!(bd.map.tiles[5], TileType::Floor);
    assert_eq!(bd.map.tiles[6], TileType::DownStairs);
    assert_eq!(bd.map.tiles[4], TileType::Wall);
    assert_eq!(bd.spawn_list, vec![(5usize, "Goblin".to_string())]);
}

#[test]
fn fitting_is_symmetric_between_open_edges() {
    let chunks = patterns_to_constraints(vec![pattern("#.##.##.#"), pattern(".#..#..#."), pattern("###...###")], 3);
    // North of one chunk against south of another, for chunks open on those sides.
    for a in 0..2 {
        for b in 0..2 {
            assert_eq!(chunks[a].compatible_with[0].contains(&b), chunks[b].compatible_with[1].contains(&a));
        }
    }
}

#[test]
fn vaults_go_on_open_floor_one_snapshot_each() {
    use_vaults_on_seed(3);
    use_vaults_on_seed(17);
    use_vaults_on_seed(42);
}

fn use_vaults_on_seed(seed: u64) {
    let vault = PrefabRoom { template: "#g#", width: 3, height: 1, first_depth: 0, last_depth: 100 };
    let deep = PrefabRoom { template: "g", width: 1, height: 1, first_depth: 50, last_depth: 60 };
    let mut bd = BuilderMap {
        spawn_list: Vec::new(),
        map: GameMap::new(5, 30, 30, "Test"),
        starting_position: None,
        rooms: None,
        corridors: None,
        history: Vec::new(),
        width: 30,
        height: 30,
    };
    for y in 1..29 {
        for x in 1..29 {
            let i = bd.map.xy_index(x, y);
            bd.map.tiles[i] = TileType::Floor;
        }
    }
    let before = bd.map.tiles.clone();
    let mut rng = RandomNumberGenerator::seeded(seed);
    let mut b = PrefabBuilder::vaults();
    b.apply_room_vaults(&mut rng, &mut bd, &vec![vault, deep]);
    // A snapshot first, then one per placed vault; a depth-5 roll of a d6 always reaches 4.
    let placed = bd.history.len() - 1;
    assert!(placed <= 3);
    assert_eq!(bd.spawn_list.len(), placed);
    for (index, name) in bd.spawn_list.iter() {
        assert_eq!(name, "Goblin");
        assert_eq!(before[*index], TileType::Floor);
        assert_eq!(bd.map.tiles[*index], TileType::Floor);
        assert_eq!(bd.map.tiles[*index - 1], TileType::Wall);
        assert_eq!(bd.map.tiles[*index + 1], TileType::Wall);
    }
}

#[test]
fn closed_sides_match_closed_sides() {
    let f = TileType::Floor;
    let w = TileType::Wall;
    let chunks = patterns_to_constraints(vec![vec![f, f, w, w], vec![w, w, f, f]], 2);
    assert_eq!(chunks[0].compatible_with[0], vec![1]);
    assert_eq!(chunks[0].compatible_with[1], vec![1]);
    assert_eq!(chunks[1].compatible_with[0], vec![0]);
    assert_eq!(chunks[1].compatible_with[1], vec![0]);
    for i in 0..2 {
        for j in 0..2 {
            for (d, o) in [(0usize, 1usize), (1, 0), (2, 3), (3, 2)] {
                assert_eq!(chunks[i].compatible_with[d].contains(&j), chunks[j].compatible_with[o].contains(&i));
            }
        }
    }
}

#[test]
fn vault_turns_follow_the_dice() {
    assert_eq!(PrefabBuilder::vault_turn_count(1, 2, 3, 5), 0);
    assert_eq!(PrefabBuilder::vault_turn_count(2, 2, 3, 5), 3);
    assert_eq!(PrefabBuilder::vault_turn_count(6, 0, 3, 2), 2);
    assert_eq!(PrefabBuilder::vault_turn_count(6, 5, 2, 0), 0);
    let a = PrefabRoom { template: "g", width: 1, height: 1, first_depth: 1, last_depth: 3 };
    let b = PrefabRoom { template: "o", width: 1, height: 1, first_depth: 4, last_depth: 9 };
    let c = PrefabRoom { template: "%", width: 1, height: 1, first_depth: 2, last_depth: 5 };
    let e = PrefabBuilder::eligible_vaults(&vec![a, b, c], 3);
    assert!(e.len() == 2 && e[0] == a && e[1] == c);
}

#[test]
fn a_vault_turn_places_the_pick_and_drops_it() {
    let a = PrefabRoom { template: "g", width: 1, height: 1, first_depth: 0, last_depth: 9 };
    let b = PrefabRoom { template: "o", width: 1, height: 1, first_depth: 0, last_depth: 9 };
    let mut bd = BuilderMap {
        spawn_list: Vec::new(),
        map: GameMap::new(1, 10, 10, "Test"),
        starting_position: None,
        rooms: None,
        corridors: None,
        history: Vec::new(),
        width: 10,
        height: 10,
    };
    for y in 1..9 {
        for x in 1..9 {
            let i = bd.map.xy_index(x, y);
            bd.map.tiles[i] = TileType::Floor;
        }
    }
    let mut possible = vec![a, b];
    let mut used = std::collections::HashSet::new();
    let mut builder = PrefabBuilder::vaults();
    assert!(builder.vault_turn(&mut bd, &mut possible, &mut used, 2));
    assert!(possible.len() == 1 && possible[0] == a);
    // The first place a 1 by 1 vault fits is (2, 2).
    assert_eq!(bd.spawn_list, vec![(22usize, "Orc".to_string())]);
    assert!(used.contains(&22));
    assert_eq!(bd.history.len(), 1);
}

#[test]
fn flipped_patterns_mirror_each_chunk() {
    let mut m = GameMap::new(1, 4, 2, "Test");
    m.tiles[1] = TileType::Floor;
    let flipped = build_patterns(&m, 2, true, false);
    let (w, f) = (TileType::Wall, TileType::Floor);
    assert_eq!(flipped[0], vec![w, f, w, w]);
    assert_eq!(flipped[1], vec![f, w, w, w]);
    assert_eq!(flipped[2], vec![w, w, w, f]);
    assert_eq!(flipped[3], vec![w, w, f, w]);
    for k in 4..8 {
        assert_eq!(flipped[k], vec![w; 4]);
    }
}
