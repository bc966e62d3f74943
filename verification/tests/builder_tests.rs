use rltk::RandomNumberGenerator;
use roguelike::components::Position;
use roguelike::map::GameMap;
use roguelike::map_builders::cellular_automata::CellularAutomataBuilder;
use roguelike::map_builders::common::{apply_horizontal_tunnel, apply_room_to_map, apply_vertical_tunnel, paint, Symmetry};
use roguelike::map_builders::cull_unreachable::CullUnreachable;
use roguelike::map_builders::distant_exit::DistantExit;
use roguelike::map_builders::dla::{floor_tile_count, DLAAlgorithm, DLABuilder};
use roguelike::map_builders::limestone_cavern::CaveDecorator;
use roguelike::map_builders::room_based_starting_position::RoomBasedStartingPosition;
use roguelike::map_builders::room_corner_rounding::RoomCornerRounder;
use roguelike::map_builders::yellow_brick_road::YellowBrickRoad;
use roguelike::map_builders::{prepare_distance_search, BuilderMap, UNREACHABLE_DISTANCE};
use roguelike::rect::Rect;
use roguelike::tile::TileType;

fn build_data(w: i32, h: i32) -> BuilderMap {
    BuilderMap {
        spawn_list: Vec::new(),
        map: GameMap::new(1, w, h, "Test"),
        starting_position: None,
        rooms: None,
        corridors: None,
        history: Vec::new(),
        width: w,
        height: h,
    }
}

fn border_is_wall(m: &GameMap) -> bool {
    for y in 0..m.height {
        for x in 0..m.width {
            if x == 0 || y == 0 || x == m.width - 1 || y == m.height - 1 {
                if m.tiles[m.xy_index(x, y)] != TileType::Wall {
                    return false;
                }
            }
        }
    }
    true
}

#[test]
fn cellular_automata_records_sixteen_snapshots() {
    let mut bd = build_data(30, 20);
    let mut rng = RandomNumberGenerator::seeded(3);
    let mut b = CellularAutomataBuilder::new();
    b.build(&mut rng, &mut bd);
    assert_eq!(bd.history.len(), 16);
    assert_eq!(bd.history[15].tiles, bd.map.tiles);
    assert!(border_is_wall(&bd.map));
    assert!(bd.map.tiles.iter().all(|t| *t == TileType::Wall || *t == TileType::Floor));
    assert!(bd.history.iter().all(|s| s.revealed_tiles.iter().all(|r| *r)));
}

#[test]
fn room_and_tunnels_carve_floor() {
    let mut m = GameMap::new(1, 12, 10, "Test");
    apply_room_to_map(&mut m, &Rect { x1: 1, y1: 1, x2: 4, y2: 4 });
    // The interior is x1+1..=x2, y1+1..=y2.
    assert_eq!(m.tiles[m.xy_index(2, 2)], TileType::Floor);
    assert_eq!(m.tiles[m.xy_index(4, 4)], TileType::Floor);
    assert_eq!(m.tiles[m.xy_index(1, 1)], TileType::Wall);
    assert_eq!(m.tiles[m.xy_index(5, 4)], TileType::Wall);
    apply_horizontal_tunnel(&mut m, 8, 4, 6);
    for x in 4..=8 {
        assert_eq!(m.tiles[m.xy_index(x, 6)], TileType::Floor);
    }
    assert_eq!(m.tiles[m.xy_index(9, 6)], TileType::Wall);
    apply_vertical_tunnel(&mut m, 2, 8, 10);
    for y in 2..=8 {
        assert_eq!(m.tiles[m.xy_index(10, y)], TileType::Floor);
    }
    assert_eq!(floor_tile_count(&m), 9 + 5 + 7);
}

#[test]
fn paint_mirrors_strokes() {
    let mut m = GameMap::new(1, 20, 20, "Test");
    paint(&mut m, Symmetry::Horizontal, 1, 4, 7);
    assert_eq!(m.tiles[m.xy_index(4, 7)], TileType::Floor);
    assert_eq!(m.tiles[m.xy_index(16, 7)], TileType::Floor);
    assert_eq!(floor_tile_count(&m), 2);
    let mut m = GameMap::new(1, 20, 20, "Test");
    paint(&mut m, Symmetry::NoSymmetry, 2, 5, 5);
    // A size-2 brush carves the 2 by 2 square up and left of the point.
    for (x, y) in [(4, 4), (5, 4), (4, 5), (5, 5)] {
        assert_eq!(m.tiles[m.xy_index(x, y)], TileType::Floor);
    }
    assert_eq!(floor_tile_count(&m), 4);
}

#[test]
fn dla_constructors() {
    let b = DLABuilder::new();
    assert!(b.algorithm == DLAAlgorithm::WalkInwards && b.brush_size == 2 && b.floor_percent == 25);
    let b = DLABuilder::walk_inwards();
    assert!(b.algorithm == DLAAlgorithm::WalkInwards && b.brush_size == 1);
    let b = DLABuilder::walk_outwards();
    assert!(b.algorithm == DLAAlgorithm::WalkOutwards && b.brush_size == 2);
    let b = DLABuilder::central_attractor();
    assert!(b.algorithm == DLAAlgorithm::CentralAttractor && b.symmetry == Symmetry::NoSymmetry);
    let b = DLABuilder::insectoid();
    assert!(b.algorithm == DLAAlgorithm::CentralAttractor && b.symmetry == Symmetry::Horizontal);
    let b = DLABuilder::heavy_erosion();
    assert!(b.floor_percent == 35);
}

#[test]
fn dla_seed_and_desired_floor() {
    let mut bd = build_data(20, 10);
    let b = DLABuilder::walk_inwards();
    let start = b.seed(&mut bd);
    assert_eq!(start, Position { x: 10, y: 5 });
    assert_eq!(floor_tile_count(&bd.map), 5);
    assert_eq!(bd.history.len(), 1);
    assert_eq!(b.desired_floor_tiles(&bd), 50);
    assert_eq!(DLABuilder::heavy_erosion().desired_floor_tiles(&bd), 70);
}

#[test]
fn dla_inward_walks_reach_the_desired_floor() {
    let mut bd = build_data(30, 20);
    let mut rng = RandomNumberGenerator::seeded(11);
    let b = DLABuilder::walk_inwards();
    let start = b.seed(&mut bd);
    let desired = b.desired_floor_tiles(&bd);
    while floor_tile_count(&bd.map) < desired {
        let mut wk = b.start_walker(&mut rng, &bd, start);
        while b.walker_step(&mut rng, &bd, &mut wk) {}
        b.finish_walker(&mut bd, &wk);
    }
    assert!(floor_tile_count(&bd.map) >= desired);
    assert!(border_is_wall(&bd.map));
}

#[test]
fn dla_central_attractor_grows_next_to_the_floor() {
    let mut bd = build_data(30, 20);
    let mut rng = RandomNumberGenerator::seeded(5);
    let b = DLABuilder { algorithm: DLAAlgorithm::CentralAttractor, brush_size: 1, symmetry: Symmetry::NoSymmetry, floor_percent: 25 };
    let start = b.seed(&mut bd);
    for _ in 0..30 {
        let before = bd.map.tiles.clone();
        b.central_attractor_walk(&mut rng, &mut bd, start);
        for y in 1..19 {
            for x in 1..29 {
                let i = bd.map.xy_index(x, y);
                if bd.map.tiles[i] == TileType::Floor && before[i] != TileType::Floor {
                    let mut touches = false;
                    for dy in -1..=1 {
                        for dx in -1..=1 {
                            if before[bd.map.xy_index(x + dx, y + dy)] == TileType::Floor {
                                touches = true;
                            }
                        }
                    }
                    assert!(touches);
                }
            }
        }
    }
    assert!(floor_tile_count(&bd.map) > 5);
}

#[test]
fn culling_walls_off_unreachable_floor() {
    let mut bd = build_data(4, 3);
    bd.map.tiles[5] = TileType::Floor;
    bd.map.tiles[6] = TileType::Floor;
    bd.map.tiles[1] = TileType::DownStairs;
    let mut distances = vec![UNREACHABLE_DISTANCE; 12];
    distances[5] = 0;
    distances[1] = UNREACHABLE_DISTANCE;
    let mut c = CullUnreachable::new();
    c.cull(&mut bd, &distances);
    assert_eq!(bd.map.tiles[5], TileType::Floor);
    assert_eq!(bd.map.tiles[6], TileType::Wall);
    assert_eq!(bd.map.tiles[1], TileType::DownStairs);
}

#[test]
fn distance_search_starts_at_the_start() {
    let mut bd = build_data(5, 5);
    bd.map.tiles[12] = TileType::Floor;
    bd.starting_position = Some(Position { x: 2, y: 2 });
    let start = prepare_distance_search(&mut bd);
    assert_eq!(start, 12);
    assert!(!bd.map.blocked[12]);
    assert!(bd.map.blocked[0]);
}

#[test]
fn the_exit_goes_on_the_farthest_floor() {
    let mut bd = build_data(4, 3);
    for i in [5usize, 6, 9] {
        bd.map.tiles[i] = TileType::Floor;
    }
    let distances: Vec<u32> = vec![
        UNREACHABLE_DISTANCE, 0, 0, 0,
        0, 1.0f32.to_bits(), 7.5f32.to_bits(), UNREACHABLE_DISTANCE,
        0, 2.0f32.to_bits(), 0, 0,
    ];
    let mut d = DistantExit::new();
    d.place_exit(&mut bd, &distances);
    assert_eq!(bd.map.tiles[6], TileType::DownStairs);
    assert_eq!(bd.map.tiles[5], TileType::Floor);
    assert_eq!(bd.history.len(), 1);
}

#[test]
fn the_start_is_the_center_of_the_first_room() {
    let mut bd = build_data(20, 20);
    bd.rooms = Some(vec![Rect { x1: 2, y1: 3, x2: 7, y2: 8 }, Rect { x1: 10, y1: 10, x2: 14, y2: 14 }]);
    let mut rng = RandomNumberGenerator::seeded(1);
    let mut b = RoomBasedStartingPosition::new();
    b.build(&mut rng, &mut bd);
    assert_eq!(bd.starting_position, Some(Position { x: 4, y: 5 }));
}

#[test]
fn room_corners_are_rounded() {
    let mut bd = build_data(12, 12);
    let room = Rect { x1: 2, y1: 2, x2: 6, y2: 6 };
    apply_room_to_map(&mut bd.map, &room);
    bd.rooms = Some(vec![room]);
    let mut rng = RandomNumberGenerator::seeded(1);
    let mut r = RoomCornerRounder::new();
    r.build(&mut rng, &mut bd);
    assert_eq!(bd.history.len(), 1);
    assert_eq!(bd.map.tiles[bd.map.xy_index(3, 3)], TileType::Wall);
    assert_eq!(bd.map.tiles[bd.map.xy_index(6, 3)], TileType::Wall);
    assert_eq!(bd.map.tiles[bd.map.xy_index(4, 4)], TileType::Floor);
}

#[test]
fn caves_get_decorated_and_go_indoors() {
    let mut bd = build_data(20, 20);
    let mut rng = RandomNumberGenerator::seeded(9);
    let mut ca = CellularAutomataBuilder::new();
    ca.build(&mut rng, &mut bd);
    let before = bd.history.len();
    let mut deco = CaveDecorator::new();
    deco.build(&mut rng, &mut bd);
    assert!(!bd.map.outdoors);
    assert_eq!(bd.history.len(), before + 1);
    assert_eq!(bd.map.tiles.len(), 400);
    assert!(bd.history.last().unwrap().outdoors);
}

#[test]
fn culling_twice_changes_nothing_more() {
    let mut bd = build_data(5, 4);
    for i in [6usize, 7, 8, 12, 13] {
        bd.map.tiles[i] = TileType::Floor;
    }
    let mut distances = vec![UNREACHABLE_DISTANCE; 20];
    distances[6] = 0;
    distances[7] = 1.0f32.to_bits();
    let mut c = CullUnreachable::new();
    c.cull(&mut bd, &distances);
    let once = bd.map.tiles.clone();
    c.cull(&mut bd, &distances);
    assert_eq!(bd.map.tiles, once);
    assert_eq!(floor_tile_count(&bd.map), 2);
}

#[test]
fn carving_never_removes_floor() {
    let mut m = GameMap::new(1, 12, 12, "Test");
    apply_room_to_map(&mut m, &Rect { x1: 1, y1: 1, x2: 5, y2: 5 });
    let before = m.tiles.clone();
    apply_horizontal_tunnel(&mut m, 3, 9, 4);
    paint(&mut m, Symmetry::Both, 2, 3, 3);
    apply_vertical_tunnel(&mut m, 1, 10, 2);
    for (i, t) in before.iter().enumerate() {
        if *t == TileType::Floor {
            assert_eq!(m.tiles[i], TileType::Floor);
        }
    }
}

#[test]
fn the_road_finds_the_nearest_walkable_tile() {
    let mut bd = build_data(10, 6);
    for i in [12usize, 17, 38] {
        bd.map.tiles[i] = TileType::Floor;
    }
    let road = YellowBrickRoad::new();
    // (8, 3) is nearest to tile 38 at (8, 3) itself.
    assert_eq!(road.find_exit(&bd, 8, 3), (8, 3));
    // From (0, 0) the nearest is tile 12 at (2, 1).
    assert_eq!(road.find_exit(&bd, 0, 0), (2, 1));
    // From (7, 0) the nearest is tile 17 at (7, 1).
    assert_eq!(road.find_exit(&bd, 7, 0), (7, 1));
}

#[test]
fn roads_paint_a_cross_but_spare_the_stairs() {
    let mut bd = build_data(8, 8);
    let stairs = bd.map.xy_index(4, 3);
    bd.map.tiles[stairs] = TileType::DownStairs;
    let mut road = YellowBrickRoad::new();
    let center = bd.map.xy_index(3, 3);
    road.paint_road_along(&mut bd, &vec![center]);
    for (x, y) in [(3, 3), (2, 3), (3, 2), (3, 4)] {
        assert_eq!(bd.map.tiles[bd.map.xy_index(x, y)], TileType::Road);
    }
    assert_eq!(bd.map.tiles[stairs], TileType::DownStairs);
    let edge = bd.map.xy_index(1, 1);
    road.paint_road_along(&mut bd, &vec![edge]);
    assert_eq!(bd.map.tiles[bd.map.xy_index(0, 1)], TileType::Wall);
    assert_eq!(bd.map.tiles[bd.map.xy_index(1, 0)], TileType::Wall);
    assert_eq!(bd.map.tiles[edge], TileType::Road);
}

#[test]
fn streams_flood_only_floor() {
    let mut bd = build_data(6, 6);
    bd.map.tiles[7] = TileType::Floor;
    bd.map.tiles[8] = TileType::Road;
    bd.map.tiles[9] = TileType::Floor;
    let mut road = YellowBrickRoad::new();
    road.pour_stream(&mut bd, &vec![7, 8, 9], 14);
    assert_eq!(bd.map.tiles[7], TileType::ShallowWater);
    assert_eq!(bd.map.tiles[8], TileType::Road);
    assert_eq!(bd.map.tiles[9], TileType::ShallowWater);
    assert_eq!(bd.map.tiles[14], TileType::DownStairs);
    assert_eq!(bd.history.len(), 1);
}
