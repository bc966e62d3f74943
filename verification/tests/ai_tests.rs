use rltk::RandomNumberGenerator;
use roguelike::ai::{
    adjacent_indices, approach_goal, approach_step, default_move, melee_target, random_move,
    waypoint_step, waypoint_target_ok, Movement, WaypointStep,
};
use roguelike::components::Position;
use roguelike::map::GameMap;
use roguelike::raws::Reaction;
use roguelike::tile::TileType;

fn floor_map(w: i32, h: i32) -> GameMap {
    let mut m = GameMap::new(1, w, h, "Test");
    for y in 1..h - 1 {
        for x in 1..w - 1 {
            let i = m.xy_index(x, y);
            m.tiles[i] = TileType::Floor;
        }
    }
    m
}

#[test]
fn adjacent_indices_in_the_checked_order() {
    let m = floor_map(10, 10);
    let c = m.xy_index(3, 3);
    assert_eq!(
        adjacent_indices(&m, 3, 3),
        vec![c - 1, c + 1, c - 10, c + 10, c - 11, c - 9, c + 9, c + 11]
    );
}

#[test]
fn adjacent_indices_at_the_top_left_corner() {
    let m = floor_map(10, 10);
    assert_eq!(adjacent_indices(&m, 0, 0), vec![1, 10, 11]);
}

#[test]
fn adjacent_indices_on_the_right_edge() {
    let m = floor_map(10, 10);
    let c = m.xy_index(9, 0);
    assert_eq!(adjacent_indices(&m, 9, 0), vec![c - 1, c + 10, c + 9]);
}

#[test]
fn melee_target_is_the_last_attacker_reaction() {
    assert_eq!(melee_target(&vec![]), None);
    assert_eq!(melee_target(&vec![(1, Reaction::Ignore), (2, Reaction::Flee)]), None);
    assert_eq!(
        melee_target(&vec![(1, Reaction::Attack), (2, Reaction::Ignore), (3, Reaction::Attack), (4, Reaction::Flee)]),
        Some(3)
    );
}

#[test]
fn approach_goal_is_the_index_itself() {
    let m = floor_map(10, 8);
    assert_eq!(approach_goal(&m, 0), 0);
    assert_eq!(approach_goal(&m, 37), 37);
    assert_eq!(approach_goal(&m, 79), 79);
}

#[test]
fn approach_step_takes_the_second_path_tile() {
    let m = floor_map(10, 8);
    assert_eq!(approach_step(&m, true, &vec![33, 34, 35]), Some(Position { x: 4, y: 3 }));
    assert_eq!(approach_step(&m, true, &vec![33]), None);
    assert_eq!(approach_step(&m, false, &vec![33, 34]), None);
}

#[test]
fn random_move_rolls_pick_directions() {
    let cases = [(1, 2, 3), (2, 4, 3), (3, 3, 2), (4, 3, 4), (5, 3, 3)];
    for (roll, ex, ey) in cases {
        let mut m = floor_map(8, 8);
        let start = m.xy_index(3, 3);
        m.blocked[start] = true;
        let mut pos = Position { x: 3, y: 3 };
        let moved = random_move(&mut m, &mut pos, roll);
        assert_eq!(pos, Position { x: ex, y: ey });
        // On a 5 the target is the walker's own, blocked, cell: no move.
        if roll == 5 {
            assert!(!moved);
            assert!(m.blocked[start]);
        } else {
            assert!(moved);
            assert!(!m.blocked[start]);
            assert!(m.blocked[m.xy_index(ex, ey)]);
        }
    }
}

#[test]
fn random_move_stays_out_of_the_border_and_blocked_cells() {
    let mut m = floor_map(8, 8);
    let mut pos = Position { x: 1, y: 1 };
    assert!(!random_move(&mut m, &mut pos, 1));
    assert_eq!(pos, Position { x: 1, y: 1 });
    let b = m.xy_index(2, 1);
    m.blocked[b] = true;
    assert!(!random_move(&mut m, &mut pos, 2));
    assert_eq!(pos, Position { x: 1, y: 1 });
}

#[test]
fn waypoint_steps_along_the_path() {
    let mut m = floor_map(10, 10);
    let mut pos = Position { x: 1, y: 1 };
    let start = m.xy_index(1, 1);
    m.blocked[start] = true;
    let mut path = vec![11, 12, 13];
    assert_eq!(waypoint_step(&mut m, &mut pos, &mut path), WaypointStep::Moved);
    assert_eq!(pos, Position { x: 2, y: 1 });
    assert_eq!(path, vec![12, 13]);
    assert!(!m.blocked[11]);
    assert!(m.blocked[12]);
    m.blocked[13] = true;
    assert_eq!(waypoint_step(&mut m, &mut pos, &mut path), WaypointStep::Waiting);
    assert_eq!(pos, Position { x: 2, y: 1 });
    assert_eq!(path, vec![12, 13]);
    m.blocked[13] = false;
    assert_eq!(waypoint_step(&mut m, &mut pos, &mut path), WaypointStep::Moved);
    assert_eq!(path, vec![13]);
    assert_eq!(waypoint_step(&mut m, &mut pos, &mut path), WaypointStep::Arrived);
    assert_eq!(pos, Position { x: 3, y: 1 });
}

#[test]
fn waypoint_targets_must_be_walkable() {
    let m = floor_map(6, 6);
    assert!(waypoint_target_ok(&m, 2, 2));
    assert!(!waypoint_target_ok(&m, 0, 2));
}

#[test]
fn default_move_static_never_moves() {
    let mut m = floor_map(8, 8);
    let mut rng = RandomNumberGenerator::seeded(7);
    let mut pos = Position { x: 3, y: 3 };
    let (mode, want, moved) = default_move(&mut m, &mut pos, Movement::Static, &mut rng);
    assert!(!moved);
    assert!(matches!(mode, Movement::Static));
    assert!(want.is_none());
    assert_eq!(pos, Position { x: 3, y: 3 });
}

#[test]
fn default_move_random_steps_at_most_one_cell() {
    let mut seen_move = false;
    for seed in 0..40u64 {
        let mut m = floor_map(8, 8);
        let mut rng = RandomNumberGenerator::seeded(seed);
        let mut pos = Position { x: 3, y: 3 };
        let (mode, want, moved) = default_move(&mut m, &mut pos, Movement::Random, &mut rng);
        assert!(matches!(mode, Movement::Random));
        assert!(want.is_none());
        let d = (pos.x - 3).abs() + (pos.y - 3).abs();
        assert!(d <= 1);
        if d == 1 {
            assert!(moved);
        }
        if d == 1 {
            seen_move = true;
        }
    }
    assert!(seen_move);
}

#[test]
fn default_move_without_path_asks_for_one_inside_the_map() {
    let mut asked = 0;
    for seed in 0..30u64 {
        let mut m = floor_map(8, 8);
        let mut rng = RandomNumberGenerator::seeded(seed);
        let mut pos = Position { x: 3, y: 3 };
        let (mode, want, moved) = default_move(&mut m, &mut pos, Movement::RandomWaypoint { path: None }, &mut rng);
        assert!(!moved);
        assert!(matches!(mode, Movement::RandomWaypoint { path: None }));
        if let Some((x, y)) = want {
            assert!(1 <= x && x <= 6 && 1 <= y && y <= 6);
            asked += 1;
        }
    }
    // Every candidate cell of this map is floor, so every roll asks for a path.
    assert_eq!(asked, 30);
}

#[test]
fn default_move_forgets_a_finished_path() {
    let mut m = floor_map(8, 8);
    let mut rng = RandomNumberGenerator::seeded(1);
    let mut pos = Position { x: 3, y: 3 };
    let (mode, want, moved) = default_move(&mut m, &mut pos, Movement::RandomWaypoint { path: Some(vec![27]) }, &mut rng);
    assert!(!moved);
    assert!(matches!(mode, Movement::RandomWaypoint { path: None }));
    assert!(want.is_none());
}

#[test]
fn adjacent_indices_cover_all_eight_neighbours() {
    let m = floor_map(3, 3);
    let mut r = adjacent_indices(&m, 1, 1);
    r.sort();
    assert_eq!(r, vec![0, 1, 2, 3, 5, 6, 7, 8]);
    // The bottom row can be checked too.
    let m = floor_map(4, 4);
    let c = m.xy_index(2, 3);
    assert_eq!(adjacent_indices(&m, 2, 3), vec![c - 1, c + 1, c - 4, c - 5, c - 3]);
}
