use roguelike::map::GameMap;
use roguelike::tile::{TileType, tile_walkable, tile_opaque};
use roguelike::rect::Rect;

fn floor_map(w: i32, h: i32) -> GameMap {
    let mut m = GameMap::new(1, w, h, "Test");
    for y in 1..h - 1 {
        for x in 1..w - 1 {
            let i = m.xy_index(x, y);
            m.tiles[i] = TileType::Floor;
        }
    }
    m
}

#[test]
fn new_map_is_all_wall() {
    let m = GameMap::new(3, 8, 5, "Cave");
    assert_eq!(m.tiles.len(), 40);
    assert_eq!(m.width, 8);
    assert_eq!(m.height, 5);
    assert_eq!(m.depth, 3);
    assert_eq!(m.name, "Cave");
    assert!(m.outdoors);
    assert!(m.view_blocked.is_empty());
    assert!(m.tiles.iter().all(|t| *t == TileType::Wall));
    assert!(m.revealed_tiles.iter().all(|b| !*b));
    assert!(m.visible_tiles.iter().all(|b| !*b));
    assert!(m.blocked.iter().all(|b| !*b));
    assert!(m.tile_content.iter().all(|c| c.is_empty()));
}

#[test]
fn empty_map_has_no_tiles() {
    let m = GameMap::new(1, 0, 0, "");
    assert_eq!(m.tiles.len(), 0);
}

#[test]
fn xy_index_is_row_major() {
    let m = GameMap::new(1, 80, 50, "Test");
    assert_eq!(m.xy_index(0, 0), 0);
    assert_eq!(m.xy_index(5, 0), 5);
    assert_eq!(m.xy_index(0, 1), 80);
    assert_eq!(m.xy_index(79, 49), 3999);
    let i = m.xy_index(17, 23);
    assert_eq!(i % 80, 17);
    assert_eq!(i / 80, 23);
}

#[test]
fn walkable_and_opaque_tiles() {
    assert!(tile_walkable(TileType::Floor));
    assert!(tile_walkable(TileType::DownStairs));
    assert!(tile_walkable(TileType::Road));
    assert!(tile_walkable(TileType::ShallowWater));
    assert!(!tile_walkable(TileType::Wall));
    assert!(!tile_walkable(TileType::DeepWater));
    assert!(!tile_walkable(TileType::Stalactite));
    assert!(tile_opaque(TileType::Wall));
    assert!(tile_opaque(TileType::Stalagmite));
    assert!(!tile_opaque(TileType::Floor));
    assert!(!tile_opaque(TileType::DeepWater));
}

#[test]
fn populate_blocked_marks_unwalkable_tiles() {
    let mut m = floor_map(5, 5);
    let i = m.xy_index(2, 2);
    m.tiles[i] = TileType::DeepWater;
    m.populate_blocked();
    for (k, t) in m.tiles.iter().enumerate() {
        assert_eq!(m.blocked[k], !tile_walkable(*t));
    }
    assert!(m.blocked[i]);
    assert!(!m.blocked[m.xy_index(1, 1)]);
    assert!(m.blocked[0]);
}

#[test]
fn exit_validity_follows_blocked_and_bounds() {
    let mut m = floor_map(5, 5);
    m.populate_blocked();
    assert!(m.is_exit_valid(1, 1));
    assert!(!m.is_exit_valid(0, 1));
    assert!(!m.is_exit_valid(1, 0));
    assert!(!m.is_exit_valid(5, 1));
    assert!(!m.is_exit_valid(-1, 2));
    // The right and bottom border cells pass the bounds check but are blocked walls.
    assert!(!m.is_exit_valid(4, 2));
}

#[test]
fn available_exits_in_order_with_diagonals() {
    let mut m = floor_map(5, 5);
    m.populate_blocked();
    let c = m.xy_index(2, 2);
    let exits = m.available_exits(c);
    assert_eq!(
        exits,
        vec![
            (c - 1, false), (c + 1, false), (c - 5, false), (c + 5, false),
            (c - 6, true), (c - 4, true), (c + 4, true), (c + 6, true),
        ]
    );
    let corner = m.xy_index(1, 1);
    let exits = m.available_exits(corner);
    assert_eq!(exits, vec![(corner + 1, false), (corner + 5, false), (corner + 6, true)]);
}

#[test]
fn opacity_of_tiles_and_blockers() {
    let mut m = floor_map(5, 5);
    let i = m.xy_index(2, 2);
    assert!(!m.is_opaque(i));
    m.view_blocked.insert(i);
    assert!(m.is_opaque(i));
    assert!(m.is_opaque(m.xy_index(4, 2)));
    assert!(m.is_opaque(0));
    assert!(m.is_opaque(25));
    assert!(m.is_opaque(1000));
}

#[test]
fn clear_content_index_empties_every_tile() {
    let mut m = floor_map(4, 4);
    m.tile_content[3].push(7);
    m.tile_content[5].push(8);
    m.tile_content[5].push(9);
    m.clear_content_index();
    assert_eq!(m.tile_content.len(), 16);
    assert!(m.tile_content.iter().all(|c| c.is_empty()));
}

#[test]
fn snapshot_reveals_everything_and_keeps_the_rest() {
    let mut m = floor_map(4, 3);
    m.view_blocked.insert(5);
    m.blocked[2] = true;
    m.tile_content[1].push(42);
    let s = m.snapshot();
    assert_eq!(s.tiles, m.tiles);
    assert!(s.revealed_tiles.iter().all(|b| *b));
    assert_eq!(s.revealed_tiles.len(), 12);
    assert_eq!(s.blocked, m.blocked);
    assert_eq!(s.view_blocked, m.view_blocked);
    assert_eq!(s.tile_content, m.tile_content);
    assert_eq!(s.name, m.name);
    assert!(!m.revealed_tiles[0]);
}

#[test]
fn rect_center_truncates_toward_zero() {
    assert_eq!(Rect { x1: 2, y1: 4, x2: 7, y2: 9 }.center(), (4, 6));
    assert_eq!(Rect { x1: 0, y1: 0, x2: 10, y2: 10 }.center(), (5, 5));
    assert_eq!(Rect { x1: -3, y1: -3, x2: 0, y2: 0 }.center(), (-1, -1));
}
