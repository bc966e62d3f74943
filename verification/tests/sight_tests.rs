use rltk::RandomNumberGenerator;
use roguelike::inventory::{contents_of_tiles, item_targets};
use roguelike::map::GameMap;
use roguelike::state::{level_change, RunState};
use roguelike::visibility::{
    hidden_among, hidden_spotted, monster_in_view, refresh_viewshed, spot_hidden, spotted_with, Viewshed,
};

fn map_with(w: i32, h: i32, content: &[((i32, i32), u32)]) -> GameMap {
    let mut m = GameMap::new(1, w, h, "Test");
    for &((x, y), e) in content {
        let i = m.xy_index(x, y);
        m.tile_content[i].push(e);
    }
    m
}

#[test]
fn going_down_a_level_replays_generation_of_the_next_one() {
    let c = level_change(RunState::NextLevel, 3);
    assert_eq!(c.offset, 1);
    assert_eq!(c.new_depth, 4);
    assert_eq!(c.mapgen_index, 0);
    assert_eq!(c.after_mapgen, RunState::PreRun);
    assert_eq!(c.state, RunState::MapGeneration);
}

#[test]
fn going_up_a_level_goes_to_the_one_above() {
    let c = level_change(RunState::PreviousLevel, 3);
    assert_eq!(c.offset, -1);
    assert_eq!(c.new_depth, 2);
    assert_eq!(c.mapgen_index, 0);
    assert_eq!(c.after_mapgen, RunState::PreRun);
    assert_eq!(c.state, RunState::MapGeneration);
}

#[test]
fn a_dirty_viewshed_is_recomputed_and_cleared() {
    let mut vs = Viewshed { visible_tiles: vec![(9, 9)], range: 8, dirty: true };
    let seen = vec![(1, 1), (-1, 2), (4, 3), (5, 0), (2, 4)];
    assert!(refresh_viewshed(&mut vs, &seen, 5, 4));
    assert!(!vs.dirty);
    assert_eq!(vs.range, 8);
    assert_eq!(vs.visible_tiles, vec![(1, 1), (4, 3)]);
}

#[test]
fn a_clean_viewshed_is_left_alone() {
    let mut vs = Viewshed { visible_tiles: vec![(9, 9)], range: 8, dirty: false };
    let seen = vec![(1, 1)];
    assert!(!refresh_viewshed(&mut vs, &seen, 5, 4));
    assert!(!vs.dirty);
    assert_eq!(vs.visible_tiles, vec![(9, 9)]);
}

#[test]
fn hidden_things_are_spotted_on_a_one() {
    assert!(hidden_spotted(1));
    assert!(!hidden_spotted(2));
    assert!(!hidden_spotted(24));
}

#[test]
fn spotting_follows_the_rolls_and_counts_each_thing_once() {
    assert_eq!(spotted_with(&vec![4, 7, 4, 9], &vec![1, 3, 1, 1]), vec![4, 9]);
    assert_eq!(spotted_with(&vec![4, 7], &vec![5, 1]), vec![7]);
    assert_eq!(spotted_with(&vec![], &vec![]), Vec::<u32>::new());
}

#[test]
fn only_hidden_entities_are_candidates() {
    assert_eq!(hidden_among(&vec![1, 2, 3, 4], &vec![4, 2]), vec![2, 4]);
    assert_eq!(hidden_among(&vec![1, 3], &vec![]), Vec::<u32>::new());
}

#[test]
fn spotting_picks_only_hidden_things_in_view() {
    let m = map_with(6, 6, &[((2, 2), 10), ((2, 2), 11), ((3, 3), 12), ((0, 0), 13)]);
    let visible = vec![(2, 2), (3, 3), (0, 0)];
    let hidden = vec![11, 12, 13];
    for seed in 0..20 {
        let mut rng = RandomNumberGenerator::seeded(seed);
        let r = spot_hidden(&mut rng, &m, &visible, &hidden);
        assert!(r.iter().all(|e| *e == 11 || *e == 12));
    }
}

#[test]
fn a_monster_in_view_is_noticed() {
    let m = map_with(6, 6, &[((2, 2), 10), ((3, 3), 12)]);
    assert!(monster_in_view(&m, &vec![(1, 1), (3, 3)], &vec![12]));
    assert!(!monster_in_view(&m, &vec![(1, 1), (2, 2)], &vec![12]));
    assert!(!monster_in_view(&m, &vec![], &vec![12]));
}

#[test]
fn an_item_without_target_is_used_on_the_player() {
    let m = map_with(6, 6, &[((2, 2), 10)]);
    assert_eq!(item_targets(&m, 1, None, None), vec![1]);
}

#[test]
fn a_targeted_item_hits_whoever_stands_there() {
    let m = map_with(6, 6, &[((2, 2), 10), ((2, 2), 11)]);
    assert_eq!(item_targets(&m, 1, Some((2, 2)), None), vec![10, 11]);
    assert_eq!(item_targets(&m, 1, Some((3, 3)), None), Vec::<u32>::new());
}

#[test]
fn a_blast_hits_everyone_inside_the_border() {
    let m = map_with(6, 6, &[((2, 2), 10), ((3, 2), 11), ((0, 2), 12), ((5, 5), 13)]);
    let blast = vec![(2, 2), (3, 2), (0, 2), (5, 5), (-1, 2)];
    assert_eq!(item_targets(&m, 1, Some((2, 2)), Some(&blast)), vec![10, 11]);
    assert_eq!(contents_of_tiles(&m, &blast), vec![10, 11]);
}
