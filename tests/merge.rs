use endorbot::MoveDirection::{East, North, South, West};
use endorbot::{Character, Coords, Dungeon, DungeonInfo, DungeonState, Health, State, StateType, Tile};

fn merge_tile(x: u32, y: u32, visited: bool, city: bool, down: bool) -> Tile {
    Tile::new(Coords { x, y }, true, visited, city, down, true, true, true, true)
}

fn state_with(tiles: Vec<Tile>) -> State {
    let info = DungeonInfo { floor: "D1".to_string(), coordinates: Some(Coords { x: 1, y: 1 }) };
    State::new(StateType::Dungeon, Dungeon::from_parts(DungeonState::Idle(false), [Character::new(Health::Healthy); 4], info, tiles))
}

#[test]
fn merging_a_map_with_itself_changes_nothing() {
    let tiles = vec![merge_tile(1, 1, true, false, false), merge_tile(2, 1, false, true, false), merge_tile(3, 1, false, false, true)];
    let mut s = state_with(tiles.clone());
    let r = s.merge(s.duplicate());
    assert_eq!(s.dungeon.tiles, tiles);
    assert_eq!(r.dungeon.tiles, tiles);
}

#[test]
fn merge_keeps_old_tiles_and_visits() {
    let mut new = state_with(vec![merge_tile(1, 1, false, false, false)]);
    let old = state_with(vec![merge_tile(1, 1, true, false, false), merge_tile(9, 9, true, false, false)]);
    let r = new.merge(old);
    assert_eq!(r.dungeon.tiles.len(), 2);
    assert!(r.dungeon.get_tile(1, 1).visited);
    assert!(r.dungeon.get_tile(9, 9).visited);
}

#[test]
fn old_markers_count_only_without_new_ones() {
    let mut new = state_with(vec![merge_tile(1, 1, false, true, false), merge_tile(2, 2, false, false, false)]);
    let old = state_with(vec![merge_tile(2, 2, false, true, true), merge_tile(5, 5, false, true, false)]);
    let r = new.merge(old);
    assert!(r.dungeon.get_tile(1, 1).is_city);
    assert!(!r.dungeon.get_tile(2, 2).is_city);
    assert!(!r.dungeon.get_tile(5, 5).is_city);
    assert!(r.dungeon.get_tile(2, 2).is_go_down);
    let mut fresh = state_with(vec![merge_tile(1, 1, false, false, false)]);
    let r = fresh.merge(state_with(vec![merge_tile(5, 5, false, true, false)]));
    assert!(r.dungeon.get_tile(5, 5).is_city);
}

#[test]
fn run_action_taps_and_predicts_position() {
    let mut s = state_with(vec![merge_tile(1, 1, true, false, false)]);
    let t = merge_tile(3, 1, false, false, false);
    let (tap, pos) = endorbot::run_action(&mut s, &endorbot::Action::FindFight(endorbot::MoveDirection::East, (t, 2)));
    assert_eq!(tap, Some(endorbot::Tap { x: 953, y: 2277 }));
    assert_eq!(pos, Some(Coords { x: 2, y: 1 }));
    let (tap, pos) = endorbot::run_action(&mut s, &endorbot::Action::ReturnToTown(true, endorbot::MoveDirection::East));
    assert_eq!(tap, Some(endorbot::Tap { x: 715, y: 1316 }));
    assert_eq!(pos, None);
    let (tap, pos) = endorbot::run_action(&mut s, &endorbot::Action::ReturnToTown(false, endorbot::MoveDirection::North));
    assert_eq!(tap, Some(endorbot::Tap { x: 774, y: 2085 }));
    assert_eq!(pos, Some(Coords { x: 1, y: 0 }));
    let (tap, _) = endorbot::run_action(&mut s, &endorbot::Action::GotoDungeon);
    assert_eq!(tap, Some(endorbot::Tap { x: 890, y: 1928 }));
    assert!(!s.dungeon.get_tile(1, 1).visited);
    assert_eq!(s.dungeon.tiles.len(), 1);
    let (tap, _) = endorbot::run_action(&mut s, &endorbot::Action::GoDown);
    assert_eq!(tap, Some(endorbot::Tap { x: 715, y: 1316 }));
    assert!(s.dungeon.tiles.is_empty());
    assert_eq!(endorbot::run_action(&mut s, &endorbot::Action::Resurrect), (None, None));
    assert_eq!(endorbot::run_action(&mut s, &endorbot::Action::GotoTown), (None, None));
    assert_eq!(endorbot::run_action(&mut s, &endorbot::Action::CloseAd).0, Some(endorbot::Tap { x: 935, y: 153 }));
}

#[test]
fn move_taps_and_coordinates() {
    assert_eq!(endorbot::adb_move(&South), endorbot::Tap { x: 774, y: 2264 });
    assert_eq!(endorbot::adb_move(&West), endorbot::Tap { x: 575, y: 2277 });
    let c = Coords { x: 4, y: 4 };
    assert_eq!(c.move_direction(North), Coords { x: 4, y: 3 });
    assert_eq!(c.move_direction(South), Coords { x: 4, y: 5 });
    assert_eq!(c.move_direction(West), Coords { x: 3, y: 4 });
    assert_eq!(c.move_direction(East), Coords { x: 5, y: 4 });
    assert_eq!(Coords::from((3, 7)), Coords { x: 3, y: 7 });
}

#[test]
fn direction_between_tiles() {
    let a = merge_tile(4, 4, false, false, false);
    assert_eq!(merge_tile(4, 5, false, false, false).direction_from(a), South);
    assert_eq!(merge_tile(4, 3, false, false, false).direction_from(a), North);
    assert_eq!(merge_tile(3, 4, false, false, false).direction_from(a), West);
    assert_eq!(merge_tile(5, 4, false, false, false).direction_from(a), East);
    assert_eq!(a.direction_from(a), North);
}
