use endorbot::sampling::{BUTTON_DARK, MARKER_FADED, CITY_1, CITY_2, FIGHT, HEALTH_GREEN, HEALTH_GREY, HEALTH_RED, IDLE_1, TILE_UNEXPLORED, WHITE};
use endorbot::{
    Action, Bitmap, Character, Coords, Dungeon, DungeonInfo, DungeonState, Health, State, StateError, StateType, determine_action,
    get_characters, get_enemy, get_state, get_tiles,
};

fn idle_screen(x: u32, y: u32) -> Bitmap {
    let mut b = Bitmap::with_capacity(8);
    b.set_pixel(979, 1083, IDLE_1);
    b.set_pixel(1023, 1116, IDLE_1);
    b.set_info(DungeonInfo { floor: "D3".to_string(), coordinates: Some(Coords { x, y }) });
    b
}

#[test]
fn unmatched_sample_is_unknown_state() {
    let b = Bitmap::with_capacity(0);
    assert_eq!(get_state(State::default(), &b).err(), Some(StateError::UnknownState));
    let mut b = Bitmap::with_capacity(2);
    b.set_pixel(979, 1083, IDLE_1);
    b.set_pixel(462, 1254, WHITE);
    b.set_has_dead_characters(true);
    assert_eq!(get_state(State::default(), &b).err(), Some(StateError::UnknownState));
}

#[test]
fn ad_overlay_wins_over_other_screens() {
    let mut b = idle_screen(4, 4);
    for (x, y) in [(918, 138), (949, 138), (919, 168), (949, 168)] {
        b.set_pixel(x, y, IDLE_1);
    }
    let s = get_state(State::default(), &b).unwrap();
    assert_eq!(s.state_type, StateType::Ad);
    assert_eq!(s.get_position(), None);
}

#[test]
fn main_menu_is_recognised() {
    let mut b = Bitmap::with_capacity(3);
    for (x, y) in [(462, 1254), (536, 1262), (615, 1270)] {
        b.set_pixel(x, y, WHITE);
    }
    assert_eq!(get_state(State::default(), &b).unwrap().state_type, StateType::Main);
}

#[test]
fn city_with_dead_classified_then_resurrect() {
    let mut b = Bitmap::with_capacity(2);
    b.set_pixel(752, 1926, CITY_1);
    b.set_pixel(75, 1512, CITY_2);
    b.set_has_dead_characters(true);
    let s = get_state(State::default(), &b).unwrap();
    assert_eq!(s.state_type, StateType::City(true));
    assert_eq!(determine_action(&s, Action::GotoTown, Some(Coords { x: 1, y: 2 })), Action::Resurrect);
    assert_eq!(determine_action(&s, Action::Fight, None), Action::Resurrect);
}

#[test]
fn idle_dungeon_reads_the_map_window() {
    let b = idle_screen(10, 10);
    let s = get_state(State::default(), &b).unwrap();
    assert_eq!(s.state_type, StateType::Dungeon);
    assert_eq!(s.dungeon.state, DungeonState::Idle(false));
    assert_eq!(s.dungeon.tiles.len(), 49);
    assert_eq!(s.get_position(), Some(Coords { x: 10, y: 10 }));
    let here = s.dungeon.get_current_tile();
    assert!(here.visited && here.explored);
    assert_eq!(s.dungeon.tiles[0].get_position(), Coords { x: 6, y: 7 });
    assert_eq!(s.dungeon.tiles[48].get_position(), Coords { x: 12, y: 13 });
}

#[test]
fn fog_and_walls_in_the_window() {
    let mut b = idle_screen(10, 10);
    b.set_pixel(566, 566, TILE_UNEXPLORED);
    b.set_pixel(806, 717, WHITE);
    let tiles = get_tiles(&b.get_info().clone(), &b);
    assert_eq!(tiles.len(), 48);
    let d = Dungeon::new(DungeonState::Idle(false), &b, None);
    let here = d.get_tile(10, 10);
    assert!(!here.north_passable);
    assert!(here.east_passable && here.south_passable && here.west_passable);
    assert!(!d.get_tile(6, 7).explored);
}

#[test]
fn window_off_the_grid_is_skipped() {
    let b = idle_screen(0, 0);
    let tiles = get_tiles(&b.get_info().clone(), &b);
    assert_eq!(tiles.len(), 12);
    assert_eq!(tiles[0].get_position(), Coords { x: 0, y: 0 });
}

#[test]
fn missing_position_falls_back_to_previous() {
    let mut b = Bitmap::with_capacity(2);
    b.set_pixel(979, 1083, IDLE_1);
    b.set_pixel(1023, 1116, IDLE_1);
    let mut old = State::default();
    old.set_position(Coords { x: 7, y: 8 });
    let s = get_state(old, &b).unwrap();
    assert_eq!(s.get_position(), Some(Coords { x: 7, y: 8 }));
    assert!(s.dungeon.get_tile(7, 8).visited);
    assert!(s.dungeon.get_tile(3, 5).explored);
}

#[test]
fn on_city_tile_flag() {
    let mut b = idle_screen(5, 5);
    b.set_pixel(716, 1279, FIGHT);
    let s = get_state(State::default(), &b).unwrap();
    assert_eq!(s.dungeon.state, DungeonState::Idle(true));
}

#[test]
fn fight_screen_reads_enemy() {
    let mut b = Bitmap::with_capacity(4);
    b.set_pixel(827, 1306, FIGHT);
    b.set_pixel(90, 1472, HEALTH_RED);
    b.set_pixel(422, 1471, HEALTH_RED);
    let mut old = State::default();
    old.set_position(Coords { x: 9, y: 9 });
    let s = get_state(old, &b).unwrap();
    assert_eq!(s.state_type, StateType::Dungeon);
    match s.dungeon.state {
        DungeonState::Fight(e) => assert_eq!(e.health, Health::Healthy),
        other => panic!("unexpected {:?}", other),
    }
}

#[test]
fn enemy_health_bar_positions() {
    let mut b = Bitmap::with_capacity(2);
    b.set_pixel(181, 1471, HEALTH_GREY);
    assert_eq!(get_enemy(&b).health, Health::Dead);
    let mut b = Bitmap::with_capacity(2);
    b.set_pixel(355, 1471, HEALTH_RED);
    assert_eq!(get_enemy(&b).health, Health::Hurt);
    assert_eq!(get_enemy(&Bitmap::with_capacity(0)).health, Health::Unknown);
}

#[test]
fn character_health_bars() {
    let mut b = Bitmap::with_capacity(4);
    b.set_pixel(147, 560, HEALTH_GREY);
    b.set_pixel(514, 680, HEALTH_GREEN);
    b.set_pixel(291, 800, HEALTH_GREEN);
    b.set_pixel(147, 920, HEALTH_GREEN);
    let c = get_characters(&b);
    assert_eq!(c[0].health, Health::Dead);
    assert_eq!(c[1].health, Health::Healthy);
    assert_eq!(c[2].health, Health::Hurt);
    assert_eq!(c[3].health, Health::Low);
}

#[test]
fn first_sample_of_a_pixel_counts() {
    let mut b = Bitmap::with_capacity(2);
    b.set_pixel(3, 4, [1, 2, 3]);
    b.set_pixel(3, 4, [9, 9, 9]);
    assert_eq!(b.get_pixel(3, 4), [1, 2, 3]);
    assert_eq!(b.get_pixel(4, 3), [0, 0, 0]);
}

#[test]
fn staircase_down_marker_is_read_and_taken() {
    let mut b = idle_screen(10, 10);
    b.set_pixel(804, 746, HEALTH_RED);
    b.set_pixel(808, 754, HEALTH_RED);
    b.set_pixel(809, 746, MARKER_FADED);
    b.set_pixel(799, 746, HEALTH_RED);
    let s = get_state(State::default(), &b).unwrap();
    let here = s.dungeon.get_current_tile();
    assert!(here.is_go_down && !here.is_city);
    assert_eq!(s.dungeon.get_go_down_tile().map(|t| t.get_position()), Some(Coords { x: 10, y: 10 }));
    assert_eq!(determine_action(&s, Action::CloseAd, None), Action::GoDown);
}

#[test]
fn staircase_up_marker_is_not_taken() {
    let mut b = idle_screen(10, 10);
    b.set_pixel(804, 746, HEALTH_RED);
    b.set_pixel(809, 746, HEALTH_RED);
    b.set_pixel(799, 746, MARKER_FADED);
    let s = get_state(State::default(), &b).unwrap();
    assert!(!s.dungeon.get_current_tile().is_go_down);
    assert_eq!(s.dungeon.get_go_down_tile(), None);
}

#[test]
fn teleport_prompt_keeps_party() {
    let mut b = Bitmap::with_capacity(4);
    for (x, y) in [(911, 940), (155, 940), (919, 168), (949, 168)] {
        b.set_pixel(x, y, BUTTON_DARK);
    }
    let chars = [Character::new(Health::Dead), Character::new(Health::Healthy), Character::new(Health::Healthy), Character::new(Health::Healthy)];
    let info = DungeonInfo { floor: "D1".to_string(), coordinates: Some(Coords { x: 3, y: 3 }) };
    let old = State::new(StateType::Dungeon, Dungeon::from_parts(DungeonState::Idle(false), chars, info, Vec::new()));
    let s = get_state(old, &b).unwrap();
    assert_eq!(s.state_type, StateType::TeleportToCity);
    assert_eq!(determine_action(&s, Action::CloseAd, None), Action::TeleportToCity);
    let s = get_state(State::default(), &b).unwrap();
    assert_eq!(determine_action(&s, Action::CloseAd, None), Action::CancelTeleportToCity);
}

#[test]
fn dead_member_read_from_health_bars() {
    let mut b = Bitmap::with_capacity(2);
    assert!(!endorbot::sample_has_dead_characters(&b));
    b.set_pixel(147, 800, HEALTH_GREY);
    assert!(endorbot::sample_has_dead_characters(&b));
}
