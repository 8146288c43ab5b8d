use endorbot::{
    Action, Character, Coords, Dungeon, DungeonInfo, DungeonState, Enemy, Health, MoveDirection, Policy,
    State, StateType, Tile, determine_action, determine_action_with_policy,
};

fn info_at(x: u32, y: u32) -> DungeonInfo {
    DungeonInfo { floor: "D1".to_string(), coordinates: Some(Coords { x, y }) }
}

fn party(dead: bool) -> [Character; 4] {
    let first = if dead { Health::Dead } else { Health::Healthy };
    [Character::new(first), Character::new(Health::Healthy), Character::new(Health::Healthy), Character::new(Health::Hurt)]
}

fn open_tile(x: u32, y: u32, visited: bool) -> Tile {
    Tile::new(Coords { x, y }, true, visited, false, false, true, true, true, true)
}

fn dungeon_state(run: DungeonState, dead: bool, pos: (u32, u32), tiles: Vec<Tile>) -> State {
    State::new(StateType::Dungeon, Dungeon::from_parts(run, party(dead), info_at(pos.0, pos.1), tiles))
}

#[test]
fn city_with_dead_character_needs_resurrection() {
    let state = State::new(StateType::City(true), Dungeon::default());
    for last in [Action::CloseAd, Action::Fight, Action::GoDown, Action::ReturnToTown(false, MoveDirection::West)] {
        assert_eq!(determine_action(&state, last, None), Action::Resurrect);
        assert_eq!(determine_action(&state, last, Some(Coords { x: 3, y: 9 })), Action::Resurrect);
    }
}

#[test]
fn city_without_dead_character_enters_dungeon() {
    let state = State::new(StateType::City(false), Dungeon::default());
    assert_eq!(determine_action(&state, Action::CloseAd, None), Action::GotoDungeon);
}

#[test]
fn simple_screens_map_to_fixed_actions() {
    let ad = State::new(StateType::Ad, Dungeon::default());
    assert_eq!(determine_action(&ad, Action::Fight, None), Action::CloseAd);
    let main = State::new(StateType::Main, Dungeon::default());
    assert_eq!(determine_action(&main, Action::Fight, None), Action::GotoTown);
    let teleport = State::new(StateType::TeleportToCity, Dungeon::default());
    assert_eq!(determine_action(&teleport, Action::Fight, None), Action::CancelTeleportToCity);
    let teleport_dead = State::new(
        StateType::TeleportToCity,
        Dungeon::from_parts(DungeonState::Idle(false), party(true), info_at(1, 1), Vec::new()),
    );
    assert_eq!(determine_action(&teleport_dead, Action::Fight, None), Action::TeleportToCity);
}

#[test]
fn chest_is_opened() {
    let state = dungeon_state(DungeonState::IdleChest, false, (4, 4), Vec::new());
    assert_eq!(determine_action(&state, Action::CloseAd, None), Action::OpenChest);
}

#[test]
fn standing_on_known_staircase_goes_down() {
    let down = Tile::new(Coords { x: 5, y: 5 }, true, true, false, true, true, true, true, true);
    let state = dungeon_state(DungeonState::Idle(false), false, (5, 5), vec![open_tile(4, 5, false), down]);
    assert_eq!(determine_action(&state, Action::CloseAd, Some(Coords { x: 4, y: 5 })), Action::GoDown);
}

#[test]
fn dead_character_on_city_tile_returns_to_town() {
    let tiles = vec![open_tile(2, 2, true), open_tile(3, 2, false)];
    let state = dungeon_state(DungeonState::Idle(true), true, (2, 2), tiles);
    assert_eq!(determine_action(&state, Action::Fight, None), Action::ReturnToTown(true, MoveDirection::East));
    let empty = dungeon_state(DungeonState::Idle(true), true, (9, 9), Vec::new());
    assert_eq!(determine_action(&empty, Action::GoDown, Some(Coords { x: 1, y: 1 })), Action::ReturnToTown(true, MoveDirection::East));
}

#[test]
fn dead_character_walks_towards_known_city_tile() {
    let city = Tile::new(Coords { x: 2, y: 5 }, true, true, true, false, true, true, true, true);
    let state = dungeon_state(DungeonState::Idle(false), true, (5, 5), vec![open_tile(5, 5, true), city]);
    assert_eq!(determine_action(&state, Action::Fight, None), Action::ReturnToTown(false, MoveDirection::West));
}

#[test]
fn fight_is_fought_by_default() {
    let enemy = Enemy { health: Health::Hurt };
    let state = dungeon_state(DungeonState::Fight(enemy), false, (5, 5), Vec::new());
    assert_eq!(determine_action(&state, Action::Fight, None), Action::Fight);
    let city = Tile::new(Coords { x: 5, y: 8 }, true, true, true, false, true, true, true, true);
    let dead = dungeon_state(DungeonState::Fight(enemy), true, (5, 5), vec![city]);
    assert_eq!(determine_action(&dead, Action::Fight, None), Action::Fight);
    let retreat = Policy { retreat_on_low_health: true };
    assert_eq!(determine_action_with_policy(&dead, Action::Fight, None, retreat), Action::ReturnToTown(false, MoveDirection::South));
    let unknown = State::new(StateType::Dungeon, Dungeon::from_parts(DungeonState::Fight(enemy), party(true), DungeonInfo { floor: String::new(), coordinates: None }, Vec::new()));
    assert!(!endorbot::plan_needs_position(&unknown, Policy::default()));
    assert_eq!(determine_action(&unknown, Action::Fight, None), Action::Fight);
}

#[test]
fn low_health_retreat_is_a_policy() {
    let enemy = Enemy { health: Health::Healthy };
    let chars = [Character::new(Health::Low), Character::new(Health::Healthy), Character::new(Health::Healthy), Character::new(Health::Healthy)];
    let city = Tile::new(Coords { x: 5, y: 2 }, true, true, true, false, true, true, true, true);
    let state = State::new(StateType::Dungeon, Dungeon::from_parts(DungeonState::Fight(enemy), chars, info_at(5, 5), vec![city]));
    assert_eq!(determine_action(&state, Action::Fight, None), Action::Fight);
    assert_eq!(Policy::default().retreat_on_low_health, false);
    let retreat = Policy { retreat_on_low_health: true };
    assert_eq!(determine_action_with_policy(&state, Action::Fight, None, retreat), Action::ReturnToTown(false, MoveDirection::North));
}

#[test]
fn unreached_target_is_kept_and_counted() {
    let tiles = vec![open_tile(0, 0, true), open_tile(1, 0, false)];
    let state = dungeon_state(DungeonState::Idle(false), false, (0, 0), tiles);
    let target = open_tile(3, 0, false);
    let mut last = Action::FindFight(MoveDirection::East, (target, 5));
    for expected in 6..=30u32 {
        let action = determine_action(&state, last, None);
        match action {
            Action::FindFight(dir, (t, n)) => {
                assert_eq!(dir, MoveDirection::East);
                assert_eq!(t.get_position(), Coords { x: 3, y: 0 });
                assert_eq!(n, expected);
            },
            other => panic!("unexpected action {:?}", other),
        }
        last = action;
    }
}

#[test]
fn target_is_replaced_after_too_many_ticks() {
    let tiles = vec![open_tile(0, 0, true), open_tile(1, 0, false), open_tile(0, 1, true)];
    let state = dungeon_state(DungeonState::Idle(false), false, (0, 0), tiles);
    let target = open_tile(3, 0, false);
    let action = determine_action(&state, Action::FindFight(MoveDirection::East, (target, 30)), None);
    match action {
        Action::FindFight(dir, (t, n)) => {
            assert_eq!(n, 1);
            assert_eq!(t.get_position(), Coords { x: 1, y: 0 });
            assert_eq!(dir, MoveDirection::East);
        },
        other => panic!("unexpected action {:?}", other),
    }
}

#[test]
fn reached_target_is_replaced_by_nearest_unvisited() {
    let tiles = vec![open_tile(2, 2, true), open_tile(2, 1, true), open_tile(3, 2, true), open_tile(2, 3, true), open_tile(1, 2, false)];
    let state = dungeon_state(DungeonState::Idle(false), false, (2, 2), tiles);
    let reached = open_tile(2, 2, true);
    let action = determine_action(&state, Action::FindFight(MoveDirection::North, (reached, 4)), None);
    match action {
        Action::FindFight(dir, (t, n)) => {
            assert_eq!(t.get_position(), Coords { x: 1, y: 2 });
            assert_eq!(n, 1);
            assert_eq!(dir, MoveDirection::West);
        },
        other => panic!("unexpected action {:?}", other),
    }
}

#[test]
fn known_staircase_preempts_target() {
    let down = Tile::new(Coords { x: 0, y: 2 }, true, false, false, true, true, true, true, true);
    let tiles = vec![open_tile(0, 0, true), down];
    let state = dungeon_state(DungeonState::Idle(false), false, (0, 0), tiles);
    let target = open_tile(3, 0, false);
    let action = determine_action(&state, Action::FindFight(MoveDirection::East, (target, 5)), None);
    match action {
        Action::FindFight(dir, (t, n)) => {
            assert_eq!(t.get_position(), Coords { x: 0, y: 2 });
            assert_eq!(n, 1);
            assert_eq!(dir, MoveDirection::South);
        },
        other => panic!("unexpected action {:?}", other),
    }
}

#[test]
fn walled_in_party_steps_to_only_open_neighbour() {
    let here = Tile::new(Coords { x: 4, y: 4 }, true, true, false, false, false, false, true, false);
    let below = Tile::new(Coords { x: 4, y: 5 }, true, true, false, false, true, false, false, false);
    let state = dungeon_state(DungeonState::Idle(false), false, (4, 4), vec![here, below]);
    let action = determine_action(&state, Action::CloseAd, None);
    match action {
        Action::FindFight(dir, (t, _)) => {
            assert_eq!(dir, MoveDirection::South);
            assert_eq!(t.get_position(), Coords { x: 4, y: 5 });
        },
        other => panic!("unexpected action {:?}", other),
    }
}

#[test]
fn position_needs_and_runnable_steps() {
    let off = Policy::default();
    let idle = dungeon_state(DungeonState::Idle(false), false, (0, 0), Vec::new());
    assert!(endorbot::plan_needs_position(&idle, off));
    let chest = dungeon_state(DungeonState::IdleChest, false, (0, 0), Vec::new());
    assert!(!endorbot::plan_needs_position(&chest, off));
    let on_city = dungeon_state(DungeonState::Idle(true), true, (0, 0), Vec::new());
    assert!(!endorbot::plan_needs_position(&on_city, off));
    let t = open_tile(0, 0, false);
    assert!(!endorbot::action_is_runnable(&idle, &Action::FindFight(MoveDirection::North, (t, 1))));
    assert!(endorbot::action_is_runnable(&idle, &Action::FindFight(MoveDirection::South, (t, 1))));
    assert!(endorbot::action_is_runnable(&idle, &Action::ReturnToTown(true, MoveDirection::West)));
    assert!(!endorbot::action_is_runnable(&State::default(), &Action::ReturnToTown(false, MoveDirection::East)));
}
