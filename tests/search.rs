use endorbot::{Coords, Dungeon, DungeonInfo, DungeonState, Health, Character, Tile};

fn chars() -> [Character; 4] {
    [Character::new(Health::Healthy); 4]
}

fn at(x: u32, y: u32) -> DungeonInfo {
    DungeonInfo { floor: "D2".to_string(), coordinates: Some(Coords { x, y }) }
}

fn tile(x: u32, y: u32, visited: bool, n: bool, e: bool, s: bool, w: bool) -> Tile {
    Tile::new(Coords { x, y }, true, visited, false, false, n, e, s, w)
}

#[test]
fn open_grid_route_has_manhattan_length() {
    let d = Dungeon::default();
    let cases = [((0u32, 0u32), (3u32, 4u32)), ((29, 29), (0, 0)), ((7, 2), (7, 2)), ((10, 20), (25, 3))];
    for ((ax, ay), (bx, by)) in cases {
        let route = d.shortest_route(Coords { x: ax, y: ay }, Coords { x: bx, y: by }).unwrap();
        let dist = ax.abs_diff(bx) + ay.abs_diff(by);
        assert_eq!(route.len() as u32, dist + 1);
        assert_eq!(route[0], Coords { x: ax, y: ay });
        assert_eq!(*route.last().unwrap(), Coords { x: bx, y: by });
    }
}

#[test]
fn route_goes_around_a_wall() {
    let tiles = vec![tile(0, 0, true, true, false, true, true), tile(0, 1, false, true, true, true, true)];
    let d = Dungeon::from_parts(DungeonState::Idle(false), chars(), at(0, 0), tiles);
    let route = d.shortest_route(Coords { x: 0, y: 0 }, Coords { x: 1, y: 0 }).unwrap();
    assert_eq!(route.len(), 4);
    assert_eq!(route[1], Coords { x: 0, y: 1 });
    let next = d.get_next_tile_to_goal(d.get_current_tile(), tile(1, 0, false, true, true, true, true)).unwrap();
    assert_eq!(next.get_position(), Coords { x: 0, y: 1 });
}

#[test]
fn route_outside_playfield_is_refused() {
    let d = Dungeon::default();
    assert!(d.shortest_route(Coords { x: 0, y: 0 }, Coords { x: 30, y: 0 }).is_none());
    let here = tile(3, 3, true, false, false, false, false);
    let d = Dungeon::from_parts(DungeonState::Idle(false), chars(), at(3, 3), vec![here]);
    assert!(d.get_next_tile_to_goal(here, tile(5, 3, false, true, true, true, true)).is_none());
}

#[test]
fn next_tile_to_own_position_is_current_tile() {
    let here = tile(3, 3, true, false, false, false, false);
    let d = Dungeon::from_parts(DungeonState::Idle(false), chars(), at(3, 3), vec![here]);
    assert_eq!(d.get_next_tile_to_goal(here, here), Some(here));
}

#[test]
fn nearest_unvisited_is_none_when_enclosed_and_visited() {
    let a = tile(1, 1, true, false, true, false, false);
    let b = tile(2, 1, true, false, false, false, true);
    let d = Dungeon::from_parts(DungeonState::Idle(false), chars(), at(1, 1), vec![a, b]);
    assert!(d.get_closest_unvisited_tile(a).is_none());
}

#[test]
fn nearest_unvisited_finds_closest_by_walking() {
    let a = tile(1, 1, true, false, true, false, false);
    let b = tile(2, 1, true, false, true, false, true);
    let c = tile(3, 1, false, true, true, true, true);
    let d = Dungeon::from_parts(DungeonState::Idle(false), chars(), at(1, 1), vec![a, b, c]);
    let found = d.get_closest_unvisited_tile(a).unwrap();
    assert_eq!(found.get_position(), Coords { x: 3, y: 1 });
    assert_eq!(found, c);
}

#[test]
fn nearest_unvisited_is_start_when_start_unvisited() {
    let a = tile(4, 4, false, false, false, false, false);
    let d = Dungeon::from_parts(DungeonState::Idle(false), chars(), at(4, 4), vec![a]);
    assert_eq!(d.get_closest_unvisited_tile(a), Some(a));
}

#[test]
fn never_sampled_tile_is_open_and_unexplored() {
    let d = Dungeon::default();
    let t = d.get_tile(8, 9);
    assert_eq!(t, Tile::new(Coords { x: 8, y: 9 }, false, false, false, false, true, true, true, true));
    assert!(!t.explored);
}

#[test]
fn city_and_staircase_lookups() {
    let city = Tile::new(Coords { x: 1, y: 1 }, true, false, true, false, true, true, true, true);
    let down = Tile::new(Coords { x: 2, y: 1 }, true, false, false, true, true, true, true, true);
    let d = Dungeon::from_parts(DungeonState::Idle(false), chars(), at(1, 1), vec![down, city]);
    assert_eq!(d.get_city_tile(), Some(city));
    assert_eq!(d.get_go_down_tile(), Some(down));
    assert_eq!(Dungeon::default().get_city_tile(), None);
    assert_eq!(Dungeon::default().get_go_down_tile(), None);
}

#[test]
fn unexplored_neighbour_detection() {
    let a = tile(1, 1, true, false, true, false, false);
    let d = Dungeon::from_parts(DungeonState::Idle(false), chars(), at(1, 1), vec![a]);
    assert!(d.has_unexplored_neighbour(&a));
    let b = tile(2, 1, true, false, false, false, true);
    let d = Dungeon::from_parts(DungeonState::Idle(false), chars(), at(1, 1), vec![a, b]);
    assert!(!d.has_unexplored_neighbour(&a));
}

#[test]
fn random_step_avoids_previous_position() {
    let here = tile(5, 5, true, false, true, false, true);
    let d = Dungeon::from_parts(DungeonState::Idle(false), chars(), at(5, 5), vec![here]);
    for _ in 0..20 {
        let t = d.get_random_tile_from_current(Some(Coords { x: 4, y: 5 }), endorbot::RandomTarget::Unexplored);
        assert_eq!(t.get_position(), Coords { x: 6, y: 5 });
    }
}

#[test]
fn random_step_without_open_exit_stays() {
    let here = tile(5, 5, true, false, false, false, false);
    let d = Dungeon::from_parts(DungeonState::Idle(false), chars(), at(5, 5), vec![here]);
    assert_eq!(d.get_random_tile_from_current(None, endorbot::RandomTarget::City), here);
}

#[test]
fn visited_flags_set_and_cleared() {
    let a = tile(1, 1, false, true, true, true, true);
    let b = tile(2, 1, true, true, true, true, true);
    let mut d = Dungeon::from_parts(DungeonState::Idle(false), chars(), at(1, 1), vec![a, b]);
    d.set_tile_visited(1, 1);
    assert!(d.get_tile(1, 1).visited);
    d.clear_visited();
    assert!(!d.get_tile(1, 1).visited);
    assert!(!d.get_tile(2, 1).visited);
}

#[test]
fn party_health_queries() {
    let mut c = chars();
    let d = Dungeon::from_parts(DungeonState::Idle(false), c, at(1, 1), Vec::new());
    assert!(!d.has_dead_character());
    assert!(!d.has_low_character());
    c[2] = Character::new(Health::Low);
    c[3] = Character::new(Health::Dead);
    let d = Dungeon::from_parts(DungeonState::Idle(false), c, at(1, 1), Vec::new());
    assert!(d.has_dead_character());
    assert!(d.has_low_character());
    assert!(c[3].is_dead());
    assert!(!c[2].is_dead());
    assert!(!Character::default().is_dead());
}

#[test]
fn equal_maps_give_equal_routes() {
    let d = Dungeon::default();
    let a = d.shortest_route(Coords { x: 2, y: 2 }, Coords { x: 9, y: 7 }).unwrap();
    let b = d.shortest_route(Coords { x: 2, y: 2 }, Coords { x: 9, y: 7 }).unwrap();
    assert_eq!(a, b);
    let here = tile(5, 5, true, true, true, true, true);
    let d = Dungeon::from_parts(DungeonState::Idle(false), chars(), at(5, 5), vec![here]);
    let first = d.get_closest_unvisited_tile(here).unwrap();
    assert_eq!(d.get_unexplored_tile(None), first);
    assert_eq!(d.get_closest_unvisited_tile(here), Some(first));
}
