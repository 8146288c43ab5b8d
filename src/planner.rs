use vstd::prelude::*;
use crate::coords::{Coords, MoveDirection, can_move, moved};
use crate::dungeon::{Dungeon, DungeonState, Health, Tile, any_health, city_of, direction_between, go_down_of, tile_at, with_visited};
use crate::explore::{RandomTarget, current_tile_of, random_step_ok, unexplored_choice_ok};
use crate::search::{SearchGoal, all_reachable_visited, astar_path, goal_reachable, shortest_walk};
use crate::state::{State, StateType};

verus! {

/// A step of the agent.
#[derive(Debug, Copy, Clone, PartialEq, Eq)]
pub enum Action {
    CloseAd,
    GotoTown,
    GotoDungeon,
    GoDown,
    CancelTeleportToCity,
    TeleportToCity,
    /// Walk in the direction, heading for the tile; the count says for how many
    /// steps in a row the tile has been the target.
    FindFight(MoveDirection, (Tile, u32)),
    Fight,
    OpenChest,
    /// Head back to town: enter it when the flag says the party stands on the
    /// city tile, else walk in the direction.
    ReturnToTown(bool, MoveDirection),
    Resurrect,
}

/// Choices of the planner that are settings rather than rules.
#[derive(Debug, Copy, Clone, PartialEq, Eq, Structural)]
pub struct Policy {
    /// Leave a fight for town when a party member's health is low or a member
    /// is dead; off by default, when every fight is fought.
    pub retreat_on_low_health: bool,
}

/// Steps towards one target are given up after this many.
pub const MAX_TICKS_SAME_TARGET: u32 = 30;

/// Whether planning for `state` reads the tile the party stands on.
pub open spec fn needs_position(state: &State, policy: Policy) -> bool {
    let d = state.dungeon;
    &&& state.state_type == StateType::Dungeon
    &&& match d.state {
        DungeonState::Idle(on_city) => !(any_health(d.characters, Health::Dead) && on_city),
        DungeonState::IdleChest => false,
        DungeonState::Fight(_) => policy.retreat_on_low_health && (any_health(d.characters, Health::Low)
            || any_health(d.characters, Health::Dead)),
    }
}

/// Whether `dir` leads towards `goal`: the first step of the shortest route
/// that the search returns when one exists, north when the party already stands there, else the direction of
/// a random step that avoids `avoid` and prefers `target`.
pub open spec fn heading_ok(d: &Dungeon, goal: Coords, avoid: Option<Coords>, target: RandomTarget, dir: MoveDirection) -> bool {
    let cur = current_tile_of(d);
    let tiles = d.tiles@;
    if cur.position == goal {
        dir == direction_between(cur, cur)
    } else if goal_reachable(tiles, SearchGoal::Reach(goal), cur.position) {
        astar_path(tiles, SearchGoal::Reach(goal), cur.position) matches Some(p) && shortest_walk(
            tiles,
            SearchGoal::Reach(goal),
            cur.position,
            p,
        ) && dir == direction_between(tile_at(tiles, p[1]), cur)
    } else {
        exists|t: Tile| random_step_ok(d, avoid, target, t) && dir == #[trigger] direction_between(t, cur)
    }
}

/// Whether `dir` is a step back to town: towards the known city tile, or,
/// when none is known or no route leads there, a random step that avoids the
/// previous position.
pub open spec fn homeward_ok(d: &Dungeon, avoid: Option<Coords>, dir: MoveDirection) -> bool {
    match city_of(d.tiles@) {
        Some(city) => heading_ok(d, city.position, avoid, RandomTarget::City, dir),
        None => exists|t: Tile| random_step_ok(d, avoid, RandomTarget::City, t) && dir == #[trigger] direction_between(t, current_tile_of(d)),
    }
}

/// The target that the last step still pursues, with the step count raised by
/// one: the target of a `FindFight` that is not reached yet and has had fewer
/// than `MAX_TICKS_SAME_TARGET` steps.
pub open spec fn kept_target(last_action: Action, cur: Tile) -> Option<(Tile, u32)> {
    match last_action {
        Action::FindFight(_, (t, k)) => if t.position != cur.position && k < MAX_TICKS_SAME_TARGET {
            Some((t, (k + 1) as u32))
        } else {
            None
        },
        _ => None,
    }
}

/// Whether `(t, n)` can be the target before a staircase-down tile is
/// considered: the kept target, or else a new one with count 1.
pub open spec fn chosen_target_ok(d: &Dungeon, last_action: Action, old_position: Option<Coords>, t: Tile, n: u32) -> bool {
    match kept_target(last_action, current_tile_of(d)) {
        Some(kept) => (t, n) == kept,
        None => unexplored_choice_ok(d, old_position, t) && n == 1,
    }
}

/// The target after a known staircase-down tile elsewhere takes its place.
pub open spec fn final_target(d: &Dungeon, t: Tile, n: u32) -> (Tile, u32) {
    match go_down_of(d.tiles@) {
        Some(g) => if g.position != t.position {
            (g, 1)
        } else {
            (t, n)
        },
        None => (t, n),
    }
}

/// Whether `a` walks towards the target `(t, n)`; where no route is known, a
/// random step becomes the target with count 0.
pub open spec fn walk_ok(d: &Dungeon, t: Tile, n: u32, a: Action) -> bool {
    let cur = current_tile_of(d);
    if cur.position == t.position || goal_reachable(d.tiles@, SearchGoal::Reach(t.position), cur.position) {
        a matches Action::FindFight(dir, (at, an)) && at == t && an == n && heading_ok(d, t.position, None, RandomTarget::Unexplored, dir)
    } else {
        a matches Action::FindFight(dir, (r, an)) && an == 0 && random_step_ok(d, None, RandomTarget::Unexplored, r)
            && dir == direction_between(r, cur)
    }
}

/// Whether `a` is an exploring step for an idle party with no casualties.
pub open spec fn explore_ok(d: &Dungeon, last_action: Action, old_position: Option<Coords>, a: Action) -> bool {
    exists|t: Tile, n: u32|
        #[trigger] chosen_target_ok(d, last_action, old_position, t, n) && walk_ok(d, final_target(d, t, n).0, final_target(d, t, n).1, a)
}

/// Whether an idle party without casualties still pursues the target of its
/// last step: the target is not reached, has had fewer than
/// `MAX_TICKS_SAME_TARGET` steps, a route to it is known, and no
/// staircase-down tile elsewhere is known.
pub open spec fn sticks_to_target(state: &State, last_action: Action) -> bool {
    let d = state.dungeon;
    let cur = current_tile_of(&d);
    &&& state.state_type == StateType::Dungeon
    &&& d.state matches DungeonState::Idle(_)
    &&& !any_health(d.characters, Health::Dead)
    &&& last_action matches Action::FindFight(_, (t, k)) && t.position != cur.position && k < MAX_TICKS_SAME_TARGET
        && goal_reachable(d.tiles@, SearchGoal::Reach(t.position), cur.position)
        && (go_down_of(d.tiles@) matches Some(g) ==> g.position == t.position)
}

/// Whether `a` is what the planner may do in `state`.
pub open spec fn action_ok(state: &State, last_action: Action, old_position: Option<Coords>, policy: Policy, a: Action) -> bool {
    let d = state.dungeon;
    let dead = any_health(d.characters, Health::Dead);
    match state.state_type {
        StateType::Ad => a == Action::CloseAd,
        StateType::TeleportToCity => a == if dead { Action::TeleportToCity } else { Action::CancelTeleportToCity },
        StateType::Main => a == Action::GotoTown,
        StateType::City(has_dead) => a == if has_dead { Action::Resurrect } else { Action::GotoDungeon },
        StateType::Dungeon => match d.state {
            DungeonState::IdleChest => a == Action::OpenChest,
            DungeonState::Fight(_) => if policy.retreat_on_low_health && (any_health(d.characters, Health::Low) || dead) {
                a matches Action::ReturnToTown(on, dir) && !on && homeward_ok(&d, old_position, dir)
            } else {
                a == Action::Fight
            },
            DungeonState::Idle(on_city) => if dead {
                if on_city {
                    a == Action::ReturnToTown(true, MoveDirection::East)
                } else {
                    a matches Action::ReturnToTown(on, dir) && !on && homeward_ok(&d, old_position, dir)
                }
            } else if go_down_of(d.tiles@) matches Some(g) && g.position == current_tile_of(&d).position {
                a == Action::GoDown
            } else {
                explore_ok(&d, last_action, old_position, a)
            },
        },
    }
}

/// In town with a dead party member the only step is to resurrect, whatever
/// the step before, the position and the policy.
pub proof fn lemma_city_with_dead_resurrects(
    state: &State,
    last_action: Action,
    old_position: Option<Coords>,
    policy: Policy,
    a: Action,
)
    requires
        state.state_type == StateType::City(true),
        action_ok(state, last_action, old_position, policy, a),
    ensures
        a == Action::Resurrect,
{
}

/// An idle party on the city tile with a dead member enters the town, whatever
/// the map holds.
pub proof fn lemma_dead_on_city_tile_enters_town(
    state: &State,
    last_action: Action,
    old_position: Option<Coords>,
    policy: Policy,
    a: Action,
)
    requires
        state.state_type == StateType::Dungeon,
        state.dungeon.state == DungeonState::Idle(true),
        any_health(state.dungeon.characters, Health::Dead),
        action_ok(state, last_action, old_position, policy, a),
    ensures
        a == Action::ReturnToTown(true, MoveDirection::East),
{
}

/// An idle party without casualties that stands on the known staircase-down
/// tile goes down.
pub proof fn lemma_on_staircase_goes_down(
    state: &State,
    last_action: Action,
    old_position: Option<Coords>,
    policy: Policy,
    a: Action,
)
    requires
        state.state_type == StateType::Dungeon,
        state.dungeon.state matches DungeonState::Idle(_),
        !any_health(state.dungeon.characters, Health::Dead),
        go_down_of(state.dungeon.tiles@) matches Some(g) && g.position == current_tile_of(&state.dungeon).position,
        action_ok(state, last_action, old_position, policy, a),
    ensures
        a == Action::GoDown,
{
}

/// The step count of an exploring step is 0 after a random step for want of
/// a route, 1 for a new target, and otherwise one more than the last step's
/// count for the same, unreached target that had fewer than
/// `MAX_TICKS_SAME_TARGET` steps.
pub proof fn lemma_step_count(
    state: &State,
    last_action: Action,
    old_position: Option<Coords>,
    policy: Policy,
    a: Action,
)
    requires
        state.state_type == StateType::Dungeon,
        state.dungeon.state matches DungeonState::Idle(_),
        !any_health(state.dungeon.characters, Health::Dead),
        action_ok(state, last_action, old_position, policy, a),
        a matches Action::FindFight(_, _),
    ensures
        a matches Action::FindFight(_, (t, n)) && (n == 0 || n == 1 || (last_action matches Action::FindFight(
            _,
            (lt, k),
        ) && t == lt && n == k + 1 && k < MAX_TICKS_SAME_TARGET && lt.position != current_tile_of(
            &state.dungeon,
        ).position)),
{
    let d = state.dungeon;
    let (t0, n0) = choose|t0: Tile, n0: u32| #[trigger] chosen_target_ok(&d, last_action, old_position, t0, n0)
        && walk_ok(&d, final_target(&d, t0, n0).0, final_target(&d, t0, n0).1, a);
}

/// Without a kept target (the last step was no `FindFight`, reached its
/// target, or had `MAX_TICKS_SAME_TARGET` steps or more) and with no
/// staircase-down tile known, the planner picks a new target with count 1 and
/// walks towards it; only where no route to it is known does it take a random
/// step with count 0. While an unvisited tile is reachable, the new target is
/// the one at the end of the route the search returns.
pub proof fn lemma_new_target(
    state: &State,
    last_action: Action,
    old_position: Option<Coords>,
    policy: Policy,
    a: Action,
)
    requires
        state.state_type == StateType::Dungeon,
        state.dungeon.state matches DungeonState::Idle(_),
        !any_health(state.dungeon.characters, Health::Dead),
        go_down_of(state.dungeon.tiles@).is_none(),
        kept_target(last_action, current_tile_of(&state.dungeon)).is_none(),
        action_ok(state, last_action, old_position, policy, a),
    ensures
        a matches Action::FindFight(_, (t, n)) && ((n == 1 && unexplored_choice_ok(&state.dungeon, old_position, t)
            && (t.position == current_tile_of(&state.dungeon).position || goal_reachable(
            state.dungeon.tiles@,
            SearchGoal::Reach(t.position),
            current_tile_of(&state.dungeon).position,
        ))) || (n == 0 && random_step_ok(&state.dungeon, None, RandomTarget::Unexplored, t))),
        ({
            let tiles = state.dungeon.tiles@;
            let cur = current_tile_of(&state.dungeon);
            astar_path(tiles, SearchGoal::Unvisited, cur.position) matches Some(p) && !all_reachable_visited(tiles, cur.position)
                && (tile_at(tiles, p.last()).position == cur.position || goal_reachable(
                tiles,
                SearchGoal::Reach(tile_at(tiles, p.last()).position),
                cur.position,
            ))
        }) ==> (astar_path(state.dungeon.tiles@, SearchGoal::Unvisited, current_tile_of(&state.dungeon).position) matches Some(p)
            && a matches Action::FindFight(_, (t, n)) && t == tile_at(state.dungeon.tiles@, p.last()) && n == 1),
{
    let d = state.dungeon;
    let (t0, n0) = choose|t0: Tile, n0: u32| #[trigger] chosen_target_ok(&d, last_action, old_position, t0, n0)
        && walk_ok(&d, final_target(&d, t0, n0).0, final_target(&d, t0, n0).1, a);
}

/// A known staircase-down tile that the party does not stand on, and to
/// which a route is known, becomes the target with count 1, unless the kept
/// target already lies there; the target is that very tile where the kept
/// target, or the nearest unvisited tile picked in its place, lies elsewhere.
pub proof fn lemma_staircase_preempts(
    state: &State,
    last_action: Action,
    old_position: Option<Coords>,
    policy: Policy,
    a: Action,
)
    requires
        state.state_type == StateType::Dungeon,
        state.dungeon.state matches DungeonState::Idle(_),
        !any_health(state.dungeon.characters, Health::Dead),
        go_down_of(state.dungeon.tiles@) matches Some(g) && g.position != current_tile_of(&state.dungeon).position
            && goal_reachable(state.dungeon.tiles@, SearchGoal::Reach(g.position), current_tile_of(&state.dungeon).position)
            && (kept_target(last_action, current_tile_of(&state.dungeon)) matches Some(kept) ==> kept.0.position != g.position),
        action_ok(state, last_action, old_position, policy, a),
    ensures
        go_down_of(state.dungeon.tiles@) matches Some(g) && a matches Action::FindFight(_, (t, n))
            && t.position == g.position && n == 1,
        ({
            let tiles = state.dungeon.tiles@;
            let cur = current_tile_of(&state.dungeon);
            ||| kept_target(last_action, cur).is_some()
            ||| (astar_path(tiles, SearchGoal::Unvisited, cur.position) matches Some(p) && !all_reachable_visited(tiles, cur.position)
                && go_down_of(tiles).is_some() && tile_at(tiles, p.last()).position != go_down_of(tiles).unwrap().position)
        }) ==> (go_down_of(state.dungeon.tiles@) matches Some(g) && a matches Action::FindFight(_, (t, _)) && t == g),
{
    let d = state.dungeon;
    let (t0, n0) = choose|t0: Tile, n0: u32| #[trigger] chosen_target_ok(&d, last_action, old_position, t0, n0)
        && walk_ok(&d, final_target(&d, t0, n0).0, final_target(&d, t0, n0).1, a);
}

impl Default for Policy {
    fn default() -> (r: Self)
        ensures
            !r.retreat_on_low_health,
    {
        Policy { retreat_on_low_health: false }
    }
}

impl Dungeon {
    fn head_for(&self, cur: Tile, goal: Tile, avoid: Option<Coords>, target: RandomTarget) -> (r: Option<MoveDirection>)
        requires
            self.info.coordinates.is_some(),
            cur == current_tile_of(self),
        ensures
            r.is_some() <==> (cur.position == goal.position || goal_reachable(
                self.tiles@,
                SearchGoal::Reach(goal.position),
                cur.position,
            )),
            r matches Some(dir) ==> heading_ok(self, goal.position, avoid, target, dir),
    {
        match self.get_next_tile_to_goal(cur, goal) {
            Some(next) => Some(next.direction_from(cur)),
            None => None,
        }
    }

    fn random_heading(&self, cur: Tile, avoid: Option<Coords>, target: RandomTarget) -> (r: MoveDirection)
        requires
            self.info.coordinates.is_some(),
            cur == current_tile_of(self),
        ensures
            exists|t: Tile| random_step_ok(self, avoid, target, t) && r == #[trigger] direction_between(t, cur),
    {
        let t = self.get_random_tile_from_current(avoid, target);
        t.direction_from(cur)
    }

    fn homeward(&self, old_position: Option<Coords>) -> (r: MoveDirection)
        requires
            self.info.coordinates.is_some(),
        ensures
            homeward_ok(self, old_position, r),
    {
        let cur = self.get_current_tile();
        match self.get_city_tile() {
            Some(city) => match self.head_for(cur, city, old_position, RandomTarget::City) {
                Some(dir) => dir,
                None => self.random_heading(cur, old_position, RandomTarget::City),
            },
            None => self.random_heading(cur, old_position, RandomTarget::City),
        }
    }
}

/// Whether planning for `state` under `policy` reads the party's position.
pub fn plan_needs_position(state: &State, policy: Policy) -> (r: bool)
    ensures
        r == needs_position(state, policy),
{
    let d = &state.dungeon;
    match state.state_type {
        StateType::Dungeon => match d.state {
            DungeonState::Idle(on_city) => !(d.has_dead_character() && on_city),
            DungeonState::IdleChest => false,
            DungeonState::Fight(_) => policy.retreat_on_low_health && (d.has_low_character() || d.has_dead_character()),
        },
        _ => false,
    }
}

/// Plans the next step with the default policy.
pub fn determine_action(state: &State, last_action: Action, old_position: Option<Coords>) -> (r: Action)
    requires
        needs_position(state, Policy { retreat_on_low_health: false }) ==> state.dungeon.info.coordinates.is_some(),
    ensures
        action_ok(state, last_action, old_position, Policy { retreat_on_low_health: false }, r),
        sticks_to_target(state, last_action) ==> (last_action matches Action::FindFight(_, (t, k))
            && r matches Action::FindFight(_, (rt, rk)) && rt == t && rk == k + 1),
{
    determine_action_with_policy(state, last_action, old_position, Policy { retreat_on_low_health: false })
}

/// Plans the next step for `state`, given the step before and the position
/// before it.
pub fn determine_action_with_policy(state: &State, last_action: Action, old_position: Option<Coords>, policy: Policy) -> (r: Action)
    requires
        needs_position(state, policy) ==> state.dungeon.info.coordinates.is_some(),
    ensures
        action_ok(state, last_action, old_position, policy, r),
        sticks_to_target(state, last_action) ==> (last_action matches Action::FindFight(_, (t, k))
            && r matches Action::FindFight(_, (rt, rk)) && rt == t && rk == k + 1),
{
    let dungeon = &state.dungeon;
    match state.state_type {
        StateType::Ad => Action::CloseAd,
        StateType::TeleportToCity => {
            if dungeon.has_dead_character() {
                Action::TeleportToCity
            } else {
                Action::CancelTeleportToCity
            }
        },
        StateType::Main => Action::GotoTown,
        StateType::City(has_dead_characters) => {
            if has_dead_characters {
                Action::Resurrect
            } else {
                Action::GotoDungeon
            }
        },
        StateType::Dungeon => match dungeon.state {
            DungeonState::Idle(on_city_tile) => {
                if dungeon.has_dead_character() {
                    if on_city_tile {
                        Action::ReturnToTown(true, MoveDirection::East)
                    } else {
                        Action::ReturnToTown(false, dungeon.homeward(old_position))
                    }
                } else {
                    explore(dungeon, last_action, old_position)
                }
            },
            DungeonState::IdleChest => Action::OpenChest,
            DungeonState::Fight(_enemy) => {
                if policy.retreat_on_low_health && (dungeon.has_low_character() || dungeon.has_dead_character()) {
                    Action::ReturnToTown(false, dungeon.homeward(old_position))
                } else {
                    Action::Fight
                }
            },
        },
    }
}

fn explore(dungeon: &Dungeon, last_action: Action, old_position: Option<Coords>) -> (r: Action)
    requires
        dungeon.info.coordinates.is_some(),
    ensures
        if go_down_of(dungeon.tiles@) matches Some(g) && g.position == current_tile_of(dungeon).position {
            r == Action::GoDown
        } else {
            explore_ok(dungeon, last_action, old_position, r)
        },
{
    let cur = dungeon.get_current_tile();
    let go_down = dungeon.get_go_down_tile();
    if let Some(g) = go_down {
        if g.position == cur.position {
            return Action::GoDown;
        }
    }
    let (tile, ticks) = match last_action {
        Action::FindFight(_dir, (target, ticks)) => {
            if target.position != cur.position && ticks < MAX_TICKS_SAME_TARGET {
                (target, ticks + 1)
            } else {
                (dungeon.get_unexplored_tile(old_position), 1u32)
            }
        },
        _ => (dungeon.get_unexplored_tile(old_position), 1u32),
    };
    assert(chosen_target_ok(dungeon, last_action, old_position, tile, ticks));
    let (tile2, ticks2) = match go_down {
        Some(g) => if g.position != tile.position {
            (g, 1u32)
        } else {
            (tile, ticks)
        },
        None => (tile, ticks),
    };
    assert((tile2, ticks2) == final_target(dungeon, tile, ticks));
    let r = match dungeon.head_for(cur, tile2, None, RandomTarget::Unexplored) {
        Some(dir) => Action::FindFight(dir, (tile2, ticks2)),
        None => {
            let t = dungeon.get_random_tile_from_current(None, RandomTarget::Unexplored);
            Action::FindFight(t.direction_from(cur), (t, 0))
        },
    };
    assert(walk_ok(dungeon, tile2, ticks2, r));
    r
}

/// A tap at a position of the device screen.
#[derive(Debug, Copy, Clone, PartialEq, Eq, Structural)]
pub struct Tap {
    pub x: u32,
    pub y: u32,
}

/// Where to tap to walk one tile in direction `d`.
pub open spec fn move_tap(d: MoveDirection) -> Tap {
    match d {
        MoveDirection::North => Tap { x: 774, y: 2085 },
        MoveDirection::East => Tap { x: 953, y: 2277 },
        MoveDirection::South => Tap { x: 774, y: 2264 },
        MoveDirection::West => Tap { x: 575, y: 2277 },
    }
}

/// Where to tap to carry out `a`, if anywhere.
pub open spec fn action_tap(a: Action) -> Option<Tap> {
    match a {
        Action::CloseAd => Some(Tap { x: 935, y: 153 }),
        Action::GotoTown => None,
        Action::GotoDungeon => Some(Tap { x: 890, y: 1928 }),
        Action::CancelTeleportToCity => Some(Tap { x: 331, y: 1440 }),
        Action::TeleportToCity => Some(Tap { x: 680, y: 1440 }),
        Action::GoDown => Some(Tap { x: 715, y: 1316 }),
        Action::FindFight(d, _) => Some(move_tap(d)),
        Action::Fight => Some(Tap { x: 711, y: 1308 }),
        Action::OpenChest => Some(Tap { x: 798, y: 1312 }),
        Action::ReturnToTown(on_city_tile, d) => if on_city_tile {
            Some(Tap { x: 715, y: 1316 })
        } else {
            Some(move_tap(d))
        },
        Action::Resurrect => None,
    }
}

/// The direction in which `a` walks the party, if it does.
pub open spec fn action_move(a: Action) -> Option<MoveDirection> {
    match a {
        Action::FindFight(d, _) => Some(d),
        Action::ReturnToTown(on_city_tile, d) => if on_city_tile {
            None
        } else {
            Some(d)
        },
        _ => None,
    }
}

/// Where to tap to walk one tile in `move_direction`.
pub fn adb_move(move_direction: &MoveDirection) -> (r: Tap)
    ensures
        r == move_tap(*move_direction),
{
    match move_direction {
        MoveDirection::North => Tap { x: 774, y: 2085 },
        MoveDirection::East => Tap { x: 953, y: 2277 },
        MoveDirection::South => Tap { x: 774, y: 2264 },
        MoveDirection::West => Tap { x: 575, y: 2277 },
    }
}

/// Whether `run_action` can carry out `action` in `state`: a walking step
/// needs a known position with room to move in its direction.
pub fn action_is_runnable(state: &State, action: &Action) -> (r: bool)
    ensures
        r == (action_move(*action) matches Some(d) ==> (state.dungeon.info.coordinates matches Some(c) && can_move(c, d))),
{
    let dir = match action {
        Action::FindFight(d, _) => Some(*d),
        Action::ReturnToTown(on_city_tile, d) => if *on_city_tile {
            None
        } else {
            Some(*d)
        },
        _ => None,
    };
    match dir {
        None => true,
        Some(d) => match state.get_position() {
            None => false,
            Some(c) => match d {
                MoveDirection::North => c.y > 0,
                MoveDirection::East => c.x < u32::MAX,
                MoveDirection::South => c.y < u32::MAX,
                MoveDirection::West => c.x > 0,
            },
        },
    }
}

/// Carries out `action` on the state: entering the dungeon forgets which
/// tiles were visited, going down a floor forgets the map. Returns where to
/// tap, and for a walking step the position it is expected to lead to.
pub fn run_action(state: &mut State, action: &Action) -> (r: (Option<Tap>, Option<Coords>))
    requires
        action_move(*action) matches Some(d) ==> (old(state).dungeon.info.coordinates matches Some(c) && can_move(c, d)),
    ensures
        r.0 == action_tap(*action),
        r.1 == match action_move(*action) {
            Some(d) => Some(moved(old(state).dungeon.info.coordinates.unwrap(), d)),
            None => None,
        },
        final(state).state_type == old(state).state_type,
        final(state).dungeon.state == old(state).dungeon.state,
        final(state).dungeon.characters == old(state).dungeon.characters,
        final(state).dungeon.info == old(state).dungeon.info,
        final(state).dungeon.tiles@ == match *action {
            Action::GotoDungeon => Seq::new(old(state).dungeon.tiles@.len(), |i: int| with_visited(old(state).dungeon.tiles@[i], false)),
            Action::GoDown => Seq::empty(),
            _ => old(state).dungeon.tiles@,
        },
{
    match action {
        Action::CloseAd => (Some(Tap { x: 935, y: 153 }), None),
        Action::GotoTown => (None, None),
        Action::GotoDungeon => {
            state.dungeon.clear_visited();
            assert(state.dungeon.tiles@ =~= Seq::new(old(state).dungeon.tiles@.len(), |i: int| with_visited(old(state).dungeon.tiles@[i], false)));
            (Some(Tap { x: 890, y: 1928 }), None)
        },
        Action::CancelTeleportToCity => (Some(Tap { x: 331, y: 1440 }), None),
        Action::TeleportToCity => (Some(Tap { x: 680, y: 1440 }), None),
        Action::GoDown => {
            state.dungeon.tiles = Vec::new();
            assert(state.dungeon.tiles@ =~= Seq::<Tile>::empty());
            (Some(Tap { x: 715, y: 1316 }), None)
        },
        Action::FindFight(move_direction, _target_tile) => {
            let tap = adb_move(move_direction);
            let pos = state.get_position().unwrap();
            (Some(tap), Some(pos.move_direction(*move_direction)))
        },
        Action::Fight => (Some(Tap { x: 711, y: 1308 }), None),
        Action::OpenChest => (Some(Tap { x: 798, y: 1312 }), None),
        Action::ReturnToTown(on_city_tile, move_direction) => {
            if *on_city_tile {
                (Some(Tap { x: 715, y: 1316 }), None)
            } else {
                let tap = adb_move(move_direction);
                let pos = state.get_position().unwrap();
                (Some(tap), Some(pos.move_direction(*move_direction)))
            }
        },
        Action::Resurrect => (None, None),
    }
}

} // verus!
