use vstd::prelude::*;
use crate::coords::{Coords, MoveDirection, moved};
use crate::dungeon::{Dungeon, Tile, exit_open, tile_at, unexplored_neighbour};
use crate::search::{SearchGoal, all_reachable_visited, astar_path, shortest_walk};
use rand::seq::IndexedRandom;

verus! {

/// What a random step should prefer.
#[derive(Debug, Copy, Clone, PartialEq, Eq, Structural)]
pub enum RandomTarget {
    GoDown,
    City,
    Unexplored,
}

/// The tile the party stands on.
pub open spec fn current_tile_of(d: &Dungeon) -> Tile {
    tile_at(d.tiles@, d.info.coordinates.unwrap())
}

/// `s` with the neighbour of `cur` in direction `dir` appended when the exit
/// is open and the neighbour is neither the city nor a staircase-down tile.
pub open spec fn with_neighbour(tiles: Seq<Tile>, s: Seq<Tile>, cur: Tile, dir: MoveDirection) -> Seq<Tile> {
    let t = tile_at(tiles, moved(cur.position, dir));
    if exit_open(cur, dir) && !t.is_city && !t.is_go_down {
        s.push(t)
    } else {
        s
    }
}

/// The neighbours of `cur` that a random step may take: north, east, south
/// and west in that order, through open exits, leaving out the city and
/// staircase-down tiles.
pub open spec fn open_neighbours(tiles: Seq<Tile>, cur: Tile) -> Seq<Tile> {
    let s = with_neighbour(tiles, Seq::empty(), cur, MoveDirection::North);
    let s = with_neighbour(tiles, s, cur, MoveDirection::East);
    let s = with_neighbour(tiles, s, cur, MoveDirection::South);
    with_neighbour(tiles, s, cur, MoveDirection::West)
}

/// The neighbours left after the tile at `avoid` is dropped, which happens
/// only where more than one neighbour is open.
pub open spec fn avoiding(s: Seq<Tile>, avoid: Option<Coords>) -> Seq<Tile> {
    match avoid {
        Some(a) if s.len() > 1 => s.filter(|t: Tile| t.position != a),
        _ => s,
    }
}

/// The index of the first tile of `s` with the marker that `target` names.
pub open spec fn first_marked(s: Seq<Tile>, target: RandomTarget, i: int) -> bool {
    &&& 0 <= i < s.len()
    &&& marked(s[i], target)
    &&& forall|j: int| 0 <= j < i ==> !marked(#[trigger] s[j], target)
}

/// Whether `t` carries the marker that `target` names.
pub open spec fn marked(t: Tile, target: RandomTarget) -> bool {
    match target {
        RandomTarget::GoDown => t.is_go_down,
        RandomTarget::City => t.is_city,
        RandomTarget::Unexplored => false,
    }
}

/// The tiles a random step from the current tile picks among: the open
/// neighbours, without the one at `avoid`; where more than one is left, the
/// first one with the marker that `target` names, or, for unexplored targets,
/// those next to an unexplored tile when there are any.
pub open spec fn random_candidates(d: &Dungeon, avoid: Option<Coords>, target: RandomTarget) -> Seq<Tile> {
    let tiles = d.tiles@;
    let s = avoiding(open_neighbours(tiles, current_tile_of(d)), avoid);
    if s.len() > 1 {
        match target {
            RandomTarget::Unexplored => {
                let u = s.filter(|t: Tile| unexplored_neighbour(tiles, t));
                if u.len() > 0 { u } else { s }
            },
            _ => {
                if exists|i: int| first_marked(s, target, i) {
                    seq![s[choose|i: int| first_marked(s, target, i)]]
                } else {
                    s
                }
            },
        }
    } else {
        s
    }
}

/// Whether `t` can come out of a random step: one of the candidates, or the
/// current tile itself where there is none.
pub open spec fn random_step_ok(d: &Dungeon, avoid: Option<Coords>, target: RandomTarget, t: Tile) -> bool {
    let c = random_candidates(d, avoid, target);
    if c.len() == 0 {
        t == current_tile_of(d)
    } else {
        c.contains(t)
    }
}

/// The first neighbour of `me`, looking west, east, north and south in that
/// order, that lies through an open exit and is unexplored.
pub open spec fn first_unexplored_exit(tiles: Seq<Tile>, me: Tile) -> Option<Tile> {
    let w = tile_at(tiles, moved(me.position, MoveDirection::West));
    let e = tile_at(tiles, moved(me.position, MoveDirection::East));
    let n = tile_at(tiles, moved(me.position, MoveDirection::North));
    let s = tile_at(tiles, moved(me.position, MoveDirection::South));
    if exit_open(me, MoveDirection::West) && !w.explored {
        Some(w)
    } else if exit_open(me, MoveDirection::East) && !e.explored {
        Some(e)
    } else if exit_open(me, MoveDirection::North) && !n.explored {
        Some(n)
    } else if exit_open(me, MoveDirection::South) && !s.explored {
        Some(s)
    } else {
        None
    }
}

/// Whether `t` can be picked as a new exploration target: the nearest
/// unvisited tile by walking, at the end of the route the search returns; when every reachable tile is visited, the first
/// unexplored neighbour through an open exit; else a recorded tile next to an
/// unexplored one; else a random step that avoids `old_position`.
pub open spec fn unexplored_choice_ok(d: &Dungeon, old_position: Option<Coords>, t: Tile) -> bool {
    let tiles = d.tiles@;
    let me = current_tile_of(d);
    if !all_reachable_visited(tiles, me.position) {
        astar_path(tiles, SearchGoal::Unvisited, me.position) matches Some(p) && shortest_walk(
            tiles,
            SearchGoal::Unvisited,
            me.position,
            p,
        ) && t == tile_at(tiles, p.last())
    } else {
        match first_unexplored_exit(tiles, me) {
            Some(x) => t == x,
            None => {
                let frontier = tiles.filter(|x: Tile| unexplored_neighbour(tiles, x));
                if frontier.len() > 0 {
                    frontier.contains(t)
                } else {
                    random_step_ok(d, old_position, RandomTarget::Unexplored, t)
                }
            },
        }
    }
}

/// Relies on `rand::seq::IndexedRandom::choose` with the thread-local
/// generator of `rand::rng`: it returns `None` for an empty slice, else one of
/// its elements.
#[verifier::external_body]
fn choose_tile(tiles: &Vec<Tile>) -> (r: Option<Tile>)
    ensures
        r.is_none() <==> tiles@.len() == 0,
        r matches Some(t) ==> tiles@.contains(t),
{
    tiles.as_slice().choose(&mut rand::rng()).copied()
}

fn push_neighbour(d: &Dungeon, out: &mut Vec<Tile>, cur: Tile, dir: MoveDirection)
    ensures
        final(out)@ == with_neighbour(d.tiles@, old(out)@, cur, dir),
{
    let open = match dir {
        MoveDirection::North => cur.north_passable && cur.position.y > 0,
        MoveDirection::East => cur.east_passable && cur.position.x < u32::MAX,
        MoveDirection::South => cur.south_passable && cur.position.y < u32::MAX,
        MoveDirection::West => cur.west_passable && cur.position.x > 0,
    };
    if open {
        let p = cur.position.move_direction(dir);
        let t = d.get_tile(p.x, p.y);
        if !t.is_city && !t.is_go_down {
            out.push(t);
        }
    }
}

fn without_position(s: &Vec<Tile>, a: Coords) -> (r: Vec<Tile>)
    ensures
        r@ == s@.filter(|t: Tile| t.position != a),
{
    let ghost pred = |t: Tile| t.position != a;
    let mut out: Vec<Tile> = Vec::new();
    let mut i: usize = 0;
    while i < s.len()
        invariant
            0 <= i <= s@.len(),
            pred == (|t: Tile| t.position != a),
            out@ == s@.take(i as int).filter(pred),
        decreases s@.len() - i,
    {
        proof {
            reveal(Seq::filter);
            assert(s@.take(i as int + 1).drop_last() =~= s@.take(i as int));
        }
        if s[i].position != a {
            out.push(s[i]);
        }
        i = i + 1;
    }
    assert(s@.take(s@.len() as int) =~= s@);
    out
}

fn first_marked_index(s: &Vec<Tile>, target: RandomTarget) -> (r: Option<usize>)
    ensures
        match r {
            Some(i) => first_marked(s@, target, i as int),
            None => !exists|i: int| first_marked(s@, target, i),
        },
{
    let mut i: usize = 0;
    while i < s.len()
        invariant
            0 <= i <= s@.len(),
            forall|j: int| 0 <= j < i ==> !marked(#[trigger] s@[j], target),
        decreases s@.len() - i,
    {
        let t = s[i];
        let hit = match target {
            RandomTarget::GoDown => t.is_go_down,
            RandomTarget::City => t.is_city,
            RandomTarget::Unexplored => false,
        };
        if hit {
            return Some(i);
        }
        i = i + 1;
    }
    None
}

impl Dungeon {
    fn with_unexplored_neighbour(&self, s: &Vec<Tile>) -> (r: Vec<Tile>)
        ensures
            r@ == s@.filter(|t: Tile| unexplored_neighbour(self.tiles@, t)),
    {
        let ghost pred = |t: Tile| unexplored_neighbour(self.tiles@, t);
        let mut out: Vec<Tile> = Vec::new();
        let mut i: usize = 0;
        while i < s.len()
            invariant
                0 <= i <= s@.len(),
                pred == (|t: Tile| unexplored_neighbour(self.tiles@, t)),
                out@ == s@.take(i as int).filter(pred),
            decreases s@.len() - i,
        {
            proof {
                reveal(Seq::filter);
                assert(s@.take(i as int + 1).drop_last() =~= s@.take(i as int));
            }
            if self.has_unexplored_neighbour(&s[i]) {
                out.push(s[i]);
            }
            i = i + 1;
        }
        assert(s@.take(s@.len() as int) =~= s@);
        out
    }

    /// A random neighbour of the current tile to step to, chosen among
    /// `random_candidates`; the current tile when there is none.
    pub fn get_random_tile_from_current(&self, avoid_position: Option<Coords>, random_target: RandomTarget) -> (r: Tile)
        requires
            self.info.coordinates.is_some(),
        ensures
            random_step_ok(self, avoid_position, random_target, r),
    {
        let current = self.get_current_tile();
        let mut tiles: Vec<Tile> = Vec::new();
        push_neighbour(self, &mut tiles, current, MoveDirection::North);
        push_neighbour(self, &mut tiles, current, MoveDirection::East);
        push_neighbour(self, &mut tiles, current, MoveDirection::South);
        push_neighbour(self, &mut tiles, current, MoveDirection::West);
        assert(tiles@ == open_neighbours(self.tiles@, current));
        if tiles.len() > 1 {
            if let Some(a) = avoid_position {
                tiles = without_position(&tiles, a);
            }
        }
        assert(tiles@ == avoiding(open_neighbours(self.tiles@, current), avoid_position));
        if tiles.len() > 1 {
            match random_target {
                RandomTarget::Unexplored => {
                    let u = self.with_unexplored_neighbour(&tiles);
                    if u.len() > 0 {
                        tiles = u;
                    }
                },
                _ => {
                    if let Some(i) = first_marked_index(&tiles, random_target) {
                        let t = tiles[i];
                        proof {
                            let k = choose|k: int| first_marked(tiles@, random_target, k);
                            if k < i {
                                assert(!marked(tiles@[k], random_target));
                            }
                            if i < k {
                                assert(!marked(tiles@[i as int], random_target));
                            }
                        }
                        tiles = vec![t];
                        assert(tiles@ =~= seq![t]);
                    }
                },
            }
        }
        assert(tiles@ == random_candidates(self, avoid_position, random_target));
        match choose_tile(&tiles) {
            Some(t) => t,
            None => current,
        }
    }

    /// A new tile to explore towards; see `unexplored_choice_ok`.
    pub fn get_unexplored_tile(&self, old_position: Option<Coords>) -> (r: Tile)
        requires
            self.info.coordinates.is_some(),
        ensures
            unexplored_choice_ok(self, old_position, r),
    {
        let me = self.get_current_tile();
        if let Some(tile) = self.get_closest_unvisited_tile(me) {
            return tile;
        }
        let p = me.position;
        if me.west_passable && p.x > 0 {
            let tile = self.get_tile(p.x - 1, p.y);
            if !tile.explored {
                return tile;
            }
        }
        if me.east_passable && p.x < u32::MAX {
            let tile = self.get_tile(p.x + 1, p.y);
            if !tile.explored {
                return tile;
            }
        }
        if me.north_passable && p.y > 0 {
            let tile = self.get_tile(p.x, p.y - 1);
            if !tile.explored {
                return tile;
            }
        }
        if me.south_passable && p.y < u32::MAX {
            let tile = self.get_tile(p.x, p.y + 1);
            if !tile.explored {
                return tile;
            }
        }
        let frontier = self.with_unexplored_neighbour(&self.tiles);
        if let Some(tile) = choose_tile(&frontier) {
            return tile;
        }
        self.get_random_tile_from_current(old_position, RandomTarget::Unexplored)
    }
}

} // verus!
