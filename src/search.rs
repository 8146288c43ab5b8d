use vstd::prelude::*;
use crate::coords::{Coords, manhattan};
use crate::dungeon::{Dungeon, Tile, tile_at};

verus! {

/// The largest coordinate that a route to a chosen tile may pass through.
pub const PLAYFIELD_MAX: u32 = 29;

/// What a grid search looks for.
#[derive(Debug, Copy, Clone, PartialEq, Eq, Structural)]
pub enum SearchGoal {
    /// The given position, through the playfield only.
    Reach(Coords),
    /// Any tile that was not visited yet, anywhere on the grid.
    Unvisited,
}

/// The largest coordinate a search for `g` may step to.
pub open spec fn search_limit(g: SearchGoal) -> u32 {
    match g {
        SearchGoal::Reach(_) => PLAYFIELD_MAX,
        SearchGoal::Unvisited => u32::MAX,
    }
}

/// Whether a search for `g` may step from `a` to `b`: `b` is next to `a`
/// across an edge that `a`'s own tile has open, within the search's bounds.
pub open spec fn step_ok(tiles: Seq<Tile>, g: SearchGoal, a: Coords, b: Coords) -> bool {
    let t = tile_at(tiles, a);
    let hi = search_limit(g);
    ||| t.north_passable && a.y > 0 && b == Coords { x: a.x, y: (a.y - 1) as u32 }
    ||| t.east_passable && a.x < hi && b == Coords { x: (a.x + 1) as u32, y: a.y }
    ||| t.south_passable && a.y < hi && b == Coords { x: a.x, y: (a.y + 1) as u32 }
    ||| t.west_passable && a.x > 0 && b == Coords { x: (a.x - 1) as u32, y: a.y }
}

/// Whether position `c` ends a search for `g`.
pub open spec fn at_goal(tiles: Seq<Tile>, g: SearchGoal, c: Coords) -> bool {
    match g {
        SearchGoal::Reach(t) => c == t,
        SearchGoal::Unvisited => !tile_at(tiles, c).visited,
    }
}

/// Whether `p` is a walk of a search for `g`: at least one position, and each
/// next one a permitted step from the one before.
pub open spec fn is_walk(tiles: Seq<Tile>, g: SearchGoal, p: Seq<Coords>) -> bool {
    &&& p.len() >= 1
    &&& forall|i: int| 0 <= i < p.len() - 1 ==> step_ok(tiles, g, #[trigger] p[i], p[i + 1])
}

/// Whether `p` is a walk from `from` that ends at a goal of `g`.
pub open spec fn walk_to_goal(tiles: Seq<Tile>, g: SearchGoal, from: Coords, p: Seq<Coords>) -> bool {
    &&& is_walk(tiles, g, p)
    &&& p[0] == from
    &&& at_goal(tiles, g, p.last())
}

/// Whether some walk leads from `from` to a goal of `g`.
pub open spec fn goal_reachable(tiles: Seq<Tile>, g: SearchGoal, from: Coords) -> bool {
    exists|p: Seq<Coords>| walk_to_goal(tiles, g, from, p)
}

/// Whether `p` is a walk from `from` to a goal of `g` with as few positions as
/// any such walk.
pub open spec fn shortest_walk(tiles: Seq<Tile>, g: SearchGoal, from: Coords, p: Seq<Coords>) -> bool {
    &&& walk_to_goal(tiles, g, from, p)
    &&& forall|q: Seq<Coords>| walk_to_goal(tiles, g, from, q) ==> p.len() <= q.len()
}

/// Whether every position that a walk from `from` reaches, `from` included, is
/// a visited tile.
pub open spec fn all_reachable_visited(tiles: Seq<Tile>, from: Coords) -> bool {
    forall|p: Seq<Coords>|
        is_walk(tiles, SearchGoal::Unvisited, p) && p[0] == from ==> tile_at(tiles, p.last()).visited
}

proof fn lemma_push_contains<A>(s: Seq<A>, x: A)
    ensures
        s.push(x).contains(x),
        forall|y: A| s.contains(y) ==> s.push(x).contains(y),
        forall|y: A| s.push(x).contains(y) ==> s.contains(y) || y == x,
{
    assert(s.push(x)[s.len() as int] == x);
    assert forall|y: A| s.contains(y) implies s.push(x).contains(y) by {
        let i = choose|i: int| 0 <= i < s.len() && s[i] == y;
        assert(s.push(x)[i] == y);
    }
    assert forall|y: A| s.push(x).contains(y) implies s.contains(y) || y == x by {
        let i = choose|i: int| 0 <= i < s.len() + 1 && s.push(x)[i] == y;
        if i < s.len() {
            assert(s[i] == y);
        }
    }
}

/// The permitted steps from `p`, each with cost 1.
pub fn search_successors(d: &Dungeon, p: Coords, goal: SearchGoal) -> (r: Vec<(Coords, u64)>)
    ensures
        forall|b: Coords| step_ok(d.tiles@, goal, p, b) <==> r@.contains((b, 1u64)),
        forall|i: int| 0 <= i < r@.len() ==> (#[trigger] r@[i]).1 == 1,
{
    let t = d.get_tile(p.x, p.y);
    let hi = match goal {
        SearchGoal::Reach(_) => PLAYFIELD_MAX,
        SearchGoal::Unvisited => u32::MAX,
    };
    let mut out: Vec<(Coords, u64)> = Vec::with_capacity(4);
    if t.north_passable && p.y > 0 {
        let n = Coords { x: p.x, y: p.y - 1 };
        proof { lemma_push_contains(out@, (n, 1u64)); }
        out.push((n, 1));
    }
    if t.east_passable && p.x < hi {
        let e = Coords { x: p.x + 1, y: p.y };
        proof { lemma_push_contains(out@, (e, 1u64)); }
        out.push((e, 1));
    }
    if t.south_passable && p.y < hi {
        let so = Coords { x: p.x, y: p.y + 1 };
        proof { lemma_push_contains(out@, (so, 1u64)); }
        out.push((so, 1));
    }
    if t.west_passable && p.x > 0 {
        let w = Coords { x: p.x - 1, y: p.y };
        proof { lemma_push_contains(out@, (w, 1u64)); }
        out.push((w, 1));
    }
    proof {
        assert forall|b: Coords| step_ok(d.tiles@, goal, p, b) <==> out@.contains((b, 1u64)) by {
            if out@.contains((b, 1u64)) {
                let i = choose|i: int| 0 <= i < out@.len() && out@[i] == (b, 1u64);
            }
        }
    }
    out
}

/// The heuristic of a search for `goal`: the grid distance to the goal
/// position, or nothing when any unvisited tile will do.
pub fn search_estimate(p: Coords, goal: SearchGoal) -> (r: u64)
    ensures
        r == match goal {
            SearchGoal::Reach(t) => manhattan(p, t),
            SearchGoal::Unvisited => 0,
        },
{
    match goal {
        SearchGoal::Reach(t) => {
            let dx: u64 = if p.x >= t.x { (p.x - t.x) as u64 } else { (t.x - p.x) as u64 };
            let dy: u64 = if p.y >= t.y { (p.y - t.y) as u64 } else { (t.y - p.y) as u64 };
            dx + dy
        },
        SearchGoal::Unvisited => 0,
    }
}

/// Whether `p` ends a search for `goal`.
pub fn search_done(d: &Dungeon, p: Coords, goal: SearchGoal) -> (r: bool)
    ensures
        r == at_goal(d.tiles@, goal, p),
{
    match goal {
        SearchGoal::Reach(t) => p == t,
        SearchGoal::Unvisited => !d.get_tile(p.x, p.y).visited,
    }
}

/// The route that the A* search of `pathfinding` returns on the map `tiles`
/// from `start` for `goal`, both ends included, or `None` when it finds none.
/// The search depends on these values alone; which of several equally short
/// routes it returns is left to it.
pub uninterp spec fn astar_path(tiles: Seq<Tile>, goal: SearchGoal, start: Coords) -> Option<Seq<Coords>>;

/// Relies on `pathfinding::directed::astar::astar`: it returns a path of least
/// total cost from `start` to a node that passes the goal test, both ends
/// included, or `None` when no such node can be reached. Every step costs 1
/// and the heuristic (grid distance, or 0) never overestimates, so least cost
/// is fewest steps. The search is deterministic: its successors, heuristic and
/// goal test read only the recorded tiles, and its node map uses a fixed
/// hasher. It ends: a search for a position never leaves the box from the
/// origin to the larger of the start's coordinates and the playfield's bound,
/// and a search for an unvisited tile that leaves the recorded tiles has
/// found one.
#[verifier::external_body]
fn astar_walk(d: &Dungeon, start: Coords, goal: SearchGoal) -> (r: Option<Vec<Coords>>)
    ensures
        match r {
            Some(p) => shortest_walk(d.tiles@, goal, start, p@) && astar_path(d.tiles@, goal, start) == Some(p@),
            None => !goal_reachable(d.tiles@, goal, start) && astar_path(d.tiles@, goal, start).is_none(),
        },
{
    pathfinding::prelude::astar(
        &start,
        |p| search_successors(d, *p, goal),
        |p| search_estimate(*p, goal),
        |p| search_done(d, *p, goal),
    ).map(|(path, _)| path)
}

/// Whether every recorded tile has all four edges open.
pub open spec fn fully_open(tiles: Seq<Tile>) -> bool {
    forall|i: int|
        0 <= i < tiles.len() ==> (#[trigger] tiles[i]).north_passable && tiles[i].east_passable
            && tiles[i].south_passable && tiles[i].west_passable
}

/// Whether `c` lies within the playfield.
pub open spec fn in_playfield(c: Coords) -> bool {
    c.x <= PLAYFIELD_MAX && c.y <= PLAYFIELD_MAX
}

/// A walk from `a` to `b` that first fixes the column, then the row.
pub open spec fn straight_walk(a: Coords, b: Coords) -> Seq<Coords>
    decreases manhattan(a, b),
{
    if a.x < b.x {
        seq![a] + straight_walk(Coords { x: (a.x + 1) as u32, y: a.y }, b)
    } else if a.x > b.x {
        seq![a] + straight_walk(Coords { x: (a.x - 1) as u32, y: a.y }, b)
    } else if a.y < b.y {
        seq![a] + straight_walk(Coords { x: a.x, y: (a.y + 1) as u32 }, b)
    } else if a.y > b.y {
        seq![a] + straight_walk(Coords { x: a.x, y: (a.y - 1) as u32 }, b)
    } else {
        seq![a]
    }
}

proof fn lemma_open_tile_at(tiles: Seq<Tile>, c: Coords)
    requires
        fully_open(tiles),
    ensures
        tile_at(tiles, c).north_passable && tile_at(tiles, c).east_passable
            && tile_at(tiles, c).south_passable && tile_at(tiles, c).west_passable,
{
    if exists|i: int| crate::dungeon::first_at(tiles, c, i) {
        let i = choose|i: int| crate::dungeon::first_at(tiles, c, i);
        assert(tiles[i].north_passable);
    }
}

proof fn lemma_straight_walk(tiles: Seq<Tile>, a: Coords, b: Coords)
    requires
        fully_open(tiles),
        in_playfield(a),
        in_playfield(b),
    ensures
        walk_to_goal(tiles, SearchGoal::Reach(b), a, straight_walk(a, b)),
        straight_walk(a, b).len() == manhattan(a, b) + 1,
    decreases manhattan(a, b),
{
    let w = straight_walk(a, b);
    let g = SearchGoal::Reach(b);
    if a == b {
        assert(w =~= seq![a]);
    } else {
        let next = if a.x < b.x {
            Coords { x: (a.x + 1) as u32, y: a.y }
        } else if a.x > b.x {
            Coords { x: (a.x - 1) as u32, y: a.y }
        } else if a.y < b.y {
            Coords { x: a.x, y: (a.y + 1) as u32 }
        } else {
            Coords { x: a.x, y: (a.y - 1) as u32 }
        };
        lemma_straight_walk(tiles, next, b);
        let rest = straight_walk(next, b);
        assert(w == seq![a] + rest);
        lemma_open_tile_at(tiles, a);
        assert(step_ok(tiles, g, a, next));
        assert forall|i: int| 0 <= i < w.len() - 1 implies step_ok(tiles, g, #[trigger] w[i], w[i + 1]) by {
            if i > 0 {
                assert(w[i] == rest[i - 1]);
                assert(w[i + 1] == rest[i]);
            }
        }
    }
}

/// Every step of a walk changes the grid distance to a fixed position by at
/// most one, so a walk has at least as many steps as the distance between its
/// ends.
pub proof fn lemma_walk_at_least_distance(tiles: Seq<Tile>, g: SearchGoal, p: Seq<Coords>)
    requires
        is_walk(tiles, g, p),
    ensures
        manhattan(p[0], p.last()) + 1 <= p.len(),
    decreases p.len(),
{
    if p.len() > 1 {
        let q = p.drop_first();
        assert forall|i: int| 0 <= i < q.len() - 1 implies step_ok(tiles, g, #[trigger] q[i], q[i + 1]) by {
            assert(step_ok(tiles, g, p[i + 1], p[i + 2]));
        }
        lemma_walk_at_least_distance(tiles, g, q);
        assert(step_ok(tiles, g, p[0], p[1]));
        assert(q.last() == p.last());
    }
}

/// On a playfield without walls, a shortest route between two of its
/// positions has exactly as many steps as their grid distance.
pub proof fn lemma_open_grid_route_length(tiles: Seq<Tile>, a: Coords, b: Coords, p: Seq<Coords>)
    requires
        fully_open(tiles),
        in_playfield(a),
        in_playfield(b),
        shortest_walk(tiles, SearchGoal::Reach(b), a, p),
    ensures
        p.len() == manhattan(a, b) + 1,
{
    lemma_straight_walk(tiles, a, b);
    lemma_walk_at_least_distance(tiles, SearchGoal::Reach(b), p);
}

impl Dungeon {
    /// A shortest route within the playfield from `from` to `to`, both ends
    /// included, or `None` when the known walls close every route.
    pub fn shortest_route(&self, from: Coords, to: Coords) -> (r: Option<Vec<Coords>>)
        ensures
            match r {
                Some(p) => shortest_walk(self.tiles@, SearchGoal::Reach(to), from, p@)
                    && astar_path(self.tiles@, SearchGoal::Reach(to), from) == Some(p@),
                None => !goal_reachable(self.tiles@, SearchGoal::Reach(to), from)
                    && astar_path(self.tiles@, SearchGoal::Reach(to), from).is_none(),
            },
    {
        astar_walk(self, from, SearchGoal::Reach(to))
    }

    /// The next tile on a shortest route from `current_tile` to `goal`; the
    /// current tile itself when it is the goal.
    pub fn get_next_tile_to_goal(&self, current_tile: Tile, goal: Tile) -> (r: Option<Tile>)
        ensures
            current_tile.position == goal.position ==> r == Some(current_tile),
            current_tile.position != goal.position ==> (r.is_some() <==> goal_reachable(
                self.tiles@,
                SearchGoal::Reach(goal.position),
                current_tile.position,
            )),
            current_tile.position != goal.position ==> r == match astar_path(
                self.tiles@,
                SearchGoal::Reach(goal.position),
                current_tile.position,
            ) {
                Some(p) => Some(tile_at(self.tiles@, p[1])),
                None => None,
            },
            current_tile.position != goal.position ==> (astar_path(
                self.tiles@,
                SearchGoal::Reach(goal.position),
                current_tile.position,
            ) matches Some(p) ==> shortest_walk(self.tiles@, SearchGoal::Reach(goal.position), current_tile.position, p)),
    {
        if current_tile.position == goal.position {
            return Some(current_tile);
        }
        match self.shortest_route(current_tile.position, goal.position) {
            Some(path) => {
                assert(path@.len() >= 2) by {
                    if path@.len() == 1 {
                        assert(path@[0] == path@.last());
                    }
                }
                let pos = path[1];
                let r = self.get_tile(pos.x, pos.y);
                assert(shortest_walk(self.tiles@, SearchGoal::Reach(goal.position), current_tile.position, path@));
                Some(r)
            },
            None => None,
        }
    }

    /// The unvisited tile nearest to `current_tile` by walking, found without
    /// bounds on the grid; `None` when every reachable tile is visited.
    pub fn get_closest_unvisited_tile(&self, current_tile: Tile) -> (r: Option<Tile>)
        ensures
            r.is_none() <==> all_reachable_visited(self.tiles@, current_tile.position),
            r == match astar_path(self.tiles@, SearchGoal::Unvisited, current_tile.position) {
                Some(p) => Some(tile_at(self.tiles@, p.last())),
                None => None,
            },
            astar_path(self.tiles@, SearchGoal::Unvisited, current_tile.position) matches Some(p)
                ==> shortest_walk(self.tiles@, SearchGoal::Unvisited, current_tile.position, p),
    {
        match astar_walk(self, current_tile.position, SearchGoal::Unvisited) {
            Some(path) => {
                let pos = path[path.len() - 1];
                let r = self.get_tile(pos.x, pos.y);
                proof {
                    let p = path@;
                    assert(shortest_walk(self.tiles@, SearchGoal::Unvisited, current_tile.position, p));
                    assert(!all_reachable_visited(self.tiles@, current_tile.position));
                }
                Some(r)
            },
            None => {
                proof {
                    assert forall|p: Seq<Coords>|
                        is_walk(self.tiles@, SearchGoal::Unvisited, p) && p[0] == current_tile.position
                        implies tile_at(self.tiles@, p.last()).visited by {
                        if !tile_at(self.tiles@, p.last()).visited {
                            assert(walk_to_goal(self.tiles@, SearchGoal::Unvisited, current_tile.position, p));
                        }
                    }
                }
                None
            },
        }
    }
}

} // verus!
