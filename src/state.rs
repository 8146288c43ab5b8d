use vstd::prelude::*;
use crate::coords::Coords;
use crate::dungeon::{Dungeon, DungeonState, Tile, city_of, first_at, go_down_of, positions_unique, tile_at};

verus! {

/// The screen the game shows.
#[derive(Debug, Copy, Clone, PartialEq, Eq, Structural)]
pub enum StateType {
    Ad,
    Main,
    /// In town; the flag says whether a party member is dead.
    City(bool),
    Dungeon,
    TeleportToCity,
}

/// Why a screen could not be classified.
#[derive(Debug, Copy, Clone, PartialEq, Eq, Structural)]
pub enum StateError {
    UnknownState,
}

/// The classified screen together with the dungeon map kept across screens.
#[derive(Debug, Clone)]
pub struct State {
    pub state_type: StateType,
    pub dungeon: Dungeon,
}

/// Folds the old tile `t` into `tiles`: a tile at the same position takes over
/// its visited flag, and its city and staircase-down flags where `keep_city` or
/// `keep_down` say the new map found none of its own; a tile at a position
/// without one is appended, with those flags kept only on the same terms.
pub open spec fn merge_step(tiles: Seq<Tile>, t: Tile, keep_city: bool, keep_down: bool) -> Seq<Tile> {
    if exists|i: int| first_at(tiles, t.position, i) {
        let i = choose|i: int| first_at(tiles, t.position, i);
        let n = tiles[i];
        tiles.update(
            i,
            Tile {
                is_city: if keep_city { t.is_city || n.is_city } else { n.is_city },
                is_go_down: if keep_down { t.is_go_down || n.is_go_down } else { n.is_go_down },
                visited: t.visited || n.visited,
                ..n
            },
        )
    } else {
        tiles.push(Tile { is_city: keep_city && t.is_city, is_go_down: keep_down && t.is_go_down, ..t })
    }
}

/// `new` with the tiles of `old` folded in one after the other.
pub open spec fn merged_tiles(new: Seq<Tile>, old: Seq<Tile>, keep_city: bool, keep_down: bool) -> Seq<Tile>
    decreases old.len(),
{
    if old.len() == 0 {
        new
    } else {
        merge_step(merged_tiles(new, old.drop_last(), keep_city, keep_down), old.last(), keep_city, keep_down)
    }
}

/// The tiles of a fresh map `new` once the previous map's tiles `old` are
/// folded in: old markers count only where the fresh map has none.
pub open spec fn merge_into(new: Seq<Tile>, old: Seq<Tile>) -> Seq<Tile> {
    merged_tiles(new, old, city_of(new).is_none(), go_down_of(new).is_none())
}

proof fn lemma_merged_prefix(s: Seq<Tile>, k: int, keep_city: bool, keep_down: bool)
    requires
        positions_unique(s),
        0 <= k <= s.len(),
    ensures
        merged_tiles(s, s.take(k), keep_city, keep_down) == s,
    decreases k,
{
    if k > 0 {
        let pre = s.take(k);
        assert(pre.drop_last() =~= s.take(k - 1));
        lemma_merged_prefix(s, k - 1, keep_city, keep_down);
        let t = s[k - 1];
        assert(pre.last() == t);
        assert(first_at(s, t.position, k - 1));
        let i = choose|i: int| first_at(s, t.position, i);
        assert(i == k - 1);
        assert(s.update(k - 1, t) =~= s);
    }
}

/// Merging a map whose positions are all distinct with itself gives the same
/// map back.
pub proof fn lemma_merge_idempotent(tiles: Seq<Tile>)
    requires
        positions_unique(tiles),
    ensures
        merge_into(tiles, tiles) == tiles,
{
    lemma_merged_prefix(tiles, tiles.len() as int, city_of(tiles).is_none(), go_down_of(tiles).is_none());
    assert(tiles.take(tiles.len() as int) =~= tiles);
}

proof fn lemma_first_exists(s: Seq<Tile>, c: Coords, i: int)
    requires
        0 <= i < s.len(),
        s[i].position == c,
    ensures
        exists|j: int| first_at(s, c, j),
    decreases i,
{
    if forall|j: int| 0 <= j < i ==> (#[trigger] s[j]).position != c {
        assert(first_at(s, c, i));
    } else {
        let j = choose|j: int| 0 <= j < i && (#[trigger] s[j]).position == c;
        lemma_first_exists(s, c, j);
    }
}

proof fn lemma_first_unique(s: Seq<Tile>, c: Coords, i: int, j: int)
    requires
        first_at(s, c, i),
        first_at(s, c, j),
    ensures
        i == j,
{
    if i < j {
        assert(s[i].position != c);
    } else if j < i {
        assert(s[j].position != c);
    }
}

proof fn lemma_step_keeps_visited(prev: Seq<Tile>, t: Tile, keep_city: bool, keep_down: bool, c: Coords)
    ensures
        tile_at(prev, c).visited ==> tile_at(merge_step(prev, t, keep_city, keep_down), c).visited,
        t.visited ==> tile_at(merge_step(prev, t, keep_city, keep_down), t.position).visited,
{
    let res = merge_step(prev, t, keep_city, keep_down);
    if exists|i: int| first_at(prev, t.position, i) {
        let i = choose|i: int| first_at(prev, t.position, i);
        assert(res.len() == prev.len());
        assert forall|k: int| 0 <= k < prev.len() implies (#[trigger] res[k]).position == prev[k].position by {}
        assert forall|d: Coords, j: int| first_at(prev, d, j) <==> first_at(res, d, j) by {
            if first_at(prev, d, j) {
                assert forall|m: int| 0 <= m < j implies (#[trigger] res[m]).position != d by {
                    assert(prev[m].position != d);
                }
            }
            if first_at(res, d, j) {
                assert forall|m: int| 0 <= m < j implies (#[trigger] prev[m]).position != d by {
                    assert(res[m].position != d);
                }
            }
        }
        if exists|j: int| first_at(prev, c, j) {
            let j = choose|j: int| first_at(prev, c, j);
            let j2 = choose|j2: int| first_at(res, c, j2);
            lemma_first_unique(res, c, j, j2);
        }
        assert(first_at(res, t.position, i));
        let j3 = choose|j3: int| first_at(res, t.position, j3);
        lemma_first_unique(res, t.position, i, j3);
    } else {
        assert forall|k: int| 0 <= k < prev.len() implies (#[trigger] prev[k]).position != t.position by {
            if prev[k].position == t.position {
                lemma_first_exists(prev, t.position, k);
            }
        }
        let n = prev.len() as int;
        assert(res[n].position == t.position);
        assert(first_at(res, t.position, n));
        let j3 = choose|j3: int| first_at(res, t.position, j3);
        lemma_first_unique(res, t.position, n, j3);
        if c != t.position && exists|j: int| first_at(prev, c, j) {
            let j = choose|j: int| first_at(prev, c, j);
            assert(first_at(res, c, j));
            let j2 = choose|j2: int| first_at(res, c, j2);
            lemma_first_unique(res, c, j, j2);
        }
    }
}

proof fn lemma_merged_keeps_visited(new: Seq<Tile>, old: Seq<Tile>, keep_city: bool, keep_down: bool, c: Coords)
    ensures
        (tile_at(new, c).visited || exists|j: int| 0 <= j < old.len() && (#[trigger] old[j]).position == c && old[j].visited)
            ==> tile_at(merged_tiles(new, old, keep_city, keep_down), c).visited,
    decreases old.len(),
{
    if old.len() > 0 {
        let rest = old.drop_last();
        let prev = merged_tiles(new, rest, keep_city, keep_down);
        lemma_merged_keeps_visited(new, rest, keep_city, keep_down, c);
        lemma_step_keeps_visited(prev, old.last(), keep_city, keep_down, c);
        if exists|j: int| 0 <= j < old.len() && (#[trigger] old[j]).position == c && old[j].visited {
            let j = choose|j: int| 0 <= j < old.len() && (#[trigger] old[j]).position == c && old[j].visited;
            if j < old.len() - 1 {
                assert(rest[j] == old[j]);
            }
        }
    }
}

proof fn lemma_step_unique(prev: Seq<Tile>, t: Tile, keep_city: bool, keep_down: bool)
    requires
        positions_unique(prev),
    ensures
        positions_unique(merge_step(prev, t, keep_city, keep_down)),
{
    let res = merge_step(prev, t, keep_city, keep_down);
    if exists|i: int| first_at(prev, t.position, i) {
        assert forall|k: int| 0 <= k < prev.len() implies (#[trigger] res[k]).position == prev[k].position by {}
        assert forall|i: int, j: int| 0 <= i < res.len() && 0 <= j < res.len() && i != j implies (#[trigger] res[i]).position
            != (#[trigger] res[j]).position by {
            assert(res[i].position == prev[i].position);
            assert(res[j].position == prev[j].position);
        }
    } else {
        assert forall|k: int| 0 <= k < prev.len() implies (#[trigger] prev[k]).position != t.position by {
            if prev[k].position == t.position {
                lemma_first_exists(prev, t.position, k);
            }
        }
        assert forall|i: int, j: int| 0 <= i < res.len() && 0 <= j < res.len() && i != j implies (#[trigger] res[i]).position
            != (#[trigger] res[j]).position by {
            if i < prev.len() && j < prev.len() {
                assert(res[i] == prev[i] && res[j] == prev[j]);
            } else if i < prev.len() {
                assert(res[i] == prev[i]);
            } else if j < prev.len() {
                assert(res[j] == prev[j]);
            }
        }
    }
}

proof fn lemma_merged_unique(new: Seq<Tile>, old: Seq<Tile>, keep_city: bool, keep_down: bool)
    requires
        positions_unique(new),
    ensures
        positions_unique(merged_tiles(new, old, keep_city, keep_down)),
    decreases old.len(),
{
    if old.len() > 0 {
        lemma_merged_unique(new, old.drop_last(), keep_city, keep_down);
        lemma_step_unique(merged_tiles(new, old.drop_last(), keep_city, keep_down), old.last(), keep_city, keep_down);
    }
}

/// Folding any map into one whose positions are distinct keeps them distinct.
pub proof fn lemma_merge_unique(new: Seq<Tile>, old: Seq<Tile>)
    requires
        positions_unique(new),
    ensures
        positions_unique(merge_into(new, old)),
{
    lemma_merged_unique(new, old, city_of(new).is_none(), go_down_of(new).is_none());
}

/// A tile that was visited in either map is visited after the merge.
pub proof fn lemma_merge_keeps_visited(new: Seq<Tile>, old: Seq<Tile>, c: Coords)
    requires
        tile_at(new, c).visited || exists|j: int| 0 <= j < old.len() && (#[trigger] old[j]).position == c && old[j].visited,
    ensures
        tile_at(merge_into(new, old), c).visited,
{
    lemma_merged_keeps_visited(new, old, city_of(new).is_none(), go_down_of(new).is_none(), c);
}

/// The first index of `tiles` at position `c`.
fn find_position(tiles: &Vec<Tile>, c: Coords) -> (r: Option<usize>)
    ensures
        match r {
            Some(i) => first_at(tiles@, c, i as int),
            None => !exists|i: int| first_at(tiles@, c, i),
        },
{
    let mut i: usize = 0;
    while i < tiles.len()
        invariant
            0 <= i <= tiles@.len(),
            forall|j: int| 0 <= j < i ==> (#[trigger] tiles@[j]).position != c,
        decreases tiles@.len() - i,
    {
        if tiles[i].position == c {
            return Some(i);
        }
        i = i + 1;
    }
    None
}

impl Default for State {
    /// The main menu with an empty map.
    fn default() -> (r: Self)
        ensures
            r.state_type == StateType::Main,
            r.dungeon.state == DungeonState::Idle(false),
            r.dungeon.info.coordinates.is_none(),
            r.dungeon.tiles@ == Seq::<Tile>::empty(),
    {
        State { state_type: StateType::Main, dungeon: Dungeon::empty() }
    }
}

impl State {
    pub fn new(state_type: StateType, dungeon: Dungeon) -> (r: Self)
        ensures
            r.state_type == state_type,
            r.dungeon == dungeon,
    {
        State { state_type, dungeon }
    }

    pub fn get_position(&self) -> (r: Option<Coords>)
        ensures
            r == self.dungeon.info.coordinates,
    {
        self.dungeon.info.coordinates
    }

    pub fn set_position(&mut self, new_position: Coords)
        ensures
            final(self).dungeon.info.coordinates == Some(new_position),
            final(self).dungeon.info.floor == old(self).dungeon.info.floor,
            final(self).dungeon.state == old(self).dungeon.state,
            final(self).dungeon.characters == old(self).dungeon.characters,
            final(self).dungeon.tiles == old(self).dungeon.tiles,
            final(self).state_type == old(self).state_type,
    {
        self.dungeon.info.coordinates = Some(new_position);
    }

    /// A copy of this state.
    pub fn duplicate(&self) -> (r: Self)
        ensures
            r.state_type == self.state_type,
            r.dungeon.state == self.dungeon.state,
            r.dungeon.characters == self.dungeon.characters,
            r.dungeon.info == self.dungeon.info,
            r.dungeon.tiles@ == self.dungeon.tiles@,
    {
        State { state_type: self.state_type, dungeon: self.dungeon.duplicate() }
    }

    /// Folds the previous screen's map into this one, so that tiles out of
    /// view are remembered, and returns a copy of the result.
    pub fn merge(&mut self, previous: State) -> (r: State)
        ensures
            final(self).dungeon.tiles@ == merge_into(old(self).dungeon.tiles@, previous.dungeon.tiles@),
            final(self).state_type == old(self).state_type,
            final(self).dungeon.state == old(self).dungeon.state,
            final(self).dungeon.characters == old(self).dungeon.characters,
            final(self).dungeon.info == old(self).dungeon.info,
            r.state_type == final(self).state_type,
            r.dungeon.state == final(self).dungeon.state,
            r.dungeon.characters == final(self).dungeon.characters,
            r.dungeon.info == final(self).dungeon.info,
            r.dungeon.tiles@ == final(self).dungeon.tiles@,
    {
        let keep_city = self.dungeon.get_city_tile().is_none();
        let keep_down = self.dungeon.get_go_down_tile().is_none();
        let ghost new_tiles = self.dungeon.tiles@;
        let old_tiles = previous.dungeon.tiles;
        let n = old_tiles.len();
        let mut k: usize = 0;
        while k < n
            invariant
                0 <= k <= n,
                n == old_tiles@.len(),
                old_tiles@ == previous.dungeon.tiles@,
                keep_city == city_of(new_tiles).is_none(),
                keep_down == go_down_of(new_tiles).is_none(),
                new_tiles == old(self).dungeon.tiles@,
                self.dungeon.tiles@ == merged_tiles(new_tiles, old_tiles@.take(k as int), keep_city, keep_down),
                self.state_type == old(self).state_type,
                self.dungeon.state == old(self).dungeon.state,
                self.dungeon.characters == old(self).dungeon.characters,
                self.dungeon.info == old(self).dungeon.info,
            decreases n - k,
        {
            let t = old_tiles[k];
            proof {
                let pre = old_tiles@.take(k as int + 1);
                assert(pre.drop_last() =~= old_tiles@.take(k as int));
                assert(pre.last() == t);
            }
            match find_position(&self.dungeon.tiles, t.position) {
                Some(i) => {
                    let cur = self.dungeon.tiles[i];
                    let updated = Tile {
                        is_city: if keep_city { t.is_city || cur.is_city } else { cur.is_city },
                        is_go_down: if keep_down { t.is_go_down || cur.is_go_down } else { cur.is_go_down },
                        visited: t.visited || cur.visited,
                        ..cur
                    };
                    proof {
                        let c = choose|c: int| first_at(self.dungeon.tiles@, t.position, c);
                        assert(c == i as int);
                    }
                    self.dungeon.tiles.set(i, updated);
                },
                None => {
                    let added = Tile {
                        is_city: keep_city && t.is_city,
                        is_go_down: keep_down && t.is_go_down,
                        ..t
                    };
                    self.dungeon.tiles.push(added);
                },
            }
            k = k + 1;
        }
        assert(old_tiles@.take(n as int) =~= old_tiles@);
        self.duplicate()
    }
}

} // verus!
