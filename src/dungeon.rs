use vstd::prelude::*;
use crate::bitmap::{Bitmap, DungeonInfo};
use crate::coords::{Coords, MoveDirection};
use crate::sampling::{character_health, character_row, get_characters, get_tiles, lemma_window_unique, window_base, window_tiles};

verus! {

/// How healthy a party member or an enemy looks on screen.
#[derive(Debug, Copy, Clone, PartialEq, Eq, Structural)]
pub enum Health {
    Unknown,
    Dead,
    Low,
    Hurt,
    Healthy,
}

/// A party member.
#[derive(Debug, Copy, Clone, PartialEq, Eq, Structural)]
pub struct Character {
    pub health: Health,
}

impl Character {
    pub fn new(health: Health) -> (r: Self)
        ensures
            r.health == health,
    {
        Character { health }
    }

    pub fn is_dead(&self) -> (r: bool)
        ensures
            r == (self.health == Health::Dead),
    {
        if let Health::Dead = self.health {
            true
        } else {
            false
        }
    }
}

impl Default for Character {
    fn default() -> (r: Self)
        ensures
            r.health == Health::Unknown,
    {
        Character { health: Health::Unknown }
    }
}

/// The enemy of a fight.
#[derive(Debug, Copy, Clone, PartialEq, Eq, Structural)]
pub struct Enemy {
    pub health: Health,
}

/// What the party is doing inside the dungeon.
#[derive(Debug, Copy, Clone, PartialEq, Eq, Structural)]
pub enum DungeonState {
    /// Standing still; the flag says whether the party stands on the city tile.
    Idle(bool),
    IdleChest,
    Fight(Enemy),
}

/// One square of the dungeon map.
#[derive(Debug, Copy, Clone, PartialEq, Eq, Structural)]
pub struct Tile {
    pub explored: bool,
    pub trap: bool,
    pub is_city: bool,
    pub is_go_down: bool,
    pub visited: bool,
    pub position: Coords,
    pub north_passable: bool,
    pub east_passable: bool,
    pub south_passable: bool,
    pub west_passable: bool,
}

/// The tile assumed at a position that was never sampled: unexplored, with
/// every edge open.
pub open spec fn open_tile(c: Coords) -> Tile {
    Tile {
        explored: false,
        trap: false,
        is_city: false,
        is_go_down: false,
        visited: false,
        position: c,
        north_passable: true,
        east_passable: true,
        south_passable: true,
        west_passable: true,
    }
}

/// Whether `i` is the first index of `tiles` at position `c`.
pub open spec fn first_at(tiles: Seq<Tile>, c: Coords, i: int) -> bool {
    &&& 0 <= i < tiles.len()
    &&& tiles[i].position == c
    &&& forall|j: int| 0 <= j < i ==> (#[trigger] tiles[j]).position != c
}

/// The tile known at position `c`: the first one recorded there, or an open
/// tile when none is.
pub open spec fn tile_at(tiles: Seq<Tile>, c: Coords) -> Tile {
    if exists|i: int| first_at(tiles, c, i) {
        tiles[choose|i: int| first_at(tiles, c, i)]
    } else {
        open_tile(c)
    }
}

/// Whether `i` is the first index of a city tile in `tiles`.
pub open spec fn first_city_at(tiles: Seq<Tile>, i: int) -> bool {
    &&& 0 <= i < tiles.len()
    &&& tiles[i].is_city
    &&& forall|j: int| 0 <= j < i ==> !(#[trigger] tiles[j]).is_city
}

/// The first city tile of `tiles`, if any.
pub open spec fn city_of(tiles: Seq<Tile>) -> Option<Tile> {
    if exists|i: int| first_city_at(tiles, i) {
        Some(tiles[choose|i: int| first_city_at(tiles, i)])
    } else {
        None
    }
}

/// Whether `i` is the first index of a staircase-down tile in `tiles`.
pub open spec fn first_go_down_at(tiles: Seq<Tile>, i: int) -> bool {
    &&& 0 <= i < tiles.len()
    &&& tiles[i].is_go_down
    &&& forall|j: int| 0 <= j < i ==> !(#[trigger] tiles[j]).is_go_down
}

/// The first staircase-down tile of `tiles`, if any.
pub open spec fn go_down_of(tiles: Seq<Tile>) -> Option<Tile> {
    if exists|i: int| first_go_down_at(tiles, i) {
        Some(tiles[choose|i: int| first_go_down_at(tiles, i)])
    } else {
        None
    }
}

/// The direction of a step from `other` to `t`: south or north when the two
/// share a column, else west or east.
pub open spec fn direction_between(t: Tile, other: Tile) -> MoveDirection {
    if t.position.x == other.position.x {
        if t.position.y > other.position.y {
            MoveDirection::South
        } else {
            MoveDirection::North
        }
    } else if t.position.x < other.position.x {
        MoveDirection::West
    } else {
        MoveDirection::East
    }
}

impl Tile {
    /// A tile with the given flags; it is not a trap.
    pub fn new(
        position: Coords,
        explored: bool,
        visited: bool,
        is_city: bool,
        is_go_down: bool,
        north_passable: bool,
        east_passable: bool,
        south_passable: bool,
        west_passable: bool,
    ) -> (r: Self)
        ensures
            r == (Tile {
                explored,
                trap: false,
                is_city,
                is_go_down,
                visited,
                position,
                north_passable,
                east_passable,
                south_passable,
                west_passable,
            }),
    {
        Tile {
            explored,
            trap: false,
            is_city,
            is_go_down,
            visited,
            position,
            north_passable,
            east_passable,
            south_passable,
            west_passable,
        }
    }

    /// The direction in which one steps from `other` onto this tile.
    pub fn direction_from(&self, other: Tile) -> (r: MoveDirection)
        ensures
            r == direction_between(*self, other),
    {
        if self.position.x == other.position.x {
            if self.position.y > other.position.y {
                MoveDirection::South
            } else {
                MoveDirection::North
            }
        } else if self.position.x < other.position.x {
            MoveDirection::West
        } else {
            MoveDirection::East
        }
    }

    pub fn get_position(&self) -> (r: Coords)
        ensures
            r == self.position,
    {
        self.position
    }
}


/// The incrementally built map of one dungeon floor together with the party's
/// condition and the last known position.
#[derive(Debug, Clone)]
pub struct Dungeon {
    pub state: DungeonState,
    pub characters: [Character; 4],
    pub info: DungeonInfo,
    pub tiles: Vec<Tile>,
}

impl Default for Dungeon {
    fn default() -> (r: Self)
        ensures
            r.state == DungeonState::Idle(false),
            forall|i: int| 0 <= i < 4 ==> (#[trigger] r.characters@[i]).health == Health::Unknown,
            r.info.floor@.len() == 0,
            r.info.coordinates.is_none(),
            r.tiles@ == Seq::<Tile>::empty(),
    {
        Dungeon::empty()
    }
}

/// Whether a party member has the given health.
pub open spec fn any_health(chars: [Character; 4], h: Health) -> bool {
    exists|i: int| 0 <= i < 4 && (#[trigger] chars@[i]).health == h
}

/// Whether `tiles` holds at most one tile at each position.
pub open spec fn positions_unique(tiles: Seq<Tile>) -> bool {
    forall|i: int, j: int|
        0 <= i < tiles.len() && 0 <= j < tiles.len() && i != j ==> (#[trigger] tiles[i]).position
            != (#[trigger] tiles[j]).position
}

/// `t` with its visited flag set to `v`.
pub open spec fn with_visited(t: Tile, v: bool) -> Tile {
    Tile { visited: v, ..t }
}

/// `tiles` with every tile at position `c` marked visited.
pub open spec fn visit_tiles(tiles: Seq<Tile>, c: Coords) -> Seq<Tile> {
    Seq::new(tiles.len(), |i: int| if tiles[i].position == c { with_visited(tiles[i], true) } else { tiles[i] })
}

/// What a dungeon built from `image` records of the floor and the position:
/// the screen's readout when it gave a position, else its floor with
/// `fallback` as the position.
pub open spec fn resolved_info(image: Bitmap, fallback: Option<Coords>) -> DungeonInfo {
    if image.info.coordinates.is_some() {
        image.info
    } else {
        DungeonInfo { floor: image.info.floor, coordinates: fallback }
    }
}

/// Whether a step from `t` in direction `d` is open and stays on the grid.
pub open spec fn exit_open(t: Tile, d: MoveDirection) -> bool {
    match d {
        MoveDirection::North => t.north_passable && t.position.y > 0,
        MoveDirection::East => t.east_passable && t.position.x < u32::MAX,
        MoveDirection::South => t.south_passable && t.position.y < u32::MAX,
        MoveDirection::West => t.west_passable && t.position.x > 0,
    }
}

/// Whether an open exit of `t` leads to a tile that is not explored.
pub open spec fn unexplored_neighbour(tiles: Seq<Tile>, t: Tile) -> bool {
    ||| exit_open(t, MoveDirection::North) && !tile_at(tiles, crate::coords::moved(t.position, MoveDirection::North)).explored
    ||| exit_open(t, MoveDirection::South) && !tile_at(tiles, crate::coords::moved(t.position, MoveDirection::South)).explored
    ||| exit_open(t, MoveDirection::East) && !tile_at(tiles, crate::coords::moved(t.position, MoveDirection::East)).explored
    ||| exit_open(t, MoveDirection::West) && !tile_at(tiles, crate::coords::moved(t.position, MoveDirection::West)).explored
}

impl Dungeon {
    /// A dungeon with the given parts.
    pub fn from_parts(state: DungeonState, characters: [Character; 4], info: DungeonInfo, tiles: Vec<Tile>) -> (r: Self)
        ensures
            r.state == state,
            r.characters == characters,
            r.info == info,
            r.tiles@ == tiles@,
    {
        Dungeon { state, characters, info, tiles }
    }

    /// An empty map: idle, nothing known of the party, position unknown.
    pub fn empty() -> (r: Self)
        ensures
            r.state == DungeonState::Idle(false),
            forall|i: int| 0 <= i < 4 ==> (#[trigger] r.characters@[i]).health == Health::Unknown,
            r.info.floor@.len() == 0,
            r.info.coordinates.is_none(),
            r.tiles@ == Seq::<Tile>::empty(),
    {
        let c = Character { health: Health::Unknown };
        let d = Dungeon {
            state: DungeonState::Idle(false),
            characters: [c, c, c, c],
            info: DungeonInfo { floor: String::new(), coordinates: None },
            tiles: Vec::new(),
        };
        assert(d.tiles@ =~= Seq::<Tile>::empty());
        d
    }

    pub fn has_low_character(&self) -> (r: bool)
        ensures
            r == any_health(self.characters, Health::Low),
    {
        let mut i: usize = 0;
        while i < 4
            invariant
                0 <= i <= 4,
                forall|j: int| 0 <= j < i ==> (#[trigger] self.characters@[j]).health != Health::Low,
            decreases 4 - i,
        {
            if self.characters[i].health == Health::Low {
                return true;
            }
            i = i + 1;
        }
        false
    }

    pub fn has_dead_character(&self) -> (r: bool)
        ensures
            r == any_health(self.characters, Health::Dead),
    {
        let mut i: usize = 0;
        while i < 4
            invariant
                0 <= i <= 4,
                forall|j: int| 0 <= j < i ==> (#[trigger] self.characters@[j]).health != Health::Dead,
            decreases 4 - i,
        {
            if self.characters[i].is_dead() {
                return true;
            }
            i = i + 1;
        }
        false
    }

    /// The tile at `(x, y)`; a position that was never sampled gives an open,
    /// unexplored tile.
    pub fn get_tile(&self, x: u32, y: u32) -> (r: Tile)
        ensures
            r == tile_at(self.tiles@, Coords { x, y }),
    {
        let ghost c = Coords { x, y };
        let mut i: usize = 0;
        while i < self.tiles.len()
            invariant
                0 <= i <= self.tiles@.len(),
                c == (Coords { x, y }),
                forall|j: int| 0 <= j < i ==> (#[trigger] self.tiles@[j]).position != c,
            decreases self.tiles@.len() - i,
        {
            let t = self.tiles[i];
            if t.position == (Coords { x, y }) {
                proof {
                    assert(first_at(self.tiles@, c, i as int));
                    let k = choose|k: int| first_at(self.tiles@, c, k);
                    assert(k == i as int);
                }
                return t;
            }
            i = i + 1;
        }
        Tile {
            explored: false,
            trap: false,
            is_city: false,
            is_go_down: false,
            visited: false,
            position: Coords { x, y },
            north_passable: true,
            east_passable: true,
            south_passable: true,
            west_passable: true,
        }
    }

    /// The tile the party stands on.
    pub fn get_current_tile(&self) -> (r: Tile)
        requires
            self.info.coordinates.is_some(),
        ensures
            r == tile_at(self.tiles@, self.info.coordinates.unwrap()),
    {
        let c = self.info.coordinates.unwrap();
        self.get_tile(c.x, c.y)
    }

    pub fn get_city_tile(&self) -> (r: Option<Tile>)
        ensures
            r == city_of(self.tiles@),
    {
        let mut i: usize = 0;
        while i < self.tiles.len()
            invariant
                0 <= i <= self.tiles@.len(),
                forall|j: int| 0 <= j < i ==> !(#[trigger] self.tiles@[j]).is_city,
            decreases self.tiles@.len() - i,
        {
            if self.tiles[i].is_city {
                proof {
                    assert(first_city_at(self.tiles@, i as int));
                    let k = choose|k: int| first_city_at(self.tiles@, k);
                    assert(k == i as int);
                }
                return Some(self.tiles[i]);
            }
            i = i + 1;
        }
        None
    }

    pub fn get_go_down_tile(&self) -> (r: Option<Tile>)
        ensures
            r == go_down_of(self.tiles@),
    {
        let mut i: usize = 0;
        while i < self.tiles.len()
            invariant
                0 <= i <= self.tiles@.len(),
                forall|j: int| 0 <= j < i ==> !(#[trigger] self.tiles@[j]).is_go_down,
            decreases self.tiles@.len() - i,
        {
            if self.tiles[i].is_go_down {
                proof {
                    assert(first_go_down_at(self.tiles@, i as int));
                    let k = choose|k: int| first_go_down_at(self.tiles@, k);
                    assert(k == i as int);
                }
                return Some(self.tiles[i]);
            }
            i = i + 1;
        }
        None
    }

    /// Whether an open exit of `tile` leads to an unexplored tile.
    pub fn has_unexplored_neighbour(&self, tile: &Tile) -> (r: bool)
        ensures
            r == unexplored_neighbour(self.tiles@, *tile),
    {
        let p = tile.position;
        if tile.north_passable && p.y > 0 {
            if !self.get_tile(p.x, p.y - 1).explored {
                return true;
            }
        }
        if tile.south_passable && p.y < u32::MAX {
            if !self.get_tile(p.x, p.y + 1).explored {
                return true;
            }
        }
        if tile.east_passable && p.x < u32::MAX {
            if !self.get_tile(p.x + 1, p.y).explored {
                return true;
            }
        }
        if tile.west_passable && p.x > 0 {
            if !self.get_tile(p.x - 1, p.y).explored {
                return true;
            }
        }
        false
    }

    /// Forgets which tiles were visited.
    pub fn clear_visited(&mut self)
        ensures
            final(self).tiles@.len() == old(self).tiles@.len(),
            forall|i: int| 0 <= i < old(self).tiles@.len() ==> #[trigger] final(self).tiles@[i]
                == with_visited(old(self).tiles@[i], false),
            final(self).state == old(self).state,
            final(self).characters == old(self).characters,
            final(self).info == old(self).info,
    {
        let n = self.tiles.len();
        let mut i: usize = 0;
        while i < n
            invariant
                0 <= i <= n,
                n == old(self).tiles@.len(),
                self.tiles@.len() == n,
                forall|j: int| 0 <= j < i ==> #[trigger] self.tiles@[j] == with_visited(old(self).tiles@[j], false),
                forall|j: int| i <= j < n ==> #[trigger] self.tiles@[j] == old(self).tiles@[j],
                self.state == old(self).state,
                self.characters == old(self).characters,
                self.info == old(self).info,
            decreases n - i,
        {
            self.tiles[i].visited = false;
            i = i + 1;
        }
    }

    /// Marks every tile at `(x, y)` as visited.
    pub fn set_tile_visited(&mut self, x: u32, y: u32)
        ensures
            final(self).tiles@ == visit_tiles(old(self).tiles@, Coords { x, y }),
            final(self).state == old(self).state,
            final(self).characters == old(self).characters,
            final(self).info == old(self).info,
    {
        let n = self.tiles.len();
        let mut i: usize = 0;
        while i < n
            invariant
                0 <= i <= n,
                n == old(self).tiles@.len(),
                self.tiles@.len() == n,
                forall|j: int| 0 <= j < i ==> #[trigger] self.tiles@[j] == (
                    if old(self).tiles@[j].position == (Coords { x, y }) {
                        with_visited(old(self).tiles@[j], true)
                    } else {
                        old(self).tiles@[j]
                    }),
                forall|j: int| i <= j < n ==> #[trigger] self.tiles@[j] == old(self).tiles@[j],
                self.state == old(self).state,
                self.characters == old(self).characters,
                self.info == old(self).info,
            decreases n - i,
        {
            if self.tiles[i].position == (Coords { x, y }) {
                self.tiles[i].visited = true;
            }
            i = i + 1;
        }
        assert(self.tiles@ =~= visit_tiles(old(self).tiles@, Coords { x, y }));
    }

    /// A copy of this dungeon.
    pub fn duplicate(&self) -> (r: Self)
        ensures
            r.state == self.state,
            r.characters == self.characters,
            r.info == self.info,
            r.tiles@ == self.tiles@,
    {
        let tiles = self.tiles.clone();
        assert(tiles@ =~= self.tiles@);
        Dungeon {
            state: self.state,
            characters: self.characters,
            info: DungeonInfo { floor: self.info.floor.clone(), coordinates: self.info.coordinates },
            tiles,
        }
    }

    /// Builds the map of one screen: the party's health and the tiles of the
    /// map window, placed around the position read from the screen or, when
    /// none was read, around `old_position`; the tile under the party is
    /// marked visited.
    pub fn new(state: DungeonState, image: &Bitmap, old_position: Option<Coords>) -> (r: Self)
        ensures
            r.state == state,
            forall|i: int| 0 <= i < 4 ==> (#[trigger] r.characters@[i]).health == character_health(image, character_row(i)),
            r.info == resolved_info(*image, old_position),
            r.tiles@ == (match r.info.coordinates {
                Some(c) => visit_tiles(window_tiles(image, window_base(r.info).0, window_base(r.info).1, 49), c),
                None => window_tiles(image, window_base(r.info).0, window_base(r.info).1, 49),
            }),
            positions_unique(r.tiles@),
    {
        let info = if image.info.coordinates.is_some() {
            DungeonInfo { floor: image.info.floor.clone(), coordinates: image.info.coordinates }
        } else {
            DungeonInfo { floor: image.info.floor.clone(), coordinates: old_position }
        };
        let tiles = get_tiles(&info, image);
        proof {
            lemma_window_unique(image, window_base(info).0, window_base(info).1);
        }
        let mut d = Dungeon { state, characters: get_characters(image), info, tiles };
        if let Some(pos) = d.info.coordinates {
            d.set_tile_visited(pos.x, pos.y);
            assert(forall|i: int| 0 <= i < d.tiles@.len() ==> (#[trigger] d.tiles@[i]).position == tiles@[i].position);
        }
        d
    }
}

} // verus!
