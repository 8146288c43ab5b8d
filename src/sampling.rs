use vstd::prelude::*;
use crate::bitmap::{Bitmap, Color, DungeonInfo, color_at, has_color, pixel_color, pixel_either_color, same_color};
use crate::coords::Coords;
use crate::dungeon::{Character, Enemy, Health, Tile, positions_unique};

verus! {

pub const WHITE: Color = [255, 255, 255];
pub const CITY_1: Color = [1, 0, 31];
pub const CITY_2: Color = [3, 2, 20];
pub const FIGHT: Color = [208, 188, 255];
pub const FIGHT_FADED: Color = [192, 172, 241];
pub const HEALTH_GREY: Color = [158, 158, 158];
pub const HEALTH_RED: Color = [244, 67, 54];
pub const HEALTH_RED_PLAYER: Color = [211, 47, 47];
pub const HEALTH_GREEN: Color = [56, 142, 60];
pub const HEALTH_ORANGE: Color = [245, 124, 0];
pub const IDLE_1: Color = [202, 196, 208];
pub const BUTTON_DARK: Color = [43, 41, 48];
pub const BUTTON_PURPLE: Color = [56, 30, 114];
pub const CHEST: Color = [185, 207, 220];
pub const TILE_UNEXPLORED: Color = [29, 27, 32];
/// The faded form of the red marker drawn on city and staircase tiles.
pub const MARKER_FADED: Color = [165, 118, 66];

/// Screen position of the left and top edge of the map window.
pub const TILE_START: u16 = 536;
/// Side of one map tile on screen.
pub const TILE_SIZE: u16 = 60;
/// Number of tiles on each side of the map window.
pub const TILE_COUNT: u16 = 7;

/// Whether pixel `(x, y)` has one of the colors of `cs`.
pub open spec fn has_any_color(b: &Bitmap, x: u16, y: u16, cs: Seq<Color>) -> bool {
    exists|i: int| 0 <= i < cs.len() && has_color(b, x, y, #[trigger] cs[i])
}

/// Health of the party member whose health bar runs along screen row `y`.
pub open spec fn character_health(b: &Bitmap, y: u16) -> Health {
    if has_color(b, 514, y, HEALTH_GREEN) {
        Health::Healthy
    } else if has_color(b, 291, y, HEALTH_GREEN) {
        Health::Hurt
    } else if has_any_color(b, 147, y, seq![HEALTH_RED_PLAYER, HEALTH_GREEN, HEALTH_ORANGE]) {
        Health::Low
    } else if has_color(b, 147, y, HEALTH_GREY) {
        Health::Dead
    } else {
        Health::Unknown
    }
}

/// The health bar rows of the four party members.
pub open spec fn character_row(i: int) -> u16 {
    (560 + 120 * i) as u16
}

fn sample_health(image: &Bitmap, y: u16) -> (r: Character)
    ensures
        r.health == character_health(image, y),
{
    let low_colors = [HEALTH_RED_PLAYER, HEALTH_GREEN, HEALTH_ORANGE];
    assert(low_colors@ =~= seq![HEALTH_RED_PLAYER, HEALTH_GREEN, HEALTH_ORANGE]);
    let health = if pixel_color(image, 514, y, &HEALTH_GREEN) {
        Health::Healthy
    } else if pixel_color(image, 291, y, &HEALTH_GREEN) {
        Health::Hurt
    } else if pixel_either_color(image, 147, y, &low_colors) {
        Health::Low
    } else if pixel_color(image, 147, y, &HEALTH_GREY) {
        Health::Dead
    } else {
        Health::Unknown
    };
    Character { health }
}

/// Reads the health of the four party members from their health bars.
pub fn get_characters(image: &Bitmap) -> (r: [Character; 4])
    ensures
        forall|i: int| 0 <= i < 4 ==> (#[trigger] r@[i]).health == character_health(image, character_row(i)),
{
    let r = [
        sample_health(image, 560),
        sample_health(image, 680),
        sample_health(image, 800),
        sample_health(image, 920),
    ];
    assert(character_row(0) == 560 && character_row(1) == 680 && character_row(2) == 800 && character_row(3) == 920);
    r
}

/// Whether the health bars of a screen show a dead party member.
pub fn sample_has_dead_characters(image: &Bitmap) -> (r: bool)
    ensures
        r == exists|i: int| 0 <= i < 4 && character_health(image, #[trigger] character_row(i)) == Health::Dead,
{
    let party = get_characters(image);
    let mut i: usize = 0;
    while i < 4
        invariant
            0 <= i <= 4,
            forall|j: int| 0 <= j < 4 ==> (#[trigger] party@[j]).health == character_health(image, character_row(j)),
            forall|j: int| 0 <= j < i ==> character_health(image, #[trigger] character_row(j)) != Health::Dead,
        decreases 4 - i,
    {
        if party[i].is_dead() {
            assert(character_health(image, character_row(i as int)) == Health::Dead);
            return true;
        }
        assert(party@[i as int].health == character_health(image, character_row(i as int)));
        i = i + 1;
    }
    false
}

/// How far left the enemy health bar is drawn.
pub open spec fn enemy_bar_shift(b: &Bitmap) -> u16 {
    if has_any_color(b, 90, 1472, seq![HEALTH_RED, HEALTH_GREY]) {
        89
    } else {
        0
    }
}

/// Health of the enemy, read from its health bar.
pub open spec fn enemy_health(b: &Bitmap) -> Health {
    let s = enemy_bar_shift(b);
    if has_color(b, (511 - s) as u16, 1471, HEALTH_RED) {
        Health::Healthy
    } else if has_color(b, (355 - s) as u16, 1471, HEALTH_RED) {
        Health::Hurt
    } else if has_color(b, (181 - s) as u16, 1471, HEALTH_RED) {
        Health::Low
    } else if has_color(b, (181 - s) as u16, 1471, HEALTH_GREY) {
        Health::Dead
    } else {
        Health::Unknown
    }
}

pub fn get_enemy(image: &Bitmap) -> (r: Enemy)
    ensures
        r.health == enemy_health(image),
{
    let bar_colors = [HEALTH_RED, HEALTH_GREY];
    assert(bar_colors@ =~= seq![HEALTH_RED, HEALTH_GREY]);
    let s: u16 = if pixel_either_color(image, 90, 1472, &bar_colors) {
        89
    } else {
        0
    };
    let health = if pixel_color(image, 511 - s, 1471, &HEALTH_RED) {
        Health::Healthy
    } else if pixel_color(image, 355 - s, 1471, &HEALTH_RED) {
        Health::Hurt
    } else if pixel_color(image, 181 - s, 1471, &HEALTH_RED) {
        Health::Low
    } else if pixel_color(image, 181 - s, 1471, &HEALTH_GREY) {
        Health::Dead
    } else {
        Health::Unknown
    };
    Enemy { health }
}


/// Whether a color belongs to a wall: a bright band or a narrow dark band.
pub open spec fn wall_color(c: Color) -> bool {
    ||| c@[0] >= 125 && c@[1] >= 125 && c@[2] >= 125
    ||| 40 <= c@[0] <= 64 && 40 <= c@[1] <= 64 && 40 <= c@[2] <= 64
}

/// Whether a wall is drawn at pixel `(x, y)` or just below it.
pub open spec fn wall_at(b: &Bitmap, x: u16, y: u16) -> bool {
    wall_color(color_at(b.pixels@, x, y)) || wall_color(color_at(b.pixels@, x, (y + 1) as u16))
}

/// Whether a color is the red marker, bright or faded.
pub open spec fn marker_color(c: Color) -> bool {
    same_color(c, HEALTH_RED) || same_color(c, MARKER_FADED)
}

/// A city marker: the marker color at `(x, y)` but not below right of it.
pub open spec fn city_marker_at(b: &Bitmap, x: u16, y: u16) -> bool {
    &&& marker_color(color_at(b.pixels@, x, y))
    &&& !marker_color(color_at(b.pixels@, (x + 4) as u16, (y + 8) as u16))
}

/// A staircase-down marker: the marker color at `(x, y)` and below right of
/// it, the faded marker color on its right and the marker color on its left.
/// A staircase-up marker lacks the color below right.
pub open spec fn go_down_marker_at(b: &Bitmap, x: u16, y: u16) -> bool {
    let c3 = color_at(b.pixels@, (x + 5) as u16, y);
    &&& marker_color(color_at(b.pixels@, x, y))
    &&& marker_color(color_at(b.pixels@, (x + 4) as u16, (y + 8) as u16))
    &&& !same_color(c3, HEALTH_RED) && same_color(c3, MARKER_FADED)
    &&& marker_color(color_at(b.pixels@, (x - 5) as u16, y))
}

/// A staircase-up marker: the marker color at `(x, y)` and on both sides of it,
/// but not below right of it.
pub open spec fn go_up_marker_at(b: &Bitmap, x: u16, y: u16) -> bool {
    &&& marker_color(color_at(b.pixels@, x, y))
    &&& !marker_color(color_at(b.pixels@, (x + 4) as u16, (y + 8) as u16))
    &&& marker_color(color_at(b.pixels@, (x + 5) as u16, y))
    &&& marker_color(color_at(b.pixels@, (x - 5) as u16, y))
}

/// The grid position of the window's top left tile: four columns left of and
/// three rows above the player, or the origin when the position is unknown.
pub open spec fn window_base(info: DungeonInfo) -> (int, int) {
    match info.coordinates {
        Some(c) => (c.x - 4, c.y - 3),
        None => (0, 0),
    }
}

/// The position where a staircase-down marker is never believed.
pub open spec fn anomalous_position() -> Coords {
    Coords { x: 15, y: 15 }
}

/// The tile read from column `xc` and row `yc` of the map window whose top left
/// tile is at grid position `(bx, by)`; nothing where the grid position is off
/// the grid or the tile is still in fog.
pub open spec fn window_tile(b: &Bitmap, bx: int, by: int, xc: int, yc: int) -> Option<Tile> {
    let px = bx + xc;
    let py = by + yc;
    let cx = (566 + 60 * xc) as u16;
    let cy = (566 + 60 * yc) as u16;
    if px < 0 || py < 0 || px > u32::MAX || py > u32::MAX {
        None
    } else if has_color(b, cx, cy, TILE_UNEXPLORED) || has_color(b, (537 + 60 * xc) as u16, cy, TILE_UNEXPLORED) {
        None
    } else {
        let position = Coords { x: px as u32, y: py as u32 };
        Some(Tile {
            explored: true,
            trap: false,
            is_city: city_marker_at(b, (cx - 2) as u16, cy),
            is_go_down: position != anomalous_position() && !go_up_marker_at(b, (cx - 2) as u16, cy)
                && go_down_marker_at(b, (cx - 2) as u16, cy),
            visited: false,
            position,
            north_passable: !wall_at(b, cx, (537 + 60 * yc) as u16),
            east_passable: !wall_at(b, (592 + 60 * xc) as u16, cy),
            south_passable: !wall_at(b, cx, (592 + 60 * yc) as u16),
            west_passable: !wall_at(b, (537 + 60 * xc) as u16, cy),
        })
    }
}

/// The tiles read from the first `k` window cells, column by column.
pub open spec fn window_tiles(b: &Bitmap, bx: int, by: int, k: nat) -> Seq<Tile>
    decreases k,
{
    if k == 0 {
        seq![]
    } else {
        let prev = window_tiles(b, bx, by, (k - 1) as nat);
        match window_tile(b, bx, by, (k - 1) / 7, (k - 1) % 7) {
            Some(t) => prev.push(t),
            None => prev,
        }
    }
}

/// The window cell that a tile read with top left grid position `(bx, by)`
/// comes from, counted column by column.
pub open spec fn window_cell(t: Tile, bx: int, by: int) -> int {
    (t.position.x - bx) * 7 + (t.position.y - by)
}

proof fn lemma_window_cells(b: &Bitmap, bx: int, by: int, k: nat)
    ensures
        forall|i: int| 0 <= i < window_tiles(b, bx, by, k).len() ==> {
            let t = #[trigger] window_tiles(b, bx, by, k)[i];
            &&& 0 <= t.position.y - by < 7
            &&& window_cell(t, bx, by) < k
        },
        forall|i: int, j: int| 0 <= i < j < window_tiles(b, bx, by, k).len() ==> window_cell(
            #[trigger] window_tiles(b, bx, by, k)[i],
            bx,
            by,
        ) < window_cell(#[trigger] window_tiles(b, bx, by, k)[j], bx, by),
    decreases k,
{
    if k > 0 {
        let prev = window_tiles(b, bx, by, (k - 1) as nat);
        lemma_window_cells(b, bx, by, (k - 1) as nat);
        let c = (k - 1) as int;
        vstd::arithmetic::div_mod::lemma_fundamental_div_mod(c, 7);
        match window_tile(b, bx, by, c / 7, c % 7) {
            Some(t) => {
                assert(window_cell(t, bx, by) == (c / 7) * 7 + c % 7);
                assert(window_tiles(b, bx, by, k) == prev.push(t));
            },
            None => {},
        }
    }
}

/// The tiles of a map window lie at distinct positions.
pub proof fn lemma_window_unique(b: &Bitmap, bx: int, by: int)
    ensures
        positions_unique(window_tiles(b, bx, by, 49)),
{
    lemma_window_cells(b, bx, by, 49);
    let s = window_tiles(b, bx, by, 49);
    assert forall|i: int, j: int| 0 <= i < s.len() && 0 <= j < s.len() && i != j implies (#[trigger] s[i]).position
        != (#[trigger] s[j]).position by {
        if i < j {
            assert(window_cell(s[i], bx, by) < window_cell(s[j], bx, by));
        } else {
            assert(window_cell(s[j], bx, by) < window_cell(s[i], bx, by));
        }
    }
}

fn sample_wall(image: &Bitmap, x: u16, y: u16) -> (r: bool)
    requires
        y < u16::MAX,
    ensures
        r == wall_at(image, x, y),
{
    let c = image.get_pixel(x, y);
    let c2 = image.get_pixel(x, y + 1);
    (c[0] >= 125 && c[1] >= 125 && c[2] >= 125) || (c2[0] >= 125 && c2[1] >= 125 && c2[2] >= 125)
        || (40 <= c[0] && c[0] <= 64 && 40 <= c[1] && c[1] <= 64 && 40 <= c[2] && c[2] <= 64)
        || (40 <= c2[0] && c2[0] <= 64 && 40 <= c2[1] && c2[1] <= 64 && 40 <= c2[2] && c2[2] <= 64)
}

fn sample_marker(image: &Bitmap, x: u16, y: u16) -> (r: bool)
    ensures
        r == marker_color(color_at(image.pixels@, x, y)),
{
    pixel_color(image, x, y, &HEALTH_RED) || pixel_color(image, x, y, &MARKER_FADED)
}

fn sample_city(image: &Bitmap, x: u16, y: u16) -> (r: bool)
    requires
        x < 1000 && y < 1000,
    ensures
        r == city_marker_at(image, x, y),
{
    sample_marker(image, x, y) && !sample_marker(image, x + 4, y + 8)
}

fn sample_go_down(image: &Bitmap, x: u16, y: u16) -> (r: bool)
    requires
        5 <= x < 1000 && y < 1000,
    ensures
        r == go_down_marker_at(image, x, y),
{
    sample_marker(image, x, y) && sample_marker(image, x + 4, y + 8)
        && !pixel_color(image, x + 5, y, &HEALTH_RED) && pixel_color(image, x + 5, y, &MARKER_FADED)
        && sample_marker(image, x - 5, y)
}

fn sample_go_up(image: &Bitmap, x: u16, y: u16) -> (r: bool)
    requires
        5 <= x < 1000 && y < 1000,
    ensures
        r == go_up_marker_at(image, x, y),
{
    sample_marker(image, x, y) && !sample_marker(image, x + 4, y + 8) && sample_marker(image, x + 5, y)
        && sample_marker(image, x - 5, y)
}

fn sample_window_tile(image: &Bitmap, bx: i64, by: i64, xc: u16, yc: u16) -> (r: Option<Tile>)
    requires
        xc < 7 && yc < 7,
        -5 <= bx <= u32::MAX && -5 <= by <= u32::MAX,
    ensures
        r == window_tile(image, bx as int, by as int, xc as int, yc as int),
{
    let px = bx + xc as i64;
    let py = by + yc as i64;
    let cx: u16 = 566 + 60 * xc;
    let cy: u16 = 566 + 60 * yc;
    if px < 0 || py < 0 || px > u32::MAX as i64 || py > u32::MAX as i64 {
        return None;
    }
    if pixel_color(image, cx, cy, &TILE_UNEXPLORED) || pixel_color(image, 537 + 60 * xc, cy, &TILE_UNEXPLORED) {
        return None;
    }
    let position = Coords { x: px as u32, y: py as u32 };
    let is_go_up = sample_go_up(image, cx - 2, cy);
    let is_go_down = !(position == (Coords { x: 15, y: 15 })) && !is_go_up && sample_go_down(image, cx - 2, cy);
    Some(Tile {
        explored: true,
        trap: false,
        is_city: sample_city(image, cx - 2, cy),
        is_go_down,
        visited: false,
        position,
        north_passable: !sample_wall(image, cx, 537 + 60 * yc),
        east_passable: !sample_wall(image, 592 + 60 * xc, cy),
        south_passable: !sample_wall(image, cx, 592 + 60 * yc),
        west_passable: !sample_wall(image, 537 + 60 * xc, cy),
    })
}

/// Reads the tiles of the map window around the position in `info`: every
/// cell of the 7 by 7 window that is on the grid and out of fog, column by
/// column.
pub fn get_tiles(info: &DungeonInfo, image: &Bitmap) -> (r: Vec<Tile>)
    ensures
        r@ == window_tiles(image, window_base(*info).0, window_base(*info).1, 49),
{
    let (bx, by): (i64, i64) = match info.coordinates {
        Some(c) => (c.x as i64 - 4, c.y as i64 - 3),
        None => (0, 0),
    };
    let mut tiles: Vec<Tile> = Vec::new();
    let mut k: u16 = 0;
    while k < 49
        invariant
            0 <= k <= 49,
            bx == window_base(*info).0 && by == window_base(*info).1,
            -5 <= bx <= u32::MAX && -5 <= by <= u32::MAX,
            tiles@ == window_tiles(image, bx as int, by as int, k as nat),
        decreases 49 - k,
    {
        let t = sample_window_tile(image, bx, by, k / 7, k % 7);
        match t {
            Some(tile) => tiles.push(tile),
            None => {},
        }
        k = k + 1;
    }
    tiles
}

} // verus!
