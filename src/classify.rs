use vstd::prelude::*;
use crate::bitmap::{Bitmap, has_color, pixel_color, pixel_either_color, pixels_color, pixels_same_color};
use crate::dungeon::{Dungeon, DungeonState, Health, resolved_info, visit_tiles};
use crate::sampling::{
    BUTTON_DARK, BUTTON_PURPLE, CHEST, CITY_1, CITY_2, FIGHT, FIGHT_FADED, IDLE_1, WHITE,
    character_health, character_row, enemy_health, get_enemy, has_any_color, window_base, window_tiles,
};
use crate::state::{State, StateError, StateType, lemma_merge_unique, merge_into};
use crate::dungeon::positions_unique;

verus! {

/// An advertisement covers the screen: its close button is drawn.
pub open spec fn ad_screen(b: &Bitmap) -> bool {
    &&& has_color(b, 918, 138, IDLE_1)
    &&& has_color(b, 949, 138, IDLE_1)
    &&& has_color(b, 919, 168, IDLE_1)
    &&& has_color(b, 949, 168, IDLE_1)
}

/// The game asks whether to teleport to the city.
pub open spec fn teleport_screen(b: &Bitmap) -> bool {
    &&& has_color(b, 911, 940, BUTTON_DARK)
    &&& has_color(b, 155, 940, BUTTON_DARK)
    &&& has_color(b, 919, 168, BUTTON_DARK)
    &&& has_color(b, 949, 168, BUTTON_DARK)
}

/// A chest waits to be opened.
pub open spec fn chest_screen(b: &Bitmap) -> bool {
    &&& has_color(b, 466, 1116, CHEST)
    &&& has_color(b, 690, 1306, BUTTON_PURPLE)
    &&& has_color(b, 717, 1326, BUTTON_PURPLE)
}

/// A fight is on: no position is shown and the fight button is drawn.
pub open spec fn fight_screen(b: &Bitmap) -> bool {
    &&& b.info.coordinates.is_none()
    &&& (has_any_color(b, 827, 1306, seq![FIGHT, FIGHT_FADED]) || has_any_color(b, 827, 1260, seq![FIGHT, FIGHT_FADED]))
    &&& !has_color(b, 671, 1309, BUTTON_PURPLE)
}

/// The party stands idle in the dungeon.
pub open spec fn idle_screen(b: &Bitmap) -> bool {
    has_color(b, 979, 1083, IDLE_1) && has_color(b, 1023, 1116, IDLE_1)
}

/// Whether an idle party stands on the city tile.
pub open spec fn on_city_tile(b: &Bitmap) -> bool {
    has_color(b, 716, 1279, FIGHT) && !(has_color(b, 642, 1201, BUTTON_PURPLE) && has_color(b, 608, 1307, BUTTON_PURPLE)
        && has_color(b, 609, 1329, BUTTON_PURPLE))
}

/// The town is shown.
pub open spec fn city_screen(b: &Bitmap) -> bool {
    has_color(b, 752, 1926, CITY_1) && has_color(b, 75, 1512, CITY_2)
}

/// The main menu is shown.
pub open spec fn main_screen(b: &Bitmap) -> bool {
    &&& has_color(b, 462, 1254, WHITE)
    &&& has_color(b, 536, 1262, WHITE)
    &&& has_color(b, 615, 1270, WHITE)
}

/// The screen kind of a sample, by the first test that it passes, with the
/// state of the party where it is in the dungeon; `None` when it passes none.
pub open spec fn classified(b: &Bitmap) -> Option<(StateType, DungeonState)> {
    if ad_screen(b) {
        Some((StateType::Ad, DungeonState::Idle(false)))
    } else if teleport_screen(b) {
        Some((StateType::TeleportToCity, DungeonState::Idle(false)))
    } else if chest_screen(b) {
        Some((StateType::Dungeon, DungeonState::IdleChest))
    } else if fight_screen(b) {
        Some((StateType::Dungeon, DungeonState::Fight(crate::dungeon::Enemy { health: enemy_health(b) })))
    } else if idle_screen(b) {
        Some((StateType::Dungeon, DungeonState::Idle(on_city_tile(b))))
    } else if city_screen(b) {
        Some((StateType::City(b.has_dead_characters), DungeonState::Idle(false)))
    } else if main_screen(b) {
        Some((StateType::Main, DungeonState::Idle(false)))
    } else {
        None
    }
}

/// Whether every pixel of `pts` has color `c`.
pub open spec fn all_colored(b: &Bitmap, pts: Seq<(u16, u16)>, c: crate::bitmap::Color) -> bool {
    forall|i: int| 0 <= i < pts.len() ==> has_color(b, #[trigger] pts[i].0, pts[i].1, c)
}

proof fn lemma_all_colored(b: &Bitmap, pts: Seq<(u16, u16)>, c: crate::bitmap::Color)
    requires
        2 <= pts.len() <= 4,
    ensures
        all_colored(b, pts, c) <==> (has_color(b, pts[0].0, pts[0].1, c) && has_color(b, pts[1].0, pts[1].1, c)
            && (pts.len() > 2 ==> has_color(b, pts[2].0, pts[2].1, c))
            && (pts.len() > 3 ==> has_color(b, pts[3].0, pts[3].1, c))),
{
    if all_colored(b, pts, c) {
        assert(has_color(b, pts[0].0, pts[0].1, c));
        assert(has_color(b, pts[1].0, pts[1].1, c));
        if pts.len() > 2 {
            assert(has_color(b, pts[2].0, pts[2].1, c));
        }
        if pts.len() > 3 {
            assert(has_color(b, pts[3].0, pts[3].1, c));
        }
    }
}

/// Classifies a screen sample. The first test that the sample passes decides
/// the screen. A dungeon screen gets a fresh map read from the sample, placed
/// around the position read from the screen or else the previous state's; any
/// other screen gets an empty map, which on the teleport prompt keeps the
/// previous state's party. Either way the previous state's tiles are
/// folded into it. A sample that passes no test is an unknown state.
pub fn get_state(old_state: State, image: &Bitmap) -> (r: Result<State, StateError>)
    ensures
        r.is_err() <==> classified(image).is_none(),
        r.is_err() ==> r == Err::<State, StateError>(StateError::UnknownState),
        r matches Ok(s) ==> positions_unique(s.dungeon.tiles@),
        r matches Ok(s) ==> ({
            let (st, ds) = classified(image).unwrap();
            &&& s.state_type == st
            &&& (st == StateType::Dungeon ==> {
                let info = resolved_info(*image, old_state.dungeon.info.coordinates);
                let base = window_base(info);
                let fresh = window_tiles(image, base.0, base.1, 49);
                let fresh = match info.coordinates {
                    Some(c) => visit_tiles(fresh, c),
                    None => fresh,
                };
                &&& s.dungeon.state == ds
                &&& forall|i: int| 0 <= i < 4 ==> (#[trigger] s.dungeon.characters@[i]).health
                    == character_health(image, character_row(i))
                &&& s.dungeon.info == info
                &&& s.dungeon.tiles@ == merge_into(fresh, old_state.dungeon.tiles@)
            })
            &&& (st != StateType::Dungeon ==> {
                &&& s.dungeon.state == DungeonState::Idle(false)
                &&& st == StateType::TeleportToCity ==> s.dungeon.characters == old_state.dungeon.characters
                &&& st != StateType::TeleportToCity ==> forall|i: int|
                    0 <= i < 4 ==> (#[trigger] s.dungeon.characters@[i]).health == Health::Unknown
                &&& s.dungeon.info.floor@.len() == 0
                &&& s.dungeon.info.coordinates.is_none()
                &&& s.dungeon.tiles@ == merge_into(Seq::empty(), old_state.dungeon.tiles@)
            })
        }),
{
    let fight_colors = [FIGHT, FIGHT_FADED];
    assert(fight_colors@ =~= seq![FIGHT, FIGHT_FADED]);
    let close_button = [(918u16, 138u16), (949, 138), (919, 168), (949, 168)];
    let teleport_buttons = [(911u16, 940u16), (155, 940), (919, 168), (949, 168)];
    let chest_buttons = [(690u16, 1306u16), (717, 1326)];
    let city_buttons = [(642u16, 1201u16), (608, 1307), (609, 1329)];
    let city_marks = [(752u16, 1926u16, CITY_1), (75, 1512, CITY_2)];
    let main_marks = [(462u16, 1254u16), (536, 1262), (615, 1270)];
    assert(close_button@ =~= seq![(918u16, 138u16), (949, 138), (919, 168), (949, 168)]);
    assert(teleport_buttons@ =~= seq![(911u16, 940u16), (155, 940), (919, 168), (949, 168)]);
    assert(chest_buttons@ =~= seq![(690u16, 1306u16), (717, 1326)]);
    assert(city_buttons@ =~= seq![(642u16, 1201u16), (608, 1307), (609, 1329)]);
    assert(city_marks@ =~= seq![(752u16, 1926u16, CITY_1), (75, 1512, CITY_2)]);
    assert(main_marks@ =~= seq![(462u16, 1254u16), (536, 1262), (615, 1270)]);
    proof {
        lemma_all_colored(image, close_button@, IDLE_1);
        lemma_all_colored(image, teleport_buttons@, BUTTON_DARK);
        lemma_all_colored(image, chest_buttons@, BUTTON_PURPLE);
        lemma_all_colored(image, city_buttons@, BUTTON_PURPLE);
        lemma_all_colored(image, main_marks@, WHITE);
        assert(city_marks@[0].0 == 752 && city_marks@[1].0 == 75);
    }
    let old_position = old_state.get_position();
    let mut st = if pixels_same_color(image, &close_button, &IDLE_1) {
        State::new(StateType::Ad, Dungeon::empty())
    } else if pixels_same_color(image, &teleport_buttons, &BUTTON_DARK) {
        let mut d = Dungeon::empty();
        d.characters = old_state.dungeon.characters;
        State::new(StateType::TeleportToCity, d)
    } else if pixel_color(image, 466, 1116, &CHEST) && pixels_same_color(image, &chest_buttons, &BUTTON_PURPLE) {
        State::new(StateType::Dungeon, Dungeon::new(DungeonState::IdleChest, image, old_position))
    } else if image.get_info().coordinates.is_none() && (pixel_either_color(image, 827, 1306, &fight_colors)
        || pixel_either_color(image, 827, 1260, &fight_colors)) && !pixel_color(image, 671, 1309, &BUTTON_PURPLE) {
        let enemy = get_enemy(image);
        State::new(StateType::Dungeon, Dungeon::new(DungeonState::Fight(enemy), image, old_position))
    } else if pixel_color(image, 979, 1083, &IDLE_1) && pixel_color(image, 1023, 1116, &IDLE_1) {
        let on_city = pixel_color(image, 716, 1279, &FIGHT) && !pixels_same_color(image, &city_buttons, &BUTTON_PURPLE);
        State::new(StateType::Dungeon, Dungeon::new(DungeonState::Idle(on_city), image, old_position))
    } else if pixels_color(image, &city_marks) {
        State::new(StateType::City(image.has_dead_characters), Dungeon::empty())
    } else if pixels_same_color(image, &main_marks, &WHITE) {
        State::new(StateType::Main, Dungeon::empty())
    } else {
        return Err(StateError::UnknownState);
    };
    let ghost old_tiles = old_state.dungeon.tiles@;
    proof {
        lemma_merge_unique(st.dungeon.tiles@, old_tiles);
    }
    let merged = st.merge(old_state);
    Ok(merged)
}

} // verus!
