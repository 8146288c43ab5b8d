use endorbot::readout::{TEXT, find_text_char, get_info};
use endorbot::{Coords, Raster, TextChar, parse_info, text_mentions_dead};

fn blank(width: u32, height: u32) -> Raster {
    Raster { width, height, pixels: vec![[0, 0, 0, 0]; (width * height) as usize] }
}

fn paint(r: &mut Raster, x: i64, y: i64, dots: &[(i64, i64)]) {
    for (dx, dy) in dots {
        let i = ((y + dy) as u32 * r.width + (x + dx) as u32) as usize;
        r.pixels[i] = TEXT;
    }
}

const ONE: &[(i64, i64)] = &[(0, 1), (-5, 3), (-6, 21)];
const TWO: &[(i64, i64)] = &[(0, 1), (-5, 3), (4, 6), (3, 19), (-6, 3), (-6, 21)];
const THREE: &[(i64, i64)] = &[(0, 1), (-5, 2), (-1, 10), (-4, 18)];
const COMMA: &[(i64, i64)] = &[(0, 25)];

#[test]
fn glyphs_are_recognised() {
    let mut r = blank(100, 60);
    paint(&mut r, 20, 10, ONE);
    paint(&mut r, 40, 10, THREE);
    paint(&mut r, 60, 10, COMMA);
    assert_eq!(find_text_char(20, 10, &r), TextChar::Digit(1));
    assert_eq!(find_text_char(40, 10, &r), TextChar::Digit(3));
    assert_eq!(find_text_char(60, 10, &r), TextChar::Comma);
    assert_eq!(find_text_char(80, 10, &r), TextChar::Unknown);
    assert_eq!(find_text_char(500, 500, &r), TextChar::Unknown);
}

#[test]
fn two_needs_the_backdrop_gap() {
    let mut r = blank(100, 60);
    paint(&mut r, 20, 10, TWO);
    assert_eq!(find_text_char(20, 10, &r), TextChar::Digit(1));
    let i = ((10 + 6) * 100 + 18) as usize;
    r.pixels[i] = endorbot::readout::BACKDROP;
    assert_eq!(find_text_char(20, 10, &r), TextChar::Digit(2));
}

#[test]
fn readout_gives_position() {
    let mut r = blank(420, 1100);
    paint(&mut r, 250, 1051, &[(0, 0)]);
    paint(&mut r, 270, 1052, ONE);
    paint(&mut r, 290, 1052, TWO);
    let backdrop = ((1052 + 6) * 420 + 288) as usize;
    r.pixels[backdrop] = endorbot::readout::BACKDROP;
    paint(&mut r, 310, 1052, COMMA);
    paint(&mut r, 331, 1052, THREE);
    let info = get_info(&r);
    assert_eq!(info.floor, "D1");
    assert_eq!(info.coordinates, Some(Coords { x: 12, y: 3 }));
}

#[test]
fn readout_missing_gives_nothing() {
    let r = blank(420, 1100);
    let info = get_info(&r);
    assert_eq!(info.floor, "");
    assert_eq!(info.coordinates, None);
    let mut one_number = blank(420, 1100);
    paint(&mut one_number, 230, 1051, &[(0, 0)]);
    paint(&mut one_number, 250, 1052, THREE);
    let info = get_info(&one_number);
    assert_eq!(info.floor, "D1");
    assert_eq!(info.coordinates, None);
}

#[test]
fn readout_text_is_parsed() {
    let (floor, pos) = parse_info(b"B3F (12,34)", None);
    assert_eq!(floor, b"B3F".to_vec());
    assert_eq!(pos, Some(Coords { x: 12, y: 34 }));
    let (floor, pos) = parse_info(b"(+7,0)", Some(Coords { x: 1, y: 1 }));
    assert!(floor.is_empty());
    assert_eq!(pos, Some(Coords { x: 7, y: 0 }));
}

#[test]
fn unreadable_text_keeps_old_position() {
    let old = Some(Coords { x: 5, y: 6 });
    assert_eq!(parse_info(b"D2 (1x,2)", old).1, old);
    assert_eq!(parse_info(b"D2 (12 34)", old).1, old);
    assert_eq!(parse_info(b"D2 )3,4(", old).1, old);
    assert_eq!(parse_info(b"D2 (4294967296,1)", old).1, old);
    assert_eq!(parse_info(b"D2 (4294967295,1)", old).1, Some(Coords { x: 4294967295, y: 1 }));
    assert_eq!(parse_info(b"", None), (Vec::new(), None));
}

#[test]
fn dead_word_is_found() {
    assert!(text_mentions_dead(b"Alia is dead"));
    assert!(text_mentions_dead(b"dead"));
    assert!(!text_mentions_dead(b"dea d"));
    assert!(!text_mentions_dead(b""));
}
