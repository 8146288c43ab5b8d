use vstd::prelude::*;
use crate::bitmap::DungeonInfo;
use crate::coords::Coords;
use vstd::string::StringExecFns;

verus! {

/// An RGBA color.
pub type Rgba = [u8; 4];

/// A full screen image: `width` by `height` RGBA pixels, row after row.
#[derive(Debug, Clone)]
pub struct Raster {
    pub width: u32,
    pub height: u32,
    pub pixels: Vec<Rgba>,
}

/// The color of the readout's text.
pub const TEXT: Rgba = [230, 224, 233, 255];
/// The color behind the readout's text.
pub const BACKDROP: Rgba = [29, 27, 32, 255];
/// The color read outside the image.
pub const OUTSIDE: Rgba = [0, 0, 0, 0];

/// Numbers of the readout are held up to this value; a larger one stands for
/// every larger one.
pub const NUMBER_CAP: u64 = 0x1_0000_0000;

/// A character of the coordinate readout.
#[derive(Debug, Copy, Clone, PartialEq, Eq, Structural)]
pub enum TextChar {
    Digit(u32),
    Comma,
    Unknown,
}

/// The color at `(x, y)`; `OUTSIDE` off the image.
pub open spec fn rgba_at(r: &Raster, x: int, y: int) -> Rgba {
    let i = y * r.width + x;
    if 0 <= x < r.width && 0 <= y < r.height && i < r.pixels@.len() {
        r.pixels@[i]
    } else {
        OUTSIDE
    }
}

/// Whether the pixel `(dx, dy)` away from `(x, y)` shows text.
pub open spec fn ink(r: &Raster, x: int, y: int, dx: int, dy: int) -> bool {
    rgba_at(r, x + dx, y + dy)@ == TEXT@
}

/// Whether the pixel `(dx, dy)` away from `(x, y)` shows the backdrop.
pub open spec fn backdrop(r: &Raster, x: int, y: int, dx: int, dy: int) -> bool {
    rgba_at(r, x + dx, y + dy)@ == BACKDROP@
}

/// The readout character whose top stroke starts at `(x, y)`, recognised by
/// the pixels that each glyph of the game's font sets and leaves clear; the
/// first glyph that fits wins, and a closing parenthesis counts as unknown.
pub open spec fn glyph_at(r: &Raster, x: int, y: int) -> TextChar {
    if ink(r, x, y, 0, -2) && ink(r, x, y, 0, 26) {
        TextChar::Unknown
    } else if ink(r, x, y, 0, 25) || ink(r, x, y, 0, 26) {
        TextChar::Comma
    } else if ink(r, x, y, 0, 1) && ink(r, x, y, -5, 3) && backdrop(r, x, y, -2, 6) && ink(r, x, y, 4, 6)
        && ink(r, x, y, 3, 19) && ink(r, x, y, -6, 3) && ink(r, x, y, -6, 21) {
        TextChar::Digit(2)
    } else if ink(r, x, y, 0, 1) && ink(r, x, y, -5, 3) && !ink(r, x, y, -5, 10) && ink(r, x, y, -6, 21) {
        TextChar::Digit(1)
    } else if ink(r, x, y, 0, 1) && ink(r, x, y, -1, 10) && ink(r, x, y, -6, 10) && ink(r, x, y, 5, 5)
        && ink(r, x, y, -5, 4) && backdrop(r, x, y, -6, 0) && ink(r, x, y, -6, 14) && ink(r, x, y, -6, 9) {
        TextChar::Digit(0)
    } else if ink(r, x, y, 0, 1) && backdrop(r, x, y, -7, 0) && backdrop(r, x, y, 0, 14) && backdrop(r, x, y, -7, 14)
        && ink(r, x, y, -6, 9) {
        TextChar::Digit(9)
    } else if ink(r, x, y, 0, 1) && !ink(r, x, y, 4, 6) && (ink(r, x, y, -5, 14) || ink(r, x, y, -6, 14))
        && backdrop(r, x, y, -7, 0) && backdrop(r, x, y, 0, 14) && (ink(r, x, y, -6, 9) || ink(r, x, y, -4, 9)) {
        TextChar::Digit(6)
    } else if ink(r, x, y, 0, 1) && (ink(r, x, y, -3, 5) || ink(r, x, y, -5, 5)) && (ink(r, x, y, 6, 5) || ink(r, x, y, 4, 5))
        && (ink(r, x, y, 7, 16) || ink(r, x, y, 5, 16)) && ink(r, x, y, -4, 19) {
        TextChar::Digit(8)
    } else if ink(r, x, y, 0, 1) && !ink(r, x, y, 0, 5) && (ink(r, x, y, -5, 6) || ink(r, x, y, -3, 6))
        && backdrop(r, x, y, 1, 6) && !ink(r, x, y, 1, 14) && ink(r, x, y, -4, 2) && ink(r, x, y, 4, 2) {
        TextChar::Digit(5)
    } else if ink(r, x, y, 2, 1) && (!ink(r, x, y, -2, 2) || !ink(r, x, y, -4, 2)) && !ink(r, x, y, -1, 11) {
        TextChar::Digit(4)
    } else if ink(r, x, y, 0, 1) && !ink(r, x, y, -2, 6) && !ink(r, x, y, 6, 16) && ink(r, x, y, -5, 2) && ink(r, x, y, 5, 2) {
        TextChar::Digit(7)
    } else if ink(r, x, y, 0, 1) && ink(r, x, y, -5, 2) && ink(r, x, y, -1, 10) && ink(r, x, y, -4, 18) {
        TextChar::Digit(3)
    } else {
        TextChar::Unknown
    }
}

impl Raster {
    /// The color at `(x, y)`; `OUTSIDE` off the image.
    pub fn get_pixel(&self, x: i64, y: i64) -> (r: Rgba)
        ensures
            r == rgba_at(self, x as int, y as int),
    {
        if x < 0 || y < 0 || x >= self.width as i64 || y >= self.height as i64 {
            return [0, 0, 0, 0];
        }
        let w = self.width as u64;
        let xu = x as u64;
        let yu = y as u64;
        assert(yu * w + xu < 0x1_0000_0000_0000_0000) by (nonlinear_arith)
            requires
                yu < 0x1_0000_0000,
                w < 0x1_0000_0000,
                xu < 0x1_0000_0000,
        ;
        let i = yu * w + xu;
        if i < self.pixels.len() as u64 {
            self.pixels[i as usize]
        } else {
            [0, 0, 0, 0]
        }
    }

    fn ink(&self, x: i64, y: i64, dx: i64, dy: i64) -> (r: bool)
        requires
            -10 <= dx <= 10 && -10 <= dy <= 30,
            0 <= x <= 0x2_0000_0000 && 0 <= y <= 0x2_0000_0000,
        ensures
            r == ink(self, x as int, y as int, dx as int, dy as int),
    {
        let c = self.get_pixel(x + dx, y + dy);
        let r = c[0] == TEXT[0] && c[1] == TEXT[1] && c[2] == TEXT[2] && c[3] == TEXT[3];
        proof {
            if r {
                assert(c@ =~= TEXT@);
            }
        }
        r
    }

    fn backdrop(&self, x: i64, y: i64, dx: i64, dy: i64) -> (r: bool)
        requires
            -10 <= dx <= 10 && -10 <= dy <= 30,
            0 <= x <= 0x2_0000_0000 && 0 <= y <= 0x2_0000_0000,
        ensures
            r == backdrop(self, x as int, y as int, dx as int, dy as int),
    {
        let c = self.get_pixel(x + dx, y + dy);
        let r = c[0] == BACKDROP[0] && c[1] == BACKDROP[1] && c[2] == BACKDROP[2] && c[3] == BACKDROP[3];
        proof {
            if r {
                assert(c@ =~= BACKDROP@);
            }
        }
        r
    }
}

/// Recognises the readout character whose top stroke starts at `(x, y)`.
pub fn find_text_char(x: i64, y: i64, image: &Raster) -> (r: TextChar)
    requires
        0 <= x <= 0x2_0000_0000 && 0 <= y <= 0x2_0000_0000,
    ensures
        r == glyph_at(image, x as int, y as int),
{
    let r = image;
    if r.ink(x, y, 0, -2) && r.ink(x, y, 0, 26) {
        TextChar::Unknown
    } else if r.ink(x, y, 0, 25) || r.ink(x, y, 0, 26) {
        TextChar::Comma
    } else if r.ink(x, y, 0, 1) && r.ink(x, y, -5, 3) && r.backdrop(x, y, -2, 6) && r.ink(x, y, 4, 6)
        && r.ink(x, y, 3, 19) && r.ink(x, y, -6, 3) && r.ink(x, y, -6, 21) {
        TextChar::Digit(2)
    } else if r.ink(x, y, 0, 1) && r.ink(x, y, -5, 3) && !r.ink(x, y, -5, 10) && r.ink(x, y, -6, 21) {
        TextChar::Digit(1)
    } else if r.ink(x, y, 0, 1) && r.ink(x, y, -1, 10) && r.ink(x, y, -6, 10) && r.ink(x, y, 5, 5)
        && r.ink(x, y, -5, 4) && r.backdrop(x, y, -6, 0) && r.ink(x, y, -6, 14) && r.ink(x, y, -6, 9) {
        TextChar::Digit(0)
    } else if r.ink(x, y, 0, 1) && r.backdrop(x, y, -7, 0) && r.backdrop(x, y, 0, 14) && r.backdrop(x, y, -7, 14)
        && r.ink(x, y, -6, 9) {
        TextChar::Digit(9)
    } else if r.ink(x, y, 0, 1) && !r.ink(x, y, 4, 6) && (r.ink(x, y, -5, 14) || r.ink(x, y, -6, 14))
        && r.backdrop(x, y, -7, 0) && r.backdrop(x, y, 0, 14) && (r.ink(x, y, -6, 9) || r.ink(x, y, -4, 9)) {
        TextChar::Digit(6)
    } else if r.ink(x, y, 0, 1) && (r.ink(x, y, -3, 5) || r.ink(x, y, -5, 5)) && (r.ink(x, y, 6, 5) || r.ink(x, y, 4, 5))
        && (r.ink(x, y, 7, 16) || r.ink(x, y, 5, 16)) && r.ink(x, y, -4, 19) {
        TextChar::Digit(8)
    } else if r.ink(x, y, 0, 1) && !r.ink(x, y, 0, 5) && (r.ink(x, y, -5, 6) || r.ink(x, y, -3, 6))
        && r.backdrop(x, y, 1, 6) && !r.ink(x, y, 1, 14) && r.ink(x, y, -4, 2) && r.ink(x, y, 4, 2) {
        TextChar::Digit(5)
    } else if r.ink(x, y, 2, 1) && (!r.ink(x, y, -2, 2) || !r.ink(x, y, -4, 2)) && !r.ink(x, y, -1, 11) {
        TextChar::Digit(4)
    } else if r.ink(x, y, 0, 1) && !r.ink(x, y, -2, 6) && !r.ink(x, y, 6, 16) && r.ink(x, y, -5, 2) && r.ink(x, y, 5, 2) {
        TextChar::Digit(7)
    } else if r.ink(x, y, 0, 1) && r.ink(x, y, -5, 2) && r.ink(x, y, -1, 10) && r.ink(x, y, -4, 18) {
        TextChar::Digit(3)
    } else {
        TextChar::Unknown
    }
}


/// `nums` with the number being read, if any, appended.
pub open spec fn with_number(nums: Seq<u64>, cur: Option<u64>) -> Seq<u64> {
    match cur {
        Some(n) => nums.push(n),
        None => nums,
    }
}

/// The number being read once digit `v` follows it; `NUMBER_CAP` stands for
/// any number that large or larger.
pub open spec fn next_number(cur: Option<u64>, v: u32) -> u64 {
    match cur {
        Some(n) => if n * 10 + v >= NUMBER_CAP { NUMBER_CAP } else { (n * 10 + v) as u64 },
        None => v as u64,
    }
}

/// The numbers of the readout read from column `x` on, glyph after glyph 20
/// pixels apart: digits make up a number, a comma ends one and shifts the
/// next glyph by a pixel, and an unknown glyph or the image's right edge ends
/// the readout.
pub open spec fn read_numbers(r: &Raster, x: int, y: int, cur: Option<u64>, nums: Seq<u64>) -> Seq<u64>
    decreases r.width + 30 - x,
{
    if x >= r.width + 8 || x < 0 {
        with_number(nums, cur)
    } else {
        match glyph_at(r, x, y) {
            TextChar::Digit(v) => read_numbers(r, x + 20, y, Some(next_number(cur, v)), nums),
            TextChar::Comma => read_numbers(r, x + 21, y, None, with_number(nums, cur)),
            TextChar::Unknown => with_number(nums, cur),
        }
    }
}

/// The position that a readout's numbers give: the first two, where both fit.
pub open spec fn position_of(nums: Seq<u64>) -> Option<Coords> {
    if nums.len() >= 2 && nums[0] <= u32::MAX && nums[1] <= u32::MAX {
        Some(Coords { x: nums[0] as u32, y: nums[1] as u32 })
    } else {
        None
    }
}

/// Whether `x` is the first column of `[220, 378)` where the readout's
/// opening parenthesis shows text on row 1051.
pub open spec fn readout_start_at(r: &Raster, x: int) -> bool {
    &&& 220 <= x < 378
    &&& ink(r, x, 1051, 0, 0)
    &&& forall|z: int| 220 <= z < x ==> !#[trigger] ink(r, z, 1051, 0, 0)
}

fn read_from(image: &Raster, x0: i64, y: i64) -> (r: Vec<u64>)
    requires
        0 <= x0 <= 1000,
        0 <= y <= 2000,
    ensures
        r@ == read_numbers(image, x0 as int, y as int, None, seq![]),
{
    let ghost target = read_numbers(image, x0 as int, y as int, None, seq![]);
    let limit: i64 = image.width as i64 + 8;
    let mut x: i64 = x0;
    let mut cur: Option<u64> = None;
    let mut nums: Vec<u64> = Vec::new();
    let mut done = false;
    while !done && x < limit
        invariant
            0 <= x <= 2000 + image.width,
            limit == image.width + 8,
            0 <= y <= 2000,
            cur matches Some(n) ==> n <= NUMBER_CAP,
            done ==> nums@ == target,
            !done ==> read_numbers(image, x as int, y as int, cur, nums@) == target,
        decreases image.width + 30 - x + (if done { 0int } else { 1int }),
    {
        match find_text_char(x, y, image) {
            TextChar::Digit(v) => {
                let n: u64 = match cur {
                    Some(n) => if n * 10 + v as u64 >= NUMBER_CAP { NUMBER_CAP } else { n * 10 + v as u64 },
                    None => v as u64,
                };
                cur = Some(n);
                x = x + 20;
            },
            TextChar::Comma => {
                x = x + 1;
                if let Some(n) = cur {
                    nums.push(n);
                }
                cur = None;
                x = x + 20;
            },
            TextChar::Unknown => {
                if let Some(n) = cur {
                    nums.push(n);
                }
                cur = None;
                done = true;
            },
        }
    }
    if !done {
        if let Some(n) = cur {
            nums.push(n);
        }
    }
    nums
}

/// Reads the floor and the position from the coordinate readout of a screen
/// image: the readout starts where the opening parenthesis is found on row
/// 1051; without one nothing is read.
pub fn get_info(image: &Raster) -> (r: DungeonInfo)
    ensures
        (exists|x: int| readout_start_at(image, x)) ==> r.floor@ == "D1"@ && r.coordinates == position_of(
            read_numbers(image, (choose|x: int| readout_start_at(image, x)) + 20, 1052, None, seq![]),
        ),
        !(exists|x: int| readout_start_at(image, x)) ==> r.floor@ == ""@ && r.coordinates.is_none(),
{
    let mut x: i64 = 220;
    while x < 378
        invariant
            220 <= x <= 378,
            forall|z: int| 220 <= z < x ==> !#[trigger] ink(image, z, 1051, 0, 0),
        decreases 378 - x,
    {
        if image.ink(x, 1051, 0, 0) {
            proof {
                assert(readout_start_at(image, x as int));
                let k = choose|k: int| readout_start_at(image, k);
                if k < x {
                    assert(!ink(image, k, 1051, 0, 0));
                }
                if x < k {
                    assert(!ink(image, x as int, 1051, 0, 0));
                }
            }
            let nums = read_from(image, x + 20, 1052);
            let coordinates = if nums.len() >= 2 && nums[0] <= u32::MAX as u64 && nums[1] <= u32::MAX as u64 {
                Some(Coords { x: nums[0] as u32, y: nums[1] as u32 })
            } else {
                None
            };
            return DungeonInfo { floor: <String as StringExecFns>::from_str("D1"), coordinates };
        }
        x = x + 1;
    }
    proof {
        assert forall|k: int| !readout_start_at(image, k) by {
            if readout_start_at(image, k) {
                assert(!ink(image, k, 1051, 0, 0));
            }
        }
    }
    DungeonInfo { floor: <String as StringExecFns>::from_str(""), coordinates: None }
}

} // verus!
