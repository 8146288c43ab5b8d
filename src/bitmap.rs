use vstd::prelude::*;
use crate::coords::Coords;

verus! {

/// An RGB color.
pub type Color = [u8; 3];

/// What the coordinate readout of a screen says: the floor name and, when it
/// could be read, the player's position.
#[derive(Debug, Clone)]
pub struct DungeonInfo {
    pub floor: String,
    pub coordinates: Option<Coords>,
}

/// The sparse sample of one screen: a list of sampled pixels with their colors,
/// together with what was read from the screen's text.
#[derive(Debug, Clone)]
pub struct Bitmap {
    pub pixels: Vec<(u16, u16, Color)>,
    pub has_dead_characters: bool,
    pub info: DungeonInfo,
}

/// The color reported for a pixel that the sample does not hold.
pub open spec fn missing_color() -> Color {
    [0u8, 0u8, 0u8]
}

/// Whether two colors agree in all three channels.
pub open spec fn same_color(a: Color, b: Color) -> bool {
    a@ == b@
}

/// Whether `i` is the first index of `pixels` that samples `(x, y)`.
pub open spec fn first_sample_at(pixels: Seq<(u16, u16, Color)>, x: u16, y: u16, i: int) -> bool {
    &&& 0 <= i < pixels.len()
    &&& pixels[i].0 == x && pixels[i].1 == y
    &&& forall|j: int| 0 <= j < i ==> !(#[trigger] pixels[j].0 == x && pixels[j].1 == y)
}

/// The color of pixel `(x, y)` in a sample: the first sampled value for it, or
/// the missing-pixel color when it was not sampled.
pub open spec fn color_at(pixels: Seq<(u16, u16, Color)>, x: u16, y: u16) -> Color {
    if exists|i: int| first_sample_at(pixels, x, y, i) {
        pixels[choose|i: int| first_sample_at(pixels, x, y, i)].2
    } else {
        missing_color()
    }
}

/// Whether the sampled pixel `(x, y)` has color `c`.
pub open spec fn has_color(b: &Bitmap, x: u16, y: u16, c: Color) -> bool {
    same_color(color_at(b.pixels@, x, y), c)
}

pub fn colors_equal(a: &Color, b: &Color) -> (r: bool)
    ensures
        r == same_color(*a, *b),
{
    let r = a[0] == b[0] && a[1] == b[1] && a[2] == b[2];
    proof {
        if r {
            assert(a@ =~= b@);
        }
    }
    r
}

impl Bitmap {
    /// The color of a sampled pixel; a pixel that was not sampled reads as black.
    pub fn get_pixel(&self, x: u16, y: u16) -> (r: Color)
        ensures
            r@ == color_at(self.pixels@, x, y)@,
    {
        let mut i: usize = 0;
        while i < self.pixels.len()
            invariant
                0 <= i <= self.pixels@.len(),
                forall|j: int| 0 <= j < i ==> !(#[trigger] self.pixels@[j].0 == x && self.pixels@[j].1 == y),
            decreases self.pixels@.len() - i,
        {
            let (px, py, color) = self.pixels[i];
            if px == x && py == y {
                proof {
                    assert(first_sample_at(self.pixels@, x, y, i as int));
                    let k = choose|k: int| first_sample_at(self.pixels@, x, y, k);
                    assert(k == i as int);
                }
                return color;
            }
            i = i + 1;
        }
        [0u8, 0u8, 0u8]
    }

    pub fn set_pixel(&mut self, x: u16, y: u16, color: Color)
        ensures
            final(self).pixels@ == old(self).pixels@.push((x, y, color)),
            final(self).has_dead_characters == old(self).has_dead_characters,
            final(self).info == old(self).info,
    {
        self.pixels.push((x, y, color));
    }

    pub fn with_capacity(capacity: usize) -> (r: Self)
        ensures
            r.pixels@.len() == 0,
            !r.has_dead_characters,
            r.info.floor@.len() == 0,
            r.info.coordinates.is_none(),
    {
        Self {
            pixels: Vec::with_capacity(capacity),
            info: DungeonInfo { floor: String::new(), coordinates: None },
            has_dead_characters: false,
        }
    }

    pub fn set_has_dead_characters(&mut self, has_dead_characters: bool)
        ensures
            final(self).has_dead_characters == has_dead_characters,
            final(self).pixels == old(self).pixels,
            final(self).info == old(self).info,
    {
        self.has_dead_characters = has_dead_characters;
    }

    pub fn set_info(&mut self, info: DungeonInfo)
        ensures
            final(self).info == info,
            final(self).pixels == old(self).pixels,
            final(self).has_dead_characters == old(self).has_dead_characters,
    {
        self.info = info;
    }

    pub fn get_has_dead_characters(&self) -> (r: bool)
        ensures
            r == self.has_dead_characters,
    {
        self.has_dead_characters
    }

    pub fn get_info(&self) -> (r: &DungeonInfo)
        ensures
            *r == self.info,
    {
        &self.info
    }
}

/// Whether pixel `(x, y)` has the color `c`.
pub fn pixel_color(image: &Bitmap, x: u16, y: u16, c: &Color) -> (r: bool)
    ensures
        r == has_color(image, x, y, *c),
{
    let p = image.get_pixel(x, y);
    colors_equal(&p, c)
}

/// Whether pixel `(x, y)` has one of the colors `cs`.
pub fn pixel_either_color(image: &Bitmap, x: u16, y: u16, cs: &[Color]) -> (r: bool)
    ensures
        r == exists|i: int| 0 <= i < cs@.len() && has_color(image, x, y, #[trigger] cs@[i]),
{
    let p = image.get_pixel(x, y);
    let mut i: usize = 0;
    while i < cs.len()
        invariant
            0 <= i <= cs@.len(),
            p@ == color_at(image.pixels@, x, y)@,
            forall|j: int| 0 <= j < i ==> !has_color(image, x, y, #[trigger] cs@[j]),
        decreases cs@.len() - i,
    {
        if colors_equal(&p, &cs[i]) {
            assert(has_color(image, x, y, cs@[i as int]));
            return true;
        }
        i = i + 1;
    }
    false
}

/// Whether every pixel of `points` has the color `c`.
pub fn pixels_same_color(image: &Bitmap, points: &[(u16, u16)], c: &Color) -> (r: bool)
    ensures
        r == forall|i: int| 0 <= i < points@.len() ==> has_color(image, #[trigger] points@[i].0, points@[i].1, *c),
{
    let mut i: usize = 0;
    while i < points.len()
        invariant
            0 <= i <= points@.len(),
            forall|j: int| 0 <= j < i ==> has_color(image, #[trigger] points@[j].0, points@[j].1, *c),
        decreases points@.len() - i,
    {
        let (x, y) = points[i];
        if !pixel_color(image, x, y, c) {
            return false;
        }
        i = i + 1;
    }
    true
}

/// Whether every pixel of `points` has the color given beside it.
pub fn pixels_color(image: &Bitmap, points: &[(u16, u16, Color)]) -> (r: bool)
    ensures
        r == forall|i: int| 0 <= i < points@.len() ==> has_color(image, #[trigger] points@[i].0, points@[i].1, points@[i].2),
{
    let mut i: usize = 0;
    while i < points.len()
        invariant
            0 <= i <= points@.len(),
            forall|j: int| 0 <= j < i ==> has_color(image, #[trigger] points@[j].0, points@[j].1, points@[j].2),
        decreases points@.len() - i,
    {
        let (x, y, c) = points[i];
        if !pixel_color(image, x, y, &c) {
            return false;
        }
        i = i + 1;
    }
    true
}

} // verus!
