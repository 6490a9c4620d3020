use crate::model::Rect;
use vstd::prelude::*;

verus! {

// == Measuring ===========================================
/// Where a font puts one glyph of a text, in whole pixels.
#[derive(Debug, Copy, Clone, PartialEq, Eq)]
pub struct GlyphBox {
    pub x: usize,
    pub y: usize,
    pub width: usize,
    pub height: usize,
}

/// The least `y` among the first `n` glyphs, which are at least one.
pub open spec fn top_of(glyphs: Seq<GlyphBox>, n: int) -> int
    decreases n,
{
    if n <= 1 {
        glyphs[0].y as int
    } else if top_of(glyphs, n - 1) <= glyphs[n - 1].y {
        top_of(glyphs, n - 1)
    } else {
        glyphs[n - 1].y as int
    }
}

/// The greatest height among the first `n` glyphs.
pub open spec fn tallest_of(glyphs: Seq<GlyphBox>, n: int) -> int
    decreases n,
{
    if n <= 0 {
        0
    } else if tallest_of(glyphs, n - 1) >= glyphs[n - 1].height {
        tallest_of(glyphs, n - 1)
    } else {
        glyphs[n - 1].height as int
    }
}

/// How far a text reaches to the right: to the right edge of its last
/// glyph, and as far beyond that as its first glyph is set in.
pub open spec fn reach_of(glyphs: Seq<GlyphBox>) -> int {
    glyphs[0].x + glyphs.last().x + glyphs.last().width
}

/// The box of a text, given where the font puts its glyphs: it starts at
/// the first glyph and at the highest glyph, is as wide as the text reaches
/// and as high as the tallest glyph. `None` for a text without a glyph, or
/// one that reaches beyond `usize::MAX`.
pub fn measure_string(glyphs: &[GlyphBox]) -> (bounds: Option<Rect>)
    ensures
        match bounds {
            Some(bounds) => {
                &&& glyphs.len() > 0
                &&& bounds.x == glyphs[0].x
                &&& bounds.y == top_of(glyphs@, glyphs.len() as int)
                &&& bounds.w == reach_of(glyphs@)
                &&& bounds.h == tallest_of(glyphs@, glyphs.len() as int)
            },
            None => glyphs.len() == 0 || reach_of(glyphs@) > usize::MAX,
        },
{
    if glyphs.len() == 0 {
        return None;
    }
    let first = glyphs[0];
    let last = glyphs[glyphs.len() - 1];
    let mut top: usize = first.y;
    let mut tallest: usize = 0;
    let mut i: usize = 0;
    while i < glyphs.len()
        invariant
            i <= glyphs.len(),
            glyphs.len() > 0,
            top == top_of(glyphs@, i as int),
            tallest == tallest_of(glyphs@, i as int),
        decreases glyphs.len() - i,
    {
        if glyphs[i].y < top {
            top = glyphs[i].y;
        }
        if glyphs[i].height > tallest {
            tallest = glyphs[i].height;
        }
        i += 1;
    }
    let ends = match last.x.checked_add(last.width) {
        Some(ends) => ends,
        None => {
            return None;
        },
    };
    match first.x.checked_add(ends) {
        Some(w) => Some(Rect { x: first.x, y: top, w, h: tallest }),
        None => None,
    }
}

// == Colour ==============================================

/// A colour channel, cut off at 255.
pub open spec fn channel(value: usize) -> int {
    if value > 255 {
        255
    } else {
        value as int
    }
}

/// A colour as one number: alpha in the highest byte, then red, green and
/// blue. A channel above 255 counts as 255.
pub fn rgb_to_u32(red: usize, green: usize, blue: usize, alpha: usize) -> (pixel: u32)
    ensures
        pixel == channel(alpha) * 0x100_0000 + channel(red) * 0x1_0000 + channel(green) * 0x100
            + channel(blue),
{
    let r: u32 = if red > 255 { 255 } else { red as u32 };
    let g: u32 = if green > 255 { 255 } else { green as u32 };
    let b: u32 = if blue > 255 { 255 } else { blue as u32 };
    let a: u32 = if alpha > 255 { 255 } else { alpha as u32 };
    assert(((a << 24) | (r << 16) | (g << 8) | b) == a * 0x100_0000 + r * 0x1_0000 + g * 0x100 + b)
        by (bit_vector)
        requires
            r <= 255,
            g <= 255,
            b <= 255,
            a <= 255,
    ;
    (a << 24) | (r << 16) | (g << 8) | b
}

} // verus!
