//! From escape time to pixel color.
//!
//! A point whose orbit stays bounded is black. A point that escapes at
//! iteration `t` gets the color of hue `t / MAX_ITERATIONS` of a full turn,
//! saturation 0.3 and lightness 0.6 in the HSL model. The HSL to RGB
//! conversion is floating point and is done by the caller once per escape
//! time; the results form a palette indexed by escape time.
use vstd::prelude::*;
use crate::escape::MAX_ITERATIONS;

verus! {

/// An 8-bit RGB color.
#[derive(Clone, Copy, Debug, PartialEq, Eq, Structural)]
pub struct Color {
    pub r: u8,
    pub g: u8,
    pub b: u8,
}

/// What a pixel shows.
#[derive(Clone, Copy, Debug, PartialEq, Eq, Structural)]
pub enum Shade {
    /// The orbit stayed bounded: the point belongs to the set.
    Black,
    /// The orbit escaped at the given iteration; its hue is that iteration's
    /// fraction of `MAX_ITERATIONS`, as a fraction of a full turn.
    Hue(usize),
}

/// Pure black, `(0, 0, 0)`.
pub open spec fn black_spec() -> Color {
    Color { r: 0, g: 0, b: 0 }
}

/// The shade of a point with the given escape time.
pub open spec fn shade_of(escape_time: Option<nat>) -> Shade {
    match escape_time {
        None => Shade::Black,
        Some(t) => Shade::Hue(t as usize),
    }
}

/// The shade that `color_map` gives an escape time.
pub open spec fn color_map_spec(escape_time: Option<usize>) -> Shade {
    match escape_time {
        None => Shade::Black,
        Some(t) => Shade::Hue(t),
    }
}

/// The color that `shade` stands for, with `palette[t]` the RGB value of
/// the hue of escape time `t`.
pub open spec fn color_of(shade: Shade, palette: Seq<Color>) -> Color {
    match shade {
        Shade::Black => black_spec(),
        Shade::Hue(t) => palette[t as int],
    }
}

/// A palette holds one color for each escape time within the budget.
pub open spec fn palette_complete(palette: Seq<Color>) -> bool {
    palette.len() == MAX_ITERATIONS
}

/// Pure black.
pub fn black() -> (c: Color)
    ensures
        c == black_spec(),
{
    Color { r: 0, g: 0, b: 0 }
}

/// Maps an escape time to a shade: no escape is black, escape at `t` is the
/// hue of `t`.
pub fn color_map(escape_time: Option<usize>) -> (s: Shade)
    ensures
        s == color_map_spec(escape_time),
{
    match escape_time {
        None => Shade::Black,
        Some(t) => Shade::Hue(t),
    }
}

/// The RGB value of `shade`, taking hues from `palette`.
pub fn pixel_color(shade: Shade, palette: &[Color]) -> (c: Color)
    requires
        shade matches Shade::Hue(t) ==> t < palette@.len(),
    ensures
        c == color_of(shade, palette@),
{
    match shade {
        Shade::Black => black(),
        Shade::Hue(t) => palette[t],
    }
}

/// The color of a point that never escapes is exactly `(0, 0, 0)`, whatever
/// the palette; equal escape times are mapped to the same shade, and so to
/// the same color on every channel.
pub proof fn lemma_color_map_transparent(t1: Option<usize>, t2: Option<usize>, palette: Seq<Color>)
    ensures
        color_map_spec(None) == Shade::Black,
        color_of(color_map_spec(None), palette) == (Color { r: 0, g: 0, b: 0 }),
        t1 == t2 ==> color_map_spec(t1) == color_map_spec(t2),
        t1 == t2 ==> color_of(color_map_spec(t1), palette) == color_of(color_map_spec(t2), palette),
{
}

} // verus!
