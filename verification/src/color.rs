use vstd::prelude::*;

use crate::text::same_text;

verus! {

/// A colour with its opacity, as red, green and blue or as hue, saturation
/// and value.
#[derive(Clone, Copy, Debug, PartialEq, Eq, Structural)]
pub enum Color {
    RGBA(u8, u8, u8, u8),
    HSVA(u8, u8, u8, u8),
}

/// The colour that a name stands for, if it is one of the known names.
pub open spec fn named(color_name: Seq<char>) -> Option<Color> {
    if color_name == "black"@ {
        Some(Color::RGBA(0, 0, 0, 255))
    } else if color_name == "white"@ {
        Some(Color::RGBA(255, 255, 255, 255))
    } else if color_name == "red"@ {
        Some(Color::RGBA(255, 0, 0, 255))
    } else if color_name == "blue"@ {
        Some(Color::RGBA(0, 0, 255, 255))
    } else if color_name == "green"@ {
        Some(Color::RGBA(0, 255, 0, 255))
    } else if color_name == "purple"@ {
        Some(Color::RGBA(170, 0, 140, 255))
    } else if color_name == "whine_red"@ {
        Some(Color::RGBA(88, 24, 31, 255))
    } else {
        None
    }
}

/// One channel of a colour laid over another: the share `alpha / 255` of
/// `over` and the rest of `under`, rounded down.
pub open spec fn mix(over: u8, under: u8, alpha: u8) -> u8 {
    ((over * alpha + under * (255 - alpha)) / 255) as u8
}

impl Color {
    pub fn new_rgba(r: u8, g: u8, b: u8, a: u8) -> (color: Self)
        ensures
            color == Color::RGBA(r, g, b, a),
    {
        Self::RGBA(r, g, b, a)
    }

    pub fn new_hsva(h: u8, s: u8, v: u8, a: u8) -> (color: Self)
        ensures
            color == Color::HSVA(h, s, v, a),
    {
        Self::HSVA(h, s, v, a)
    }

    /// The colour of a name, or nothing for an unknown name.
    pub fn by_name(color_name: &str) -> (color: Option<Self>)
        ensures
            color == named(color_name@),
    {
        if same_text(color_name, "black") {
            Some(Self::new_rgba(0, 0, 0, 255))
        } else if same_text(color_name, "white") {
            Some(Self::new_rgba(255, 255, 255, 255))
        } else if same_text(color_name, "red") {
            Some(Self::new_rgba(255, 0, 0, 255))
        } else if same_text(color_name, "blue") {
            Some(Self::new_rgba(0, 0, 255, 255))
        } else if same_text(color_name, "green") {
            Some(Self::new_rgba(0, 255, 0, 255))
        } else if same_text(color_name, "purple") {
            Some(Self::new_rgba(170, 0, 140, 255))
        } else if same_text(color_name, "whine_red") {
            Some(Self::new_rgba(88, 24, 31, 255))
        } else {
            None
        }
    }

    /// The colour of a known name.
    pub fn from_str(color_name: &str) -> (color: Self)
        requires
            named(color_name@) is Some,
        ensures
            Some(color) == named(color_name@),
    {
        match Self::by_name(color_name) {
            Some(color) => color,
            None => vstd::pervasive::unreached(),
        }
    }

    /// The four channels in the order of the variant's fields.
    pub open spec fn channels(&self) -> Seq<u8> {
        match self {
            Color::RGBA(r, g, b, a) => seq![*r, *g, *b, *a],
            Color::HSVA(h, s, v, a) => seq![*h, *s, *v, *a],
        }
    }

    pub fn to_slice(&self) -> (slice: [u8; 4])
        ensures
            slice@ == self.channels(),
    {
        let slice = match self {
            Self::RGBA(r, g, b, a) => [*r, *g, *b, *a],
            Self::HSVA(h, s, v, a) => [*h, *s, *v, *a],
        };
        assert(slice@ =~= self.channels());
        slice
    }

    /// The colour whose red, green, blue and opacity are the four bytes.
    pub fn rgba_from_slice(slice: &[u8; 4]) -> (color: Self)
        ensures
            color == Color::RGBA(slice[0], slice[1], slice[2], slice[3]),
    {
        Self::RGBA(slice[0], slice[1], slice[2], slice[3])
    }

    /// This colour laid over `under`, see [`mix`]: each of red, green and
    /// blue is mixed by this colour's opacity, and the opacity is that of this
    /// colour over that of `under`.
    pub open spec fn spec_blend(&self, under: &Self) -> Self {
        let over = self.channels();
        let below = under.channels();
        Color::RGBA(
            mix(over[0], below[0], over[3]),
            mix(over[1], below[1], over[3]),
            mix(over[2], below[2], over[3]),
            mix(255, below[3], over[3]),
        )
    }

    pub fn blend(&self, under: &Self) -> (color: Self)
        ensures
            color == self.spec_blend(under),
    {
        let over = self.to_slice();
        let below = under.to_slice();
        Self::RGBA(
            mix_channel(over[0], below[0], over[3]),
            mix_channel(over[1], below[1], over[3]),
            mix_channel(over[2], below[2], over[3]),
            mix_channel(255, below[3], over[3]),
        )
    }
}

fn mix_channel(over: u8, under: u8, alpha: u8) -> (mixed: u8)
    ensures
        mixed == mix(over, under, alpha),
{
    assert(over * alpha + under * (255 - alpha) <= 255 * 255 && over * alpha <= 255 * 255 && under
        * (255 - alpha) <= 255 * 255) by (nonlinear_arith)
        requires
            0 <= over <= 255,
            0 <= under <= 255,
            0 <= alpha <= 255,
    ;
    let share: u32 = over as u32 * alpha as u32;
    let rest: u32 = under as u32 * (255 - alpha as u32);
    ((share + rest) / 255) as u8
}

} // verus!
