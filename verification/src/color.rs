//! The hue circle's six sextants and three primaries.
//!
//! Turning a hue, a saturation and a value into red, green and blue yields
//! three levels: the largest channel, the smallest, and one between them.
//! Which channel gets which level depends only on the sixth of the hue
//! circle that the hue lies in. Turning back, the hue is the hue of the
//! largest channel plus a correction from the other two. Those choices are
//! made here; the levels themselves are the caller's arithmetic.

use vstd::prelude::*;

verus! {

/// A sixth of the hue circle, sixty degrees wide, named by the colours at
/// its two ends.
#[derive(Clone, Copy, Debug, PartialEq, Eq)]
pub enum Sextant {
    RedToYellow,
    YellowToGreen,
    GreenToCyan,
    CyanToBlue,
    BlueToMagenta,
    MagentaToRed,
}

impl Sextant {
    /// The sextant's place on the circle, counted from red.
    pub open spec fn spec_index(self) -> u8 {
        match self {
            Sextant::RedToYellow => 0,
            Sextant::YellowToGreen => 1,
            Sextant::GreenToCyan => 2,
            Sextant::CyanToBlue => 3,
            Sextant::BlueToMagenta => 4,
            Sextant::MagentaToRed => 5,
        }
    }

    /// Red, green and blue for the three levels in this sextant.
    pub open spec fn spec_arrange<T>(self, max: T, mid: T, min: T) -> (T, T, T) {
        match self {
            Sextant::RedToYellow => (max, mid, min),
            Sextant::YellowToGreen => (mid, max, min),
            Sextant::GreenToCyan => (min, max, mid),
            Sextant::CyanToBlue => (min, mid, max),
            Sextant::BlueToMagenta => (mid, min, max),
            Sextant::MagentaToRed => (max, min, mid),
        }
    }

    /// The three levels, largest first, of a colour that lies in this
    /// sextant.
    pub open spec fn spec_levels<T>(self, rgb: (T, T, T)) -> (T, T, T) {
        match self {
            Sextant::RedToYellow => (rgb.0, rgb.1, rgb.2),
            Sextant::YellowToGreen => (rgb.1, rgb.0, rgb.2),
            Sextant::GreenToCyan => (rgb.1, rgb.2, rgb.0),
            Sextant::CyanToBlue => (rgb.2, rgb.1, rgb.0),
            Sextant::BlueToMagenta => (rgb.2, rgb.0, rgb.1),
            Sextant::MagentaToRed => (rgb.0, rgb.2, rgb.1),
        }
    }

    /// The sextant that a hue lies in, given how many whole sixths of the
    /// circle the hue has passed. The circle closes: six sixths is red
    /// again.
    pub fn of_sixths(sixths: u8) -> (sextant: Sextant)
        ensures
            sextant.spec_index() == sixths % 6,
    {
        match sixths % 6 {
            0 => Sextant::RedToYellow,
            1 => Sextant::YellowToGreen,
            2 => Sextant::GreenToCyan,
            3 => Sextant::CyanToBlue,
            4 => Sextant::BlueToMagenta,
            _ => Sextant::MagentaToRed,
        }
    }

    /// The sextant's place on the circle, counted from red.
    pub fn index(self) -> (index: u8)
        ensures
            index == self.spec_index(),
            index < 6,
    {
        match self {
            Sextant::RedToYellow => 0,
            Sextant::YellowToGreen => 1,
            Sextant::GreenToCyan => 2,
            Sextant::CyanToBlue => 3,
            Sextant::BlueToMagenta => 4,
            Sextant::MagentaToRed => 5,
        }
    }

    /// Hands the three levels to red, green and blue.
    pub fn arrange<T>(self, max: T, mid: T, min: T) -> (rgb: (T, T, T))
        ensures
            rgb == self.spec_arrange(max, mid, min),
    {
        match self {
            Sextant::RedToYellow => (max, mid, min),
            Sextant::YellowToGreen => (mid, max, min),
            Sextant::GreenToCyan => (min, max, mid),
            Sextant::CyanToBlue => (min, mid, max),
            Sextant::BlueToMagenta => (mid, min, max),
            Sextant::MagentaToRed => (max, min, mid),
        }
    }
}

/// Arranging loses nothing: from the colour and its sextant the three levels
/// are read back as they were, and a colour read into levels is arranged
/// back into itself.
pub proof fn lemma_arrange_round_trip<T>(sextant: Sextant, a: T, b: T, c: T)
    ensures
        sextant.spec_levels(sextant.spec_arrange(a, b, c)) == (a, b, c),
        sextant.spec_arrange(
            sextant.spec_levels((a, b, c)).0,
            sextant.spec_levels((a, b, c)).1,
            sextant.spec_levels((a, b, c)).2,
        ) == (a, b, c),
{
}

/// A place on the circle names one sextant only.
pub proof fn lemma_index_names_one(a: Sextant, b: Sextant)
    requires
        a.spec_index() == b.spec_index(),
    ensures
        a == b,
{
}

/// One of the three channels of a colour.
#[derive(Clone, Copy, Debug, PartialEq, Eq)]
pub enum Channel {
    Red,
    Green,
    Blue,
}

impl Channel {
    /// The hue of the channel's own colour, in degrees.
    pub open spec fn spec_hue_degrees(self) -> u16 {
        match self {
            Channel::Red => 0,
            Channel::Green => 120,
            Channel::Blue => 240,
        }
    }

    /// The two channels that correct the hue, as (ahead, behind): ahead is
    /// the channel that comes next on the circle.
    pub open spec fn spec_correction<T>(self, r: T, g: T, b: T) -> (T, T) {
        match self {
            Channel::Red => (g, b),
            Channel::Green => (b, r),
            Channel::Blue => (r, g),
        }
    }

    /// The channel that the hue is measured from, given which channels
    /// hold the largest level: red before green, green before blue.
    pub fn dominant(red_is_max: bool, green_is_max: bool) -> (channel: Channel)
        ensures
            channel == if red_is_max {
                Channel::Red
            } else if green_is_max {
                Channel::Green
            } else {
                Channel::Blue
            },
    {
        if red_is_max {
            Channel::Red
        } else if green_is_max {
            Channel::Green
        } else {
            Channel::Blue
        }
    }

    /// The hue of the channel's own colour, in degrees.
    pub fn hue_degrees(self) -> (degrees: u16)
        ensures
            degrees == self.spec_hue_degrees(),
    {
        match self {
            Channel::Red => 0,
            Channel::Green => 120,
            Channel::Blue => 240,
        }
    }

    /// Picks the two levels whose difference corrects the hue: the hue
    /// lies ahead of the channel's own by a sixth of the circle for each
    /// chrominance that the first exceeds the second by.
    pub fn correction<T>(self, r: T, g: T, b: T) -> (pair: (T, T))
        ensures
            pair == self.spec_correction(r, g, b),
    {
        match self {
            Channel::Red => (g, b),
            Channel::Green => (b, r),
            Channel::Blue => (r, g),
        }
    }
}

impl Sextant {
    /// The channel that holds the largest level in this sextant.
    pub open spec fn spec_dominant(self) -> Channel {
        match self {
            Sextant::RedToYellow | Sextant::MagentaToRed => Channel::Red,
            Sextant::YellowToGreen | Sextant::GreenToCyan => Channel::Green,
            Sextant::CyanToBlue | Sextant::BlueToMagenta => Channel::Blue,
        }
    }

    /// Whether the sextant lies ahead of its dominant channel's own hue.
    pub open spec fn spec_is_ahead(self) -> bool {
        self.spec_index() % 2 == 0
    }
}

/// The way back finds the sextant again. For levels `max > mid >= min`
/// arranged in a sextant: the largest channel is the sextant's dominant one
/// and no other channel reaches it; the correction is the middle level's
/// height over the smallest, ahead of the dominant hue in the sextants that
/// lie ahead of it and behind it in the others; and the dominant hue is the
/// end of the sextant that the correction is measured from.
pub proof fn lemma_dominant_finds_sextant(sextant: Sextant, max: int, mid: int, min: int)
    requires
        max > mid >= min,
    ensures
        ({
            let (r, g, b) = sextant.spec_arrange(max, mid, min);
            let found = if r >= g && r >= b {
                Channel::Red
            } else if g >= b {
                Channel::Green
            } else {
                Channel::Blue
            };
            let (ahead, behind) = found.spec_correction(r, g, b);
            &&& found == sextant.spec_dominant()
            &&& ahead - behind == if sextant.spec_is_ahead() {
                mid - min
            } else {
                min - mid
            }
            &&& found.spec_hue_degrees() == if sextant.spec_is_ahead() {
                60 * sextant.spec_index()
            } else {
                (60 * (sextant.spec_index() + 1)) % 360
            }
        }),
{
}

} // verus!
