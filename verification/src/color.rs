//! The 16-entry color palette and the 4-bit color values that index it.

use vstd::prelude::*;

verus! {

/// One of the sixteen palette colors a pixel can take.
///
/// The numeric value of a variant (`u8`) is carried on the wire and in
/// storage; the RGB triple it maps to is a process-wide constant and must
/// stay bit-identical everywhere the palette is used.
#[derive(Debug, Clone, Copy, PartialEq, Eq, Structural)]
pub enum Color {
    Zero,
    One,
    Two,
    Three,
    Four,
    Five,
    Six,
    Seven,
    Eight,
    Nine,
    Ten,
    Eleven,
    Twelve,
    Thirteen,
    Fourteen,
    Fifteen,
}

impl Color {
    /// The 4-bit numeric value of this color.
    pub open spec fn spec_u8(self) -> u8 {
        match self {
            Color::Zero => 0,
            Color::One => 1,
            Color::Two => 2,
            Color::Three => 3,
            Color::Four => 4,
            Color::Five => 5,
            Color::Six => 6,
            Color::Seven => 7,
            Color::Eight => 8,
            Color::Nine => 9,
            Color::Ten => 10,
            Color::Eleven => 11,
            Color::Twelve => 12,
            Color::Thirteen => 13,
            Color::Fourteen => 14,
            Color::Fifteen => 15,
        }
    }

    /// The color with the given 4-bit value, or `None` above 15.
    pub fn new(value: u8) -> (r: Option<Color>)
        ensures
            r is Some <==> value < 16,
            r is Some ==> r->0.spec_u8() == value,
    {
        match value {
            0 => Some(Color::Zero),
            1 => Some(Color::One),
            2 => Some(Color::Two),
            3 => Some(Color::Three),
            4 => Some(Color::Four),
            5 => Some(Color::Five),
            6 => Some(Color::Six),
            7 => Some(Color::Seven),
            8 => Some(Color::Eight),
            9 => Some(Color::Nine),
            10 => Some(Color::Ten),
            11 => Some(Color::Eleven),
            12 => Some(Color::Twelve),
            13 => Some(Color::Thirteen),
            14 => Some(Color::Fourteen),
            15 => Some(Color::Fifteen),
            _ => None,
        }
    }

    /// This color as its 4-bit numeric value.
    #[verifier::when_used_as_spec(spec_u8)]
    pub fn u8(self) -> (r: u8)
        ensures
            r == self.spec_u8(),
    {
        match self {
            Color::Zero => 0,
            Color::One => 1,
            Color::Two => 2,
            Color::Three => 3,
            Color::Four => 4,
            Color::Five => 5,
            Color::Six => 6,
            Color::Seven => 7,
            Color::Eight => 8,
            Color::Nine => 9,
            Color::Ten => 10,
            Color::Eleven => 11,
            Color::Twelve => 12,
            Color::Thirteen => 13,
            Color::Fourteen => 14,
            Color::Fifteen => 15,
        }
    }

    /// The RGB triple of the palette entry with the given index.
    pub open spec fn spec_palette(i: int) -> (u8, u8, u8) {
        if i == 0 {
            (224, 211, 200)
        } else if i == 1 {
            (245, 238, 176)
        } else if i == 2 {
            (250, 191, 97)
        } else if i == 3 {
            (224, 141, 81)
        } else if i == 4 {
            (138, 88, 101)
        } else if i == 5 {
            (69, 43, 63)
        } else if i == 6 {
            (44, 94, 59)
        } else if i == 7 {
            (96, 156, 79)
        } else if i == 8 {
            (198, 204, 84)
        } else if i == 9 {
            (120, 194, 214)
        } else if i == 10 {
            (84, 121, 176)
        } else if i == 11 {
            (86, 84, 110)
        } else if i == 12 {
            (131, 158, 166)
        } else if i == 13 {
            (240, 91, 91)
        } else if i == 14 {
            (143, 50, 95)
        } else {
            (235, 108, 152)
        }
    }

    /// This color as the RGB value from the palette.
    pub fn to_rgb(&self) -> (r: (u8, u8, u8))
        ensures
            r == Color::spec_palette(self.spec_u8() as int),
    {
        match self {
            Color::Zero => (224, 211, 200),
            Color::One => (245, 238, 176),
            Color::Two => (250, 191, 97),
            Color::Three => (224, 141, 81),
            Color::Four => (138, 88, 101),
            Color::Five => (69, 43, 63),
            Color::Six => (44, 94, 59),
            Color::Seven => (96, 156, 79),
            Color::Eight => (198, 204, 84),
            Color::Nine => (120, 194, 214),
            Color::Ten => (84, 121, 176),
            Color::Eleven => (86, 84, 110),
            Color::Twelve => (131, 158, 166),
            Color::Thirteen => (240, 91, 91),
            Color::Fourteen => (143, 50, 95),
            Color::Fifteen => (235, 108, 152),
        }
    }

    /// The whole palette, in index order.
    pub fn all_colors_rgb() -> (r: Vec<(u8, u8, u8)>)
        ensures
            r@.len() == 16,
            forall|i: int| 0 <= i < 16 ==> r@[i] == Color::spec_palette(i),
    {
        let r: Vec<(u8, u8, u8)> = vec![
            (224, 211, 200),
            (245, 238, 176),
            (250, 191, 97),
            (224, 141, 81),
            (138, 88, 101),
            (69, 43, 63),
            (44, 94, 59),
            (96, 156, 79),
            (198, 204, 84),
            (120, 194, 214),
            (84, 121, 176),
            (86, 84, 110),
            (131, 158, 166),
            (240, 91, 91),
            (143, 50, 95),
            (235, 108, 152),
        ];
        assert(forall|i: int| 0 <= i < 16 ==> r@[i] == Color::spec_palette(i));
        r
    }

    /// The palette index of an RGB triple: the first matching entry, or 0
    /// when the triple is not in the palette.
    pub fn rgb_to_index(r: u8, g: u8, b: u8) -> (idx: u8)
        ensures
            idx < 16,
            ({
                let found = exists|i: int| 0 <= i < 16 && Color::spec_palette(i) == (r, g, b);
                if found {
                    Color::spec_palette(idx as int) == (r, g, b)
                        && forall|i: int|
                        0 <= i < idx ==> Color::spec_palette(i) != (r, g, b)
                } else {
                    idx == 0
                }
            }),
    {
        let colors = Color::all_colors_rgb();
        let mut idx: usize = 0;
        while idx < 16
            invariant
                idx <= 16,
                colors@.len() == 16,
                forall|i: int| 0 <= i < 16 ==> colors@[i] == Color::spec_palette(i),
                forall|i: int| 0 <= i < idx ==> Color::spec_palette(i) != (r, g, b),
            decreases 16 - idx,
        {
            let (cr, cg, cb) = colors[idx];
            if r == cr && g == cg && b == cb {
                return idx as u8;
            }
            idx = idx + 1;
        }
        0
    }

    /// The palette index of this color: palette indices agree with the 4-bit
    /// values, so this is the color's own numeric value.
    pub fn to_index(&self) -> (idx: u8)
        ensures
            idx == self.spec_u8(),
    {
        let (r, g, b) = self.to_rgb();
        let idx = Color::rgb_to_index(r, g, b);
        proof {
            lemma_palette_injective();
            assert(Color::spec_palette(self.spec_u8() as int) == (r, g, b));
        }
        idx
    }
}

/// No two palette entries share an RGB triple.
pub proof fn lemma_palette_injective()
    ensures
        forall|i: int, j: int|
            0 <= i < 16 && 0 <= j < 16 && i != j ==> Color::spec_palette(i) != Color::spec_palette(
                j,
            ),
{
}

} // verus!
