//! Color modes and how a `--color` option names one.
use vstd::prelude::*;
use vstd::string::{StrSliceExecFns, StringExecFns};
use crate::color::RGB;
use crate::text::{eq_upper, find_space, hex_token_value, matches_upper, parse_hex_token};

verus! {

/// The CGA colors as `0xRRGGBB`.
pub const BLACK: u32 = 0x00_00_00;
pub const BLUE: u32 = 0x00_00_AA;
pub const GREEN: u32 = 0x00_AA_00;
pub const CYAN: u32 = 0x00_AA_AA;
pub const RED: u32 = 0xAA_00_00;
pub const MAGENTA: u32 = 0xAA_00_AA;
pub const BROWN: u32 = 0xAA_55_00;
pub const LIGHT_GRAY: u32 = 0xAA_AA_AA;
pub const GRAY: u32 = 0x55_55_55;
pub const LIGHT_BLUE: u32 = 0x55_55_FF;
pub const LIGHT_GREEN: u32 = 0x55_FF_55;
pub const LIGHT_CYAN: u32 = 0x55_FF_FF;
pub const LIGHT_RED: u32 = 0xFF_55_55;
pub const LIGHT_MAGENTA: u32 = 0xFF_55_FF;
pub const YELLOW: u32 = 0xFF_FF_55;
pub const WHITE: u32 = 0xFF_FF_FF;

/// The sixteen CGA colors in palette order.
pub open spec fn cga_hex() -> Seq<u32> {
    seq![
        BLACK, BLUE, GREEN, CYAN, RED, MAGENTA, BROWN, LIGHT_GRAY,
        GRAY, LIGHT_BLUE, LIGHT_GREEN, LIGHT_CYAN, LIGHT_RED, LIGHT_MAGENTA, YELLOW, WHITE
    ]
}

pub open spec fn cga_colors() -> Seq<RGB> {
    cga_hex().map_values(|h: u32| RGB::spec_from_hex(h))
}

/// The color mode the program runs in.
#[derive(Clone, Debug, PartialEq, Eq)]
pub enum Mode {
    /// One color, from black to that color.
    SingleColor(RGB),
    /// Each channel on its own, to the bit depth.
    Color,
    /// Grayscale, to the bit depth.
    BlackAndWhite,
    /// A named fixed palette.
    KnownPalette { palette: Vec<RGB>, name: String },
    /// A blend from `back` to `front`.
    CustomPalette { front: RGB, back: RGB },
}

/// An error in a `--color` option.
#[derive(Clone, Debug, PartialEq, Eq)]
pub enum Error {
    /// An unknown or unimplemented option.
    UnknownOption(String),
    /// A palette color outside `0..=0xFF_FF_FF`.
    BadPaletteColor(u32),
    /// A palette token that is not a hexadecimal number (the token).
    CouldNotParsePalette(String),
}

/// The single color that a CGA color name selects (`WHITE` and `BLACK`
/// select grayscale instead).
pub open spec fn named_color(s: Seq<char>) -> Option<u32> {
    if eq_upper(s, "BLUE"@) { Some(BLUE) }
    else if eq_upper(s, "GREEN"@) { Some(GREEN) }
    else if eq_upper(s, "CYAN"@) { Some(CYAN) }
    else if eq_upper(s, "RED"@) { Some(RED) }
    else if eq_upper(s, "MAGENTA"@) { Some(MAGENTA) }
    else if eq_upper(s, "BROWN"@) { Some(BROWN) }
    else if eq_upper(s, "LIGHT_GRAY"@) { Some(LIGHT_GRAY) }
    else if eq_upper(s, "GRAY"@) { Some(GRAY) }
    else if eq_upper(s, "LIGHT_BLUE"@) { Some(LIGHT_BLUE) }
    else if eq_upper(s, "LIGHT_GREEN"@) { Some(LIGHT_GREEN) }
    else if eq_upper(s, "LIGHT_CYAN"@) { Some(LIGHT_CYAN) }
    else if eq_upper(s, "LIGHT_RED"@) { Some(LIGHT_RED) }
    else if eq_upper(s, "LIGHT_MAGENTA"@) { Some(LIGHT_MAGENTA) }
    else if eq_upper(s, "YELLOW"@) { Some(YELLOW) }
    else { None }
}

fn lookup_color(s: &str) -> (r: Option<u32>)
    ensures
        r == named_color(s@),
{
    if matches_upper(s, "BLUE") { Some(BLUE) }
    else if matches_upper(s, "GREEN") { Some(GREEN) }
    else if matches_upper(s, "CYAN") { Some(CYAN) }
    else if matches_upper(s, "RED") { Some(RED) }
    else if matches_upper(s, "MAGENTA") { Some(MAGENTA) }
    else if matches_upper(s, "BROWN") { Some(BROWN) }
    else if matches_upper(s, "LIGHT_GRAY") { Some(LIGHT_GRAY) }
    else if matches_upper(s, "GRAY") { Some(GRAY) }
    else if matches_upper(s, "LIGHT_BLUE") { Some(LIGHT_BLUE) }
    else if matches_upper(s, "LIGHT_GREEN") { Some(LIGHT_GREEN) }
    else if matches_upper(s, "LIGHT_CYAN") { Some(LIGHT_CYAN) }
    else if matches_upper(s, "LIGHT_RED") { Some(LIGHT_RED) }
    else if matches_upper(s, "LIGHT_MAGENTA") { Some(LIGHT_MAGENTA) }
    else if matches_upper(s, "YELLOW") { Some(YELLOW) }
    else { None }
}

pub open spec fn is_gray_word(s: Seq<char>) -> bool {
    eq_upper(s, "WHITE"@) || eq_upper(s, "BLACK"@) || eq_upper(s, "BW"@)
}

pub open spec fn is_color_word(s: Seq<char>) -> bool {
    eq_upper(s, "C"@) || eq_upper(s, "COLOR"@)
}

pub open spec fn is_cga_word(s: Seq<char>) -> bool {
    eq_upper(s, "CGA"@)
}

/// A keyword or a color name: what is not read as a palette.
pub open spec fn is_word(s: Seq<char>) -> bool {
    is_gray_word(s) || is_color_word(s) || is_cga_word(s) || named_color(s) is Some
}

/// `k` is the first space of `s`.
pub open spec fn first_space_at(s: Seq<char>, k: int) -> bool {
    0 <= k < s.len() && s[k] == ' ' && forall|j: int| 0 <= j < k ==> s[j] != ' '
}

/// What the two tokens `front back` of a custom palette give.
pub open spec fn palette_result(t1: Seq<char>, t2: Seq<char>, r: Result<Mode, Error>) -> bool {
    match (hex_token_value(t1), hex_token_value(t2)) {
        (None, _) => r matches Err(Error::CouldNotParsePalette(o)) && o@ == t1,
        (Some(_), None) => r matches Err(Error::CouldNotParsePalette(o)) && o@ == t2,
        (Some(v1), Some(v2)) => if v1 > 0xFF_FF_FF {
            r == Err::<Mode, Error>(Error::BadPaletteColor(v1 as u32))
        } else if v2 > 0xFF_FF_FF {
            r == Err::<Mode, Error>(Error::BadPaletteColor(v2 as u32))
        } else {
            r == Ok::<Mode, Error>(Mode::CustomPalette {
                front: RGB::spec_from_hex(v1 as u32),
                back: RGB::spec_from_hex(v2 as u32),
            })
        },
    }
}

/// The CGA palette mode.
pub open spec fn is_cga_mode(m: Mode) -> bool {
    m matches Mode::KnownPalette { palette, name } && palette@ == cga_colors() && name@ == "CGA"@
}

impl Mode {
    /// The sixteen-color CGA palette.
    pub fn cga_palette() -> (m: Mode)
        ensures
            is_cga_mode(m),
    {
        let palette = vec![
            RGB::from_hex(BLACK), RGB::from_hex(BLUE), RGB::from_hex(GREEN), RGB::from_hex(CYAN),
            RGB::from_hex(RED), RGB::from_hex(MAGENTA), RGB::from_hex(BROWN), RGB::from_hex(LIGHT_GRAY),
            RGB::from_hex(GRAY), RGB::from_hex(LIGHT_BLUE), RGB::from_hex(LIGHT_GREEN), RGB::from_hex(LIGHT_CYAN),
            RGB::from_hex(LIGHT_RED), RGB::from_hex(LIGHT_MAGENTA), RGB::from_hex(YELLOW), RGB::from_hex(WHITE),
        ];
        let name = String::from_str("CGA");
        proof {
            assert(palette@ =~= cga_colors());
        }
        Mode::KnownPalette { palette, name }
    }

    /// Reads a `--color` option: `bw` (or `white`, `black`), `c` or `color`,
    /// `cga`, a CGA color name, all in any ASCII case; or a custom palette
    /// `0xRRGGBB 0xRRGGBB` (front, then back).
    pub fn parse(s: &str) -> (r: Result<Mode, Error>)
        ensures
            is_gray_word(s@) ==> r == Ok::<Mode, Error>(Mode::BlackAndWhite),
            !is_gray_word(s@) && is_color_word(s@) ==> r == Ok::<Mode, Error>(Mode::Color),
            !is_gray_word(s@) && !is_color_word(s@) && is_cga_word(s@) ==> (r matches Ok(m) && is_cga_mode(m)),
            !is_gray_word(s@) && !is_color_word(s@) && !is_cga_word(s@) && named_color(s@) is Some
                ==> r == Ok::<Mode, Error>(Mode::SingleColor(RGB::spec_from_hex(named_color(s@)->0))),
            forall|k: int| !is_word(s@) && first_space_at(s@, k)
                ==> palette_result(s@.subrange(0, k), s@.subrange(k + 1, s@.len() as int), r),
            !is_word(s@) && (forall|k: int| 0 <= k < s@.len() ==> s@[k] != ' ')
                ==> (r matches Err(Error::UnknownOption(o)) && o@ == s@),
    {
        if matches_upper(s, "WHITE") || matches_upper(s, "BLACK") || matches_upper(s, "BW") {
            return Ok(Mode::BlackAndWhite);
        }
        if matches_upper(s, "C") || matches_upper(s, "COLOR") {
            return Ok(Mode::Color);
        }
        if matches_upper(s, "CGA") {
            return Ok(Mode::cga_palette());
        }
        if let Some(h) = lookup_color(s) {
            return Ok(Mode::SingleColor(RGB::from_hex(h)));
        }
        match find_space(s) {
            None => Err(Error::UnknownOption(String::from_str(s))),
            Some(k) => {
                let n = s.unicode_len();
                let t1 = s.substring_char(0, k);
                let t2 = s.substring_char(k + 1, n);
                proof {
                    assert forall|j: int| first_space_at(s@, j) implies j == k by {
                        if j < k as int {
                        } else if j > k as int {
                            assert(s@[k as int] == ' ');
                        }
                    }
                }
                match parse_hex_token(t1) {
                    None => Err(Error::CouldNotParsePalette(String::from_str(t1))),
                    Some(v1) => match parse_hex_token(t2) {
                        None => Err(Error::CouldNotParsePalette(String::from_str(t2))),
                        Some(v2) => {
                            if v1 > 0xFF_FF_FF {
                                Err(Error::BadPaletteColor(v1))
                            } else if v2 > 0xFF_FF_FF {
                                Err(Error::BadPaletteColor(v2))
                            } else {
                                Ok(Mode::CustomPalette { front: RGB::from_hex(v1), back: RGB::from_hex(v2) })
                            }
                        },
                    },
                }
            },
        }
    }

    /// Whether this mode fixes its output colors by a palette.
    pub open spec fn spec_is_palette(&self) -> bool {
        self is KnownPalette || self is CustomPalette
    }

    pub fn is_palette(&self) -> (r: bool)
        ensures
            r == self.spec_is_palette(),
    {
        match self {
            Mode::KnownPalette { .. } | Mode::CustomPalette { .. } => true,
            _ => false,
        }
    }
}

impl Default for Mode {
    fn default() -> (m: Mode)
        ensures
            m == Mode::BlackAndWhite,
    {
        Mode::BlackAndWhite
    }
}

impl std::str::FromStr for Mode {
    type Err = Error;

    fn from_str(s: &str) -> Result<Mode, Error> {
        Mode::parse(s)
    }
}

} // verus!
