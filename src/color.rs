//! Color triplets: the 8-bit storage form and the fixed-point working form.
use vstd::prelude::*;
use crate::fixed::{SCALE, TOP};

verus! {

/// An 8-bit color triplet: red, green, blue.
#[derive(Clone, Copy, Debug, PartialEq, Eq, Structural)]
pub struct RGB(pub u8, pub u8, pub u8);

/// A fixed-point color triplet; one 8-bit level is `SCALE` units.
#[derive(Clone, Copy, Debug, PartialEq, Eq, Structural)]
pub struct Px {
    pub r: i64,
    pub g: i64,
    pub b: i64,
}

pub type Triple = (int, int, int);

impl Px {
    pub open spec fn val(self) -> Triple {
        (self.r as int, self.g as int, self.b as int)
    }
}

pub open spec fn add3(a: Triple, b: Triple) -> Triple {
    (a.0 + b.0, a.1 + b.1, a.2 + b.2)
}

pub open spec fn sub3(a: Triple, b: Triple) -> Triple {
    (a.0 - b.0, a.1 - b.1, a.2 - b.2)
}

pub open spec fn abs(x: int) -> int {
    if x < 0 { -x } else { x }
}

/// The exact fixed-point value of an 8-bit triplet.
pub open spec fn fixed_of(c: RGB) -> Triple {
    (c.0 * SCALE, c.1 * SCALE, c.2 * SCALE)
}

/// Luminance weights, in thousandths: 0.299 red, 0.587 green, 0.114 blue.
/// They sum to one.
pub open spec fn luma(c: RGB) -> int {
    (299 * c.0 + 587 * c.1 + 114 * c.2) * (SCALE / 1000)
}

/// Rounds a fixed-point value to the nearest 8-bit level (halves round up),
/// clamped to `0..=255`.
pub open spec fn level_of(v: int) -> int {
    if v <= 0 {
        0
    } else if v >= TOP {
        255
    } else {
        (v + SCALE / 2) / (SCALE as int)
    }
}

pub open spec fn channels_in_range(p: Px) -> bool {
    0 <= p.r <= TOP && 0 <= p.g <= TOP && 0 <= p.b <= TOP
}

impl RGB {
    /// The triplet `0xRRGGBB`; bits above the lowest 24 are ignored.
    pub open spec fn spec_from_hex(h: u32) -> RGB {
        RGB(((h / 0x10000) % 0x100) as u8, ((h / 0x100) % 0x100) as u8, (h % 0x100) as u8)
    }

    pub fn from_hex(h: u32) -> (r: RGB)
        ensures
            r == RGB::spec_from_hex(h),
    {
        RGB(((h / 0x10000) % 0x100) as u8, ((h / 0x100) % 0x100) as u8, (h % 0x100) as u8)
    }

    /// Exact conversion into the working form.
    pub fn to_fixed(self) -> (p: Px)
        ensures
            p.val() == fixed_of(self),
            channels_in_range(p),
    {
        Px { r: self.0 as i64 * SCALE, g: self.1 as i64 * SCALE, b: self.2 as i64 * SCALE }
    }

    /// The luminance of this color, replicated into all three channels.
    pub fn to_luma(self) -> (p: Px)
        ensures
            p.r == luma(self),
            p.g == p.r,
            p.b == p.r,
            channels_in_range(p),
    {
        let y: i64 = (299 * self.0 as i64 + 587 * self.1 as i64 + 114 * self.2 as i64) * 672;
        Px { r: y, g: y, b: y }
    }

    /// A gray triplet with each channel at `level`.
    pub fn gray(level: u8) -> (r: RGB)
        ensures
            r == RGB(level, level, level),
    {
        RGB(level, level, level)
    }
}

/// Rounds a fixed-point channel to the nearest 8-bit level, clamping to `0..=255`.
pub fn to_level(v: i64) -> (r: u8)
    ensures
        r == level_of(v as int),
{
    if v <= 0 {
        0
    } else if v >= TOP {
        255
    } else {
        ((v + SCALE / 2) / SCALE) as u8
    }
}

impl Px {
    /// Rounds each channel to the nearest 8-bit level.
    pub fn to_rgb(self) -> (c: RGB)
        ensures
            c.0 == level_of(self.r as int),
            c.1 == level_of(self.g as int),
            c.2 == level_of(self.b as int),
    {
        RGB(to_level(self.r), to_level(self.g), to_level(self.b))
    }
}

} // verus!
