//! The names that make up a default output file name.
use vstd::prelude::*;
use vstd::string::{StrSliceExecFns, StringExecFns};
use crate::color::RGB;
use crate::error::{Error, IOError};
use crate::mode;
use crate::kernel::Ditherer;
use crate::mode::Mode;
use crate::text::{eq_upper, matches_upper};

verus! {

pub open spec fn digit_char(d: int) -> char {
    "0123456789abcdef"@[d]
}

/// Two lower-case hexadecimal digits.
pub open spec fn hex2(v: u8) -> Seq<char> {
    seq![digit_char(v as int / 16), digit_char(v as int % 16)]
}

/// `RRGGBB` in lower-case hexadecimal.
pub open spec fn hex6(c: RGB) -> Seq<char> {
    hex2(c.0) + hex2(c.1) + hex2(c.2)
}

/// The decimal digits of `n`.
pub open spec fn decimal(n: nat) -> Seq<char>
    decreases n,
{
    if n < 10 {
        seq![digit_char(n as int)]
    } else {
        decimal(n / 10) + seq![digit_char((n % 10) as int)]
    }
}

fn push_digit(s: &mut String, d: u8)
    requires
        d < 16,
    ensures
        final(s)@ == old(s)@ + seq![digit_char(d as int)],
{
    let digits = "0123456789abcdef";
    proof {
        reveal_strlit("0123456789abcdef");
    }
    let one = digits.substring_char(d as usize, d as usize + 1);
    proof {
        assert(one@ =~= seq![digit_char(d as int)]);
    }
    s.append(one);
}

fn push_hex2(s: &mut String, v: u8)
    ensures
        final(s)@ == old(s)@ + hex2(v),
{
    push_digit(s, v / 16);
    push_digit(s, v % 16);
    assert(final(s)@ =~= old(s)@ + hex2(v));
}

fn push_hex6(s: &mut String, c: RGB)
    ensures
        final(s)@ == old(s)@ + hex6(c),
{
    push_hex2(s, c.0);
    push_hex2(s, c.1);
    push_hex2(s, c.2);
    assert(final(s)@ =~= old(s)@ + hex6(c));
}

/// Appends the decimal digits of `n`.
pub fn push_decimal(s: &mut String, n: u8)
    ensures
        final(s)@ == old(s)@ + decimal(n as nat),
{
    if n >= 100 {
        push_digit(s, n / 100);
        push_digit(s, (n / 10) % 10);
        push_digit(s, n % 10);
        assert(decimal(n as nat) =~= seq![digit_char(n as int / 100), digit_char((n as int / 10) % 10), digit_char(n as int % 10)]) by {
            reveal_with_fuel(decimal, 3);
        }
    } else if n >= 10 {
        push_digit(s, n / 10);
        push_digit(s, n % 10);
        assert(decimal(n as nat) =~= seq![digit_char(n as int / 10), digit_char(n as int % 10)]) by {
            reveal_with_fuel(decimal, 2);
        }
    } else {
        push_digit(s, n);
    }
    assert(final(s)@ =~= old(s)@ + decimal(n as nat));
}

/// How a mode is named in file names and messages.
pub open spec fn mode_name(m: Mode) -> Seq<char> {
    match m {
        Mode::BlackAndWhite => "bw"@,
        Mode::Color => "color"@,
        Mode::KnownPalette { name, .. } => "palette: "@ + name@,
        Mode::SingleColor(c) => "single_color_"@ + hex6(c),
        Mode::CustomPalette { front, back } => "custom_palette_"@ + hex6(front) + "_"@ + hex6(back),
    }
}

impl Mode {
    /// The name of this mode.
    pub fn name(&self) -> (r: String)
        ensures
            r@ == mode_name(*self),
    {
        match self {
            Mode::BlackAndWhite => String::from_str("bw"),
            Mode::Color => String::from_str("color"),
            Mode::KnownPalette { name, .. } => {
                let mut s = String::from_str("palette: ");
                s.append(name.as_str());
                s
            },
            Mode::SingleColor(c) => {
                let mut s = String::from_str("single_color_");
                push_hex6(&mut s, *c);
                s
            },
            Mode::CustomPalette { front, back } => {
                let mut s = String::from_str("custom_palette_");
                push_hex6(&mut s, *front);
                s.append("_");
                push_hex6(&mut s, *back);
                s
            },
        }
    }
}

/// How an algorithm is named on the command line and in file names.
pub open spec fn ditherer_name(d: Ditherer) -> Seq<char> {
    match d {
        Ditherer::Floyd => "floyd"@,
        Ditherer::Atkinson => "atkinson"@,
        Ditherer::Stucki => "stucki"@,
        Ditherer::Burkes => "burkes"@,
        Ditherer::Jarvis => "jarvis"@,
        Ditherer::Sierra3 => "sierra3"@,
    }
}

/// The algorithm a `--dither` option names, in any ASCII case.
pub open spec fn ditherer_named(s: Seq<char>) -> Option<Ditherer> {
    if eq_upper(s, "FLOYD"@) { Some(Ditherer::Floyd) }
    else if eq_upper(s, "ATKINSON"@) { Some(Ditherer::Atkinson) }
    else if eq_upper(s, "STUCKI"@) { Some(Ditherer::Stucki) }
    else if eq_upper(s, "BURKES"@) { Some(Ditherer::Burkes) }
    else if eq_upper(s, "JARVIS"@) { Some(Ditherer::Jarvis) }
    else if eq_upper(s, "SIERRA3"@) { Some(Ditherer::Sierra3) }
    else { None }
}

impl Ditherer {
    /// The name of this algorithm.
    pub fn name(&self) -> (r: String)
        ensures
            r@ == ditherer_name(*self),
    {
        match self {
            Ditherer::Floyd => String::from_str("floyd"),
            Ditherer::Atkinson => String::from_str("atkinson"),
            Ditherer::Stucki => String::from_str("stucki"),
            Ditherer::Burkes => String::from_str("burkes"),
            Ditherer::Jarvis => String::from_str("jarvis"),
            Ditherer::Sierra3 => String::from_str("sierra3"),
        }
    }

    /// Reads a `--dither` option.
    pub fn parse(s: &str) -> (r: Result<Ditherer, Error>)
        ensures
            ditherer_named(s@) matches Some(d) ==> r == Ok::<Ditherer, Error>(d),
            ditherer_named(s@) is None ==> (r matches Err(Error::UnknownDitherer(o)) && o@ == s@),
    {
        if matches_upper(s, "FLOYD") { Ok(Ditherer::Floyd) }
        else if matches_upper(s, "ATKINSON") { Ok(Ditherer::Atkinson) }
        else if matches_upper(s, "STUCKI") { Ok(Ditherer::Stucki) }
        else if matches_upper(s, "BURKES") { Ok(Ditherer::Burkes) }
        else if matches_upper(s, "JARVIS") { Ok(Ditherer::Jarvis) }
        else if matches_upper(s, "SIERRA3") { Ok(Ditherer::Sierra3) }
        else { Err(Error::UnknownDitherer(String::from_str(s))) }
    }
}

impl std::str::FromStr for Ditherer {
    type Err = Error;

    fn from_str(s: &str) -> Result<Ditherer, Error> {
        Ditherer::parse(s)
    }
}

/// The lower-case hexadecimal digits of `n`, without leading zeros.
pub open spec fn hex_digits(n: nat) -> Seq<char>
    decreases n,
{
    if n < 16 {
        seq![digit_char(n as int)]
    } else {
        hex_digits(n / 16) + seq![digit_char((n % 16) as int)]
    }
}

/// Appends the hexadecimal digits of `n`.
pub fn push_hex(s: &mut String, n: u32)
    ensures
        final(s)@ == old(s)@ + hex_digits(n as nat),
    decreases n,
{
    if n >= 16 {
        push_hex(s, n / 16);
    }
    push_digit(s, (n % 16) as u8);
    assert(final(s)@ =~= old(s)@ + hex_digits(n as nat));
}

pub open spec fn quoted(s: Seq<char>) -> Seq<char> {
    "\""@ + s + "\""@
}

/// The message that reports a `--color` error.
pub open spec fn color_error_message(e: mode::Error) -> Seq<char> {
    match e {
        mode::Error::UnknownOption(o) => "unknown color option "@ + quoted(o@),
        mode::Error::BadPaletteColor(n) => "palette colors must be between 0x00 and 0xffffff, but had 0x"@
            + hex_digits(n as nat),
        mode::Error::CouldNotParsePalette(t) => "could not parse specified palette: "@ + t@,
    }
}

pub open spec fn io_message(what: Seq<char>, e: IOError) -> Seq<char> {
    what + quoted(e.path@) + ": "@ + e.cause@
}

/// The message that reports an error of a run.
pub open spec fn error_message(e: Error) -> Seq<char> {
    match e {
        Error::Color(c) => color_error_message(c),
        Error::BadBitDepth(n) => "bit depth must be between 1 and 7, but was "@ + decimal(n as nat),
        Error::IncompatibleOptions => "a palette color mode needs a bit depth of 1"@,
        Error::UnknownDitherer(d) => "unknown ditherer "@ + quoted(d@),
        Error::Input(io) => io_message("could not read input "@, io),
        Error::Output(io) => io_message("could not write output "@, io),
    }
}

fn push_quoted(s: &mut String, t: &str)
    ensures
        final(s)@ == old(s)@ + quoted(t@),
{
    s.append("\"");
    s.append(t);
    s.append("\"");
    assert(final(s)@ =~= old(s)@ + quoted(t@));
}

fn push_io(s: &mut String, e: &IOError)
    ensures
        final(s)@ == old(s)@ + quoted(e.path@) + ": "@ + e.cause@,
{
    push_quoted(s, e.path.as_str());
    s.append(": ");
    s.append(e.cause.as_str());
}

impl mode::Error {
    /// A message for the user.
    pub fn message(&self) -> (r: String)
        ensures
            r@ == color_error_message(*self),
    {
        match self {
            mode::Error::UnknownOption(o) => {
                let mut s = String::from_str("unknown color option ");
                push_quoted(&mut s, o.as_str());
                s
            },
            mode::Error::BadPaletteColor(n) => {
                let mut s = String::from_str("palette colors must be between 0x00 and 0xffffff, but had 0x");
                push_hex(&mut s, *n);
                s
            },
            mode::Error::CouldNotParsePalette(t) => {
                let mut s = String::from_str("could not parse specified palette: ");
                s.append(t.as_str());
                s
            },
        }
    }
}

impl Error {
    /// A message for the user.
    pub fn message(&self) -> (r: String)
        ensures
            r@ == error_message(*self),
    {
        match self {
            Error::Color(c) => c.message(),
            Error::BadBitDepth(n) => {
                let mut s = String::from_str("bit depth must be between 1 and 7, but was ");
                push_decimal(&mut s, *n);
                s
            },
            Error::IncompatibleOptions => String::from_str("a palette color mode needs a bit depth of 1"),
            Error::UnknownDitherer(d) => {
                let mut s = String::from_str("unknown ditherer ");
                push_quoted(&mut s, d.as_str());
                s
            },
            Error::Input(io) => {
                let mut s = String::from_str("could not read input ");
                push_io(&mut s, io);
                assert(s@ =~= error_message(*self));
                s
            },
            Error::Output(io) => {
                let mut s = String::from_str("could not write output ");
                push_io(&mut s, io);
                assert(s@ =~= error_message(*self));
                s
            },
        }
    }
}

} // verus!
