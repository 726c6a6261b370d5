//! From a mode, a bit depth and an algorithm to a dithered image.
use vstd::prelude::*;
use crate::color::{channels_in_range, fixed_of, level_of, luma, to_level, Px, Triple, RGB};
use crate::engine::{diffuse, output_at};
use crate::error::Error;
use crate::fixed::{SCALE, TOP};
use crate::kernel::Ditherer;
use crate::mode::Mode;
use crate::quantize::{QuantSpec, Quantizer};

verus! {

/// The uniform quantizer for a bit depth: `depth` steps, `1..=7`.
pub fn create_quantize_n_bits_func(depth: u8) -> (r: Result<Quantizer, Error>)
    ensures
        1 <= depth <= 7 ==> r == Ok::<Quantizer, Error>(Quantizer::Uniform(depth)),
        !(1 <= depth <= 7) ==> r == Err::<Quantizer, Error>(Error::BadBitDepth(depth)),
{
    if depth == 0 || depth > 7 {
        Err(Error::BadBitDepth(depth))
    } else {
        Ok(Quantizer::Uniform(depth))
    }
}

/// What the engine works on for a pixel in `mode`: the color itself for
/// full-color and known-palette modes, its luminance in every channel otherwise.
pub open spec fn mode_input(mode: Mode, c: RGB) -> Px {
    match mode {
        Mode::Color | Mode::KnownPalette { .. } => Px {
            r: fixed_of(c).0 as i64,
            g: fixed_of(c).1 as i64,
            b: fixed_of(c).2 as i64,
        },
        _ => Px { r: luma(c) as i64, g: luma(c) as i64, b: luma(c) as i64 },
    }
}

pub open spec fn mode_quantizer(mode: Mode, depth: u8) -> QuantSpec {
    match mode {
        Mode::KnownPalette { palette, .. } => QuantSpec::Palette(palette@),
        _ => QuantSpec::Uniform(depth as int),
    }
}

pub open spec fn clamp_top(v: int) -> int {
    if v < 0 {
        0
    } else if v > TOP {
        TOP as int
    } else {
        v
    }
}

/// Channel `c` scaled by `x / 255` levels (`x` clamped to `0..=255` levels).
pub open spec fn tint(c: u8, x: int) -> int {
    level_of(c * clamp_top(x) / 255)
}

/// `front * x/255 + back * (1 - x/255)` on one channel.
pub open spec fn blend(f: u8, b: u8, x: int) -> int {
    level_of((f * clamp_top(x) + b * (TOP - clamp_top(x))) / 255)
}

/// The output color for a quantized working value in `mode`.
pub open spec fn mode_output(mode: Mode, v: Triple) -> RGB {
    match mode {
        Mode::BlackAndWhite => RGB(level_of(v.0) as u8, level_of(v.0) as u8, level_of(v.0) as u8),
        Mode::SingleColor(c) => RGB(tint(c.0, v.0) as u8, tint(c.1, v.0) as u8, tint(c.2, v.0) as u8),
        Mode::CustomPalette { front, back } => RGB(
            blend(front.0, back.0, v.0) as u8,
            blend(front.1, back.1, v.0) as u8,
            blend(front.2, back.2, v.0) as u8,
        ),
        _ => RGB(level_of(v.0) as u8, level_of(v.1) as u8, level_of(v.2) as u8),
    }
}

/// The dithered color of pixel `i`.
pub open spec fn dithered_at(img: Seq<RGB>, width: int, mode: Mode, depth: u8, d: Ditherer, i: int) -> RGB {
    mode_output(
        mode,
        output_at(
            img.map_values(|c: RGB| mode_input(mode, c)),
            width,
            d.spec_taps(),
            d.spec_divisor(),
            mode_quantizer(mode, depth),
            i,
        ),
    )
}

fn prepare(img: &Vec<RGB>, mode: &Mode) -> (r: Vec<Px>)
    ensures
        r@ == img@.map_values(|c: RGB| mode_input(*mode, c)),
        forall|i: int| 0 <= i < r@.len() ==> channels_in_range(#[trigger] r@[i]),
{
    let full = match mode {
        Mode::Color | Mode::KnownPalette { .. } => true,
        _ => false,
    };
    let mut r: Vec<Px> = Vec::new();
    let mut i: usize = 0;
    while i < img.len()
        invariant
            i <= img@.len(),
            full == (mode matches Mode::Color || mode matches Mode::KnownPalette { .. }),
            r@ == img@.subrange(0, i as int).map_values(|c: RGB| mode_input(*mode, c)),
            forall|k: int| 0 <= k < r@.len() ==> channels_in_range(#[trigger] r@[k]),
        decreases img@.len() - i,
    {
        let c = img[i];
        let p = if full { c.to_fixed() } else { c.to_luma() };
        r.push(p);
        proof {
            assert(img@.subrange(0, i + 1) =~= img@.subrange(0, i as int).push(c));
        }
        i = i + 1;
    }
    proof {
        assert(img@.subrange(0, img@.len() as int) =~= img@);
    }
    r
}

fn clamp_fixed(v: i64) -> (r: i64)
    ensures
        r == clamp_top(v as int),
{
    if v < 0 {
        0
    } else if v > TOP {
        TOP
    } else {
        v
    }
}

proof fn lemma_channel_product(a: int, x: int)
    requires
        0 <= a <= 255,
        0 <= x <= TOP,
    ensures
        0 <= a * x <= 255 * TOP,
{
    assert(0 <= a * x <= 255 * TOP) by (nonlinear_arith)
        requires
            0 <= a <= 255,
            0 <= x <= TOP,
    ;
}

fn finish(mode: &Mode, v: Px) -> (c: RGB)
    ensures
        c == mode_output(*mode, v.val()),
{
    match mode {
        Mode::BlackAndWhite => RGB::gray(to_level(v.r)),
        Mode::SingleColor(t) => {
            let x = clamp_fixed(v.r);
            proof {
                lemma_channel_product(t.0 as int, x as int);
                lemma_channel_product(t.1 as int, x as int);
                lemma_channel_product(t.2 as int, x as int);
            }
            RGB(
                to_level(t.0 as i64 * x / 255),
                to_level(t.1 as i64 * x / 255),
                to_level(t.2 as i64 * x / 255),
            )
        },
        Mode::CustomPalette { front, back } => {
            let x = clamp_fixed(v.r);
            let y = TOP - x;
            proof {
                lemma_channel_product(front.0 as int, x as int);
                lemma_channel_product(front.1 as int, x as int);
                lemma_channel_product(front.2 as int, x as int);
                lemma_channel_product(back.0 as int, y as int);
                lemma_channel_product(back.1 as int, y as int);
                lemma_channel_product(back.2 as int, y as int);
            }
            RGB(
                to_level((front.0 as i64 * x + back.0 as i64 * y) / 255),
                to_level((front.1 as i64 * x + back.1 as i64 * y) / 255),
                to_level((front.2 as i64 * x + back.2 as i64 * y) / 255),
            )
        },
        _ => v.to_rgb(),
    }
}

/// Dithers a row-major image `width` pixels wide in `mode` at bit depth
/// `depth` with algorithm `d`.
pub fn dither_image(width: usize, img: &Vec<RGB>, mode: &Mode, depth: u8, d: Ditherer) -> (r: Result<Vec<RGB>, Error>)
    requires
        0 < width <= 0xFFFF_FFFF,
        img@.len() <= 0xFFFF_FFFF,
        mode matches Mode::KnownPalette { palette, .. } ==> 1 <= palette@.len() <= 0x1_0000_0000,
    ensures
        !(1 <= depth <= 7) ==> r == Err::<Vec<RGB>, Error>(Error::BadBitDepth(depth)),
        1 <= depth <= 7 && mode.spec_is_palette() && depth > 1 ==> r == Err::<Vec<RGB>, Error>(Error::IncompatibleOptions),
        1 <= depth <= 7 && !(mode.spec_is_palette() && depth > 1) ==> (r matches Ok(out) && out@.len() == img@.len()
            && forall|i: int| 0 <= i < img@.len() ==> #[trigger] out@[i] == dithered_at(img@, width as int, *mode, depth, d, i)),
{
    let uniform = create_quantize_n_bits_func(depth)?;
    if mode.is_palette() && depth > 1 {
        return Err(Error::IncompatibleOptions);
    }
    let q = match mode {
        Mode::KnownPalette { palette, .. } => Quantizer::Palette(palette.clone()),
        _ => uniform,
    };
    assert(q@ == mode_quantizer(*mode, depth));
    let kernel = d.kernel();
    let pixels = prepare(img, mode);
    let quantized = diffuse(width, &pixels, &kernel, &q);
    let mut out: Vec<RGB> = Vec::new();
    let mut i: usize = 0;
    while i < quantized.len()
        invariant
            quantized@.len() == img@.len(),
            pixels@ == img@.map_values(|c: RGB| mode_input(*mode, c)),
            kernel.taps@ == d.spec_taps(),
            kernel.divisor == d.spec_divisor(),
            q@ == mode_quantizer(*mode, depth),
            forall|k: int| 0 <= k < img@.len() ==> (#[trigger] quantized@[k]).val() == output_at(
                pixels@, width as int, kernel.taps@, kernel.divisor as int, q@, k),
            i <= quantized@.len(),
            out@.len() == i,
            forall|k: int| 0 <= k < i ==> #[trigger] out@[k] == dithered_at(img@, width as int, *mode, depth, d, k),
        decreases quantized@.len() - i,
    {
        let c = finish(mode, quantized[i]);
        out.push(c);
        i = i + 1;
    }
    Ok(out)
}

/// The same image, mode, depth and algorithm always give the same output:
/// each output pixel is a function of those inputs alone.
pub proof fn lemma_deterministic(
    a: Seq<RGB>,
    b: Seq<RGB>,
    width: int,
    mode: Mode,
    depth: u8,
    d: Ditherer,
)
    requires
        a == b,
    ensures
        forall|i: int| 0 <= i < a.len() ==> #[trigger] dithered_at(a, width, mode, depth, d, i) == dithered_at(b, width, mode, depth, d, i),
{
}

} // verus!
