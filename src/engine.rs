//! The error-diffusion engine: one raster pass over a row-major grid.
//!
//! Pixel `i` is quantized after every pixel before it. Its working value is
//! its input plus, for each tap, that tap's share of the residual of the
//! pixel the tap reaches it from, when that pixel lies in the grid. A share
//! is `residual * weight / divisor`, rounded down to a whole fixed-point unit
//! per channel. Integer sums do not depend on the order of addition, so this
//! is exactly what pushing each residual forward to the pixels after it
//! would accumulate, with shares aimed outside the grid dropped.
use vstd::prelude::*;
use crate::color::{abs, add3, channels_in_range, Px, Triple};
use crate::fixed::{floor_div, SCALE, TOP};
use crate::kernel::{forward, lemma_weight_sum_mono, weight_sum, Kernel, Tap};
use crate::quantize::{lemma_uniform_bounds, in_limit, quantize_spec, QuantSpec, Quantizer};

verus! {

/// Bound growth per pixel on the magnitude of a residual.
pub const GROWTH: i64 = 688128000;

/// The tap reaches pixel `i` from a pixel of the grid: same row span, no wrap.
pub open spec fn source_ok(w: int, i: int, t: Tap) -> bool {
    0 <= i % w - t.dx < w && i / w - t.dy >= 0
}

/// The index of the pixel from which tap `t` reaches pixel `i`.
pub open spec fn source_of(w: int, i: int, t: Tap) -> int {
    i - (t.dy * w + t.dx)
}

/// A tap's share of a residual, per channel, rounded down.
pub open spec fn share(r: Triple, weight: int, divisor: int) -> Triple {
    (r.0 * weight / divisor, r.1 * weight / divisor, r.2 * weight / divisor)
}

/// The working value of pixel `i`: its input plus all shares it receives.
pub open spec fn acc_at(pix: Seq<Px>, w: int, taps: Seq<Tap>, div: int, q: QuantSpec, i: int) -> Triple
    decreases i, taps.len() + 1,
{
    add3(pix[i].val(), gathered(pix, w, taps, div, q, i, taps.len() as int))
}

/// The shares that pixel `i` receives through the first `j` taps.
pub open spec fn gathered(pix: Seq<Px>, w: int, taps: Seq<Tap>, div: int, q: QuantSpec, i: int, j: int) -> Triple
    decreases i, j,
{
    if j <= 0 || j > taps.len() {
        (0, 0, 0)
    } else {
        let t = taps[j - 1];
        let prev = gathered(pix, w, taps, div, q, i, j - 1);
        let s = source_of(w, i, t);
        if w > 0 && source_ok(w, i, t) && 0 <= s < i {
            add3(prev, share(residual_at(pix, w, taps, div, q, s), t.weight as int, div))
        } else {
            prev
        }
    }
}

/// The residual that pixel `i` passes on.
pub open spec fn residual_at(pix: Seq<Px>, w: int, taps: Seq<Tap>, div: int, q: QuantSpec, i: int) -> Triple
    decreases i, taps.len() + 2,
{
    quantize_spec(q, acc_at(pix, w, taps, div, q, i)).1
}

/// The quantized output of pixel `i`.
pub open spec fn output_at(pix: Seq<Px>, w: int, taps: Seq<Tap>, div: int, q: QuantSpec, i: int) -> Triple {
    quantize_spec(q, acc_at(pix, w, taps, div, q, i)).0
}

pub open spec fn bounded(v: Triple, b: int) -> bool {
    abs(v.0) <= b && abs(v.1) <= b && abs(v.2) <= b
}

proof fn lemma_share_bound(r: int, wgt: int, div: int, b: int)
    requires
        0 < wgt,
        0 < div,
        -b <= r <= b,
    ensures
        div * (r * wgt / div) <= b * wgt,
        div * (r * wgt / div) > -(b * wgt) - div,
{
    vstd::arithmetic::div_mod::lemma_fundamental_div_mod(r * wgt, div);
    assert(r * wgt <= b * wgt && r * wgt >= -(b * wgt)) by (nonlinear_arith)
        requires
            0 < wgt,
            -b <= r <= b,
    ;
}

proof fn lemma_scaled(s: int, div: int, b: int, ws: int, j: int)
    requires
        div > 0,
        b >= 0,
        0 <= ws <= div,
        j >= 0,
        div * s <= b * ws,
        div * s >= -(b * ws) - j * div,
    ensures
        -b - j <= s <= b,
{
    assert(-b - j <= s <= b) by (nonlinear_arith)
        requires
            div > 0,
            b >= 0,
            0 <= ws <= div,
            j >= 0,
            div * s <= b * ws,
            div * s >= -(b * ws) - j * div,
    ;
}

/// One channel of a share, with its bounds.
fn share_channel(r: i64, wgt: i64, div: i64, Ghost(b): Ghost<int>) -> (c: i64)
    requires
        0 < wgt <= div,
        div <= 64,
        0 <= b <= 0x4000_0000_0000_0000,
        -b <= r <= b,
    ensures
        c == r * wgt / (div as int),
        div * c <= b * wgt,
        div * c > -(b * wgt) - div,
{
    proof {
        lemma_share_bound(r as int, wgt as int, div as int, b);
        assert(-0x4000_0000_0000_0000 * 64 <= r * wgt <= 0x4000_0000_0000_0000 * 64) by (nonlinear_arith)
            requires
                0 < wgt <= 64,
                -0x4000_0000_0000_0000 <= r <= 0x4000_0000_0000_0000,
        ;
        vstd::arithmetic::div_mod::lemma_fundamental_div_mod(r * wgt, div as int);
    }
    let p: i128 = r as i128 * wgt as i128;
    let c = floor_div(p, div as i128);
    proof {
        assert(-b - 1 <= c <= b) by {
            lemma_scaled(c as int, div as int, b, wgt as int, 1);
        }
    }
    c as i64
}

proof fn lemma_source(w: int, i: int, t: Tap)
    requires
        w > 0,
        i >= 0,
        forward(t),
        source_ok(w, i, t),
    ensures
        0 <= source_of(w, i, t) < i,
{
    vstd::arithmetic::div_mod::lemma_fundamental_div_mod(i, w);
    let y = i / w;
    let x = i % w;
    assert(i == w * y + x);
    assert(0 <= source_of(w, i, t) < i) by (nonlinear_arith)
        requires
            i == w * y + x,
            w > 0,
            0 <= x - t.dx < w,
            y - t.dy >= 0,
            0 <= x < w,
            t.dy > 0 || (t.dy == 0 && t.dx > 0),
            source_of(w, i, t) == i - (t.dy * w + t.dx),
    ;
}

/// The shares that pixel `i` receives, from residuals already computed.
fn gather(width: usize, i: usize, res: &Vec<Px>, kernel: &Kernel, Ghost(pix): Ghost<Seq<Px>>, Ghost(q): Ghost<QuantSpec>) -> (s: Px)
    requires
        0 < width <= 0xFFFF_FFFF,
        i <= 0xFFFF_FFFF,
        kernel.wf(),
        res@.len() == i,
        forall|j: int| 0 <= j < i ==> (#[trigger] res@[j]).val() == residual_at(pix, width as int, kernel.taps@, kernel.divisor as int, q, j),
        forall|j: int| 0 <= j < i ==> bounded((#[trigger] res@[j]).val(), i * GROWTH),
    ensures
        s.val() == gathered(pix, width as int, kernel.taps@, kernel.divisor as int, q, i as int, kernel.taps@.len() as int),
        -(i * GROWTH) - 16 <= s.r <= i * GROWTH,
        -(i * GROWTH) - 16 <= s.g <= i * GROWTH,
        -(i * GROWTH) - 16 <= s.b <= i * GROWTH,
{
    let ghost b: int = i * GROWTH;
    let ghost div: int = kernel.divisor as int;
    let ghost taps = kernel.taps@;
    let ghost total = weight_sum(taps, taps.len() as int);
    let x: i64 = (i % width) as i64;
    let y: i64 = (i / width) as i64;
    let w: i64 = width as i64;
    let mut sr: i64 = 0;
    let mut sg: i64 = 0;
    let mut sb: i64 = 0;
    let mut j: usize = 0;
    proof {
        assert(0 <= b <= 0xFFFF_FFFF * GROWTH) by (nonlinear_arith)
            requires
                b == i * GROWTH,
                0 <= i <= 0xFFFF_FFFF,
        ;
    }
    while j < kernel.taps.len()
        invariant
            0 < width <= 0xFFFF_FFFF,
            i <= 0xFFFF_FFFF,
            kernel.wf(),
            taps == kernel.taps@,
            div == kernel.divisor,
            total == weight_sum(taps, taps.len() as int),
            res@.len() == i,
            forall|j: int| 0 <= j < i ==> (#[trigger] res@[j]).val() == residual_at(pix, width as int, kernel.taps@, kernel.divisor as int, q, j),
            forall|j: int| 0 <= j < i ==> bounded((#[trigger] res@[j]).val(), i * GROWTH),
            b == i * GROWTH,
            0 <= b <= 0xFFFF_FFFF * GROWTH,
            x == i % width,
            y == i / width,
            w == width,
            j <= taps.len(),
            (sr as int, sg as int, sb as int) == gathered(pix, width as int, kernel.taps@, kernel.divisor as int, q, i as int, j as int),
            div * sr <= b * weight_sum(taps, j as int),
            div * sr >= -(b * weight_sum(taps, j as int)) - j * div,
            div * sg <= b * weight_sum(taps, j as int),
            div * sg >= -(b * weight_sum(taps, j as int)) - j * div,
            div * sb <= b * weight_sum(taps, j as int),
            div * sb >= -(b * weight_sum(taps, j as int)) - j * div,
            -b - j <= sr <= b,
            -b - j <= sg <= b,
            -b - j <= sb <= b,
        decreases taps.len() - j,
    {
        let t = kernel.taps[j];
        assert(forward(t) && -16 <= t.dx <= 16 && t.dy <= 16);
        let ghost ws = weight_sum(taps, j as int);
        proof {
            lemma_weight_sum_mono(taps, j as int + 1, taps.len() as int);
            lemma_weight_sum_mono(taps, 0, j as int);
            assert(0 < t.weight);
            assert(b * (ws + t.weight) == b * ws + b * t.weight) by (nonlinear_arith);
            assert(b * t.weight >= 0) by (nonlinear_arith)
                requires
                    b >= 0,
                    t.weight > 0,
            ;
        }
        let sx: i64 = x - t.dx;
        let sy: i64 = y - t.dy;
        if 0 <= sx && sx < w && sy >= 0 {
            proof {
                assert(0 <= t.dy * w <= 16 * 0xFFFF_FFFF) by (nonlinear_arith)
                    requires
                        0 <= t.dy <= 16,
                        0 < w <= 0xFFFF_FFFF,
                ;
            }
            let src: i64 = i as i64 - (t.dy * w + t.dx);
            proof {
                lemma_source(width as int, i as int, t);
            }
            let r = res[src as usize];
            let cr = share_channel(r.r, t.weight, kernel.divisor, Ghost(b));
            let cg = share_channel(r.g, t.weight, kernel.divisor, Ghost(b));
            let cb = share_channel(r.b, t.weight, kernel.divisor, Ghost(b));
            proof {
                assert(div * (sr + cr) == div * sr + div * cr) by (nonlinear_arith);
                assert(div * (sg + cg) == div * sg + div * cg) by (nonlinear_arith);
                assert(div * (sb + cb) == div * sb + div * cb) by (nonlinear_arith);
                assert((j + 1) * div == j * div + div) by (nonlinear_arith);
                lemma_scaled(sr + cr, div, b, ws + t.weight, j + 1);
                lemma_scaled(sg + cg, div, b, ws + t.weight, j + 1);
                lemma_scaled(sb + cb, div, b, ws + t.weight, j + 1);
            }
            sr = sr + cr;
            sg = sg + cg;
            sb = sb + cb;
        } else {
            proof {
                assert((j + 1) * div == j * div + div) by (nonlinear_arith);
                lemma_scaled(sr as int, div, b, ws + t.weight, j + 1);
                lemma_scaled(sg as int, div, b, ws + t.weight, j + 1);
                lemma_scaled(sb as int, div, b, ws + t.weight, j + 1);
            }
        }
        j = j + 1;
    }
    Px { r: sr, g: sg, b: sb }
}

/// One raster pass of error diffusion over a row-major grid `width` pixels
/// wide: each output pixel is what `q` makes of that pixel's working value.
pub fn diffuse(width: usize, pixels: &Vec<Px>, kernel: &Kernel, q: &Quantizer) -> (out: Vec<Px>)
    requires
        0 < width <= 0xFFFF_FFFF,
        pixels@.len() <= 0xFFFF_FFFF,
        kernel.wf(),
        q.wf(),
        forall|i: int| 0 <= i < pixels@.len() ==> channels_in_range(#[trigger] pixels@[i]),
    ensures
        out@.len() == pixels@.len(),
        forall|i: int|
            0 <= i < pixels@.len() ==> (#[trigger] out@[i]).val() == output_at(
                pixels@,
                width as int,
                kernel.taps@,
                kernel.divisor as int,
                q@,
                i,
            ),
{
    let mut res: Vec<Px> = Vec::new();
    let mut out: Vec<Px> = Vec::new();
    let mut i: usize = 0;
    while i < pixels.len()
        invariant
            0 < width <= 0xFFFF_FFFF,
            pixels@.len() <= 0xFFFF_FFFF,
            kernel.wf(),
            q.wf(),
            forall|i: int| 0 <= i < pixels@.len() ==> channels_in_range(#[trigger] pixels@[i]),
            i <= pixels@.len(),
            res@.len() == i,
            out@.len() == i,
            forall|j: int|
                0 <= j < i ==> (#[trigger] res@[j]).val() == residual_at(pixels@, width as int, kernel.taps@, kernel.divisor as int, q@, j),
            forall|j: int| 0 <= j < i ==> bounded((#[trigger] res@[j]).val(), (j + 1) * GROWTH),
            forall|j: int|
                0 <= j < i ==> (#[trigger] out@[j]).val() == output_at(pixels@, width as int, kernel.taps@, kernel.divisor as int, q@, j),
        decreases pixels@.len() - i,
    {
        assert forall|j: int| 0 <= j < i implies bounded((#[trigger] res@[j]).val(), i * GROWTH) by {
            assert((j + 1) * GROWTH <= i * GROWTH);
        }
        let s = gather(width, i, &res, kernel, Ghost(pixels@), Ghost(q@));
        let p = pixels[i];
        let a = Px { r: p.r + s.r, g: p.g + s.g, b: p.b + s.b };
        assert(a.val() == acc_at(pixels@, width as int, kernel.taps@, kernel.divisor as int, q@, i as int));
        let (o, e) = q.apply(a);
        proof {
            if let Quantizer::Uniform(n) = *q {
                lemma_uniform_bounds(n as int, a.r as int);
                lemma_uniform_bounds(n as int, a.g as int);
                lemma_uniform_bounds(n as int, a.b as int);
            }
        }
        res.push(e);
        out.push(o);
        i = i + 1;
    }
    out
}

/// A tap whose source pixel falls outside the grid adds nothing: a residual
/// aimed past an edge is dropped, never wrapped to another row or reflected.
/// A tap whose source lies in the grid adds exactly its share of that
/// pixel's residual.
pub proof fn lemma_boundary_drop(pix: Seq<Px>, w: int, taps: Seq<Tap>, div: int, q: QuantSpec, i: int, j: int)
    requires
        w > 0,
        0 <= i,
        0 <= j < taps.len(),
        forward(taps[j]),
    ensures
        !source_ok(w, i, taps[j]) ==> gathered(pix, w, taps, div, q, i, j + 1) == gathered(pix, w, taps, div, q, i, j),
        source_ok(w, i, taps[j]) ==> gathered(pix, w, taps, div, q, i, j + 1) == add3(
            gathered(pix, w, taps, div, q, i, j),
            share(residual_at(pix, w, taps, div, q, source_of(w, i, taps[j])), taps[j].weight as int, div),
        ),
{
    if source_ok(w, i, taps[j]) {
        lemma_source(w, i, taps[j]);
    }
}

/// Seen from the pixel that sends it: the share of pixel `s`'s residual
/// through tap `t` is gathered by pixel `p` exactly when `p` is the pixel
/// `dx` columns right and `dy` rows down of `s`, in the same grid columns.
/// When `s`'s column plus `dx` falls outside `0..w`, no pixel gathers it:
/// that share leaves the grid.
pub proof fn lemma_share_target(w: int, s: int, t: Tap, p: int)
    requires
        w > 0,
        s >= 0,
        p >= 0,
        forward(t),
    ensures
        (source_ok(w, p, t) && source_of(w, p, t) == s) <==> (0 <= s % w + t.dx < w && p == s + t.dy * w + t.dx),
{
    vstd::arithmetic::div_mod::lemma_fundamental_div_mod(s, w);
    vstd::arithmetic::div_mod::lemma_fundamental_div_mod(p, w);
    if source_ok(w, p, t) && source_of(w, p, t) == s {
        // s = (p / w - dy) * w + (p % w - dx), with the column in range
        assert(s == (p / w - t.dy) * w + (p % w - t.dx)) by (nonlinear_arith)
            requires
                s == p - (t.dy * w + t.dx),
                p == w * (p / w) + p % w,
        ;
        vstd::arithmetic::div_mod::lemma_fundamental_div_mod_converse(s, w, p / w - t.dy, p % w - t.dx);
    }
    if 0 <= s % w + t.dx < w && p == s + t.dy * w + t.dx {
        assert(p == (s / w + t.dy) * w + (s % w + t.dx)) by (nonlinear_arith)
            requires
                p == s + t.dy * w + t.dx,
                s == w * (s / w) + s % w,
        ;
        vstd::arithmetic::div_mod::lemma_fundamental_div_mod_converse(p, w, s / w + t.dy, s % w + t.dx);
        assert(s / w >= 0) by {
            vstd::arithmetic::div_mod::lemma_div_pos_is_pos(s, w);
        }
    }
}

} // verus!
