//! Quantizers: map a working value to an output value and a signed residual.
use vstd::prelude::*;
use crate::color::{abs, add3, fixed_of, sub3, Px, Triple, RGB};
use crate::fixed::{floor_div, SCALE, TOP};

verus! {

/// Largest magnitude of a channel value that a quantizer accepts.
pub const LIMIT: i64 = 0x4000_0000_0000_0000;

/// Width of one uniform step for `n` levels, in fixed-point units (exact).
pub open spec fn step_of(n: int) -> int {
    256 * SCALE / n
}

/// The uniform quantizer with `n` steps on one channel value `x`:
/// `(quantized, residual)`. The residual is measured against the unclamped
/// floor or ceiling, so at the top end it is `x - 256` levels rather than
/// `x - 255`.
pub open spec fn uniform_spec(n: int, x: int) -> (int, int) {
    let step = step_of(n);
    let fq = step * (x / step);
    let cq = if x % step == 0 { fq } else { fq + step };
    if x - fq < cq - x {
        (if fq > 0 { fq } else { 0 }, x - fq)
    } else {
        (if cq < TOP { cq } else { TOP as int }, -(cq - x))
    }
}

/// L1 distance between a working value and a palette color.
pub open spec fn dist(v: Triple, c: RGB) -> int {
    let f = fixed_of(c);
    abs(v.0 - f.0) + abs(v.1 - f.1) + abs(v.2 - f.2)
}

/// Index of the first color among `p[..k]` at minimal distance from `v`.
pub open spec fn nearest_index(p: Seq<RGB>, v: Triple, k: int) -> int
    decreases k,
{
    if k <= 1 {
        0
    } else {
        let b = nearest_index(p, v, k - 1);
        if dist(v, p[k - 1]) < dist(v, p[b]) {
            k - 1
        } else {
            b
        }
    }
}

/// A quantization strategy.
#[derive(Clone, Debug, PartialEq, Eq)]
pub enum Quantizer {
    /// Each channel on its own, to `n` uniform steps (`1..=7`).
    Uniform(u8),
    /// The nearest color of a non-empty palette by L1 distance; the first wins ties.
    Palette(Vec<RGB>),
}

/// What a quantizer is, as a mathematical object.
pub enum QuantSpec {
    Uniform(int),
    Palette(Seq<RGB>),
}

impl View for Quantizer {
    type V = QuantSpec;

    open spec fn view(&self) -> QuantSpec {
        match self {
            Quantizer::Uniform(n) => QuantSpec::Uniform(*n as int),
            Quantizer::Palette(p) => QuantSpec::Palette(p@),
        }
    }
}

impl Quantizer {
    pub open spec fn wf(&self) -> bool {
        match self {
            Quantizer::Uniform(n) => 1 <= *n <= 7,
            Quantizer::Palette(p) => 1 <= p@.len() <= 0x1_0000_0000,
        }
    }
}

pub open spec fn in_limit(v: Triple) -> bool {
    -LIMIT <= v.0 <= LIMIT && -LIMIT <= v.1 <= LIMIT && -LIMIT <= v.2 <= LIMIT
}

/// What quantizer `q` makes of `v`: `(quantized, residual)`.
pub open spec fn quantize_spec(q: QuantSpec, v: Triple) -> (Triple, Triple) {
    match q {
        QuantSpec::Uniform(n) => {
            let a = uniform_spec(n, v.0);
            let b = uniform_spec(n, v.1);
            let c = uniform_spec(n, v.2);
            ((a.0, b.0, c.0), (a.1, b.1, c.1))
        },
        QuantSpec::Palette(p) => {
            let f = fixed_of(p[nearest_index(p, v, p.len() as int)]);
            (f, sub3(v, f))
        },
    }
}

pub proof fn lemma_uniform_bounds(n: int, x: int)
    requires
        1 <= n <= 7,
    ensures
        abs(uniform_spec(n, x).1) <= step_of(n),
        step_of(n) <= 256 * SCALE,
        step_of(n) > 0,
{
    let step = step_of(n);
    assert(step_of(n) <= 256 * SCALE && step > 0) by {
        assert(256 * SCALE == 172032000);
        assert(172032000int / 7 == 24576000);
        vstd::arithmetic::div_mod::lemma_div_is_ordered_by_denominator(172032000, n, 7);
        vstd::arithmetic::div_mod::lemma_div_is_ordered_by_denominator(172032000, 1, n);
        assert(172032000int / 1 == 172032000);
    }
    vstd::arithmetic::div_mod::lemma_fundamental_div_mod(x, step);
}

/// The uniform quantizer with `n` steps on one channel value.
pub fn quantize_uniform(n: u8, x: i64) -> (r: (i64, i64))
    requires
        1 <= n <= 7,
        -LIMIT <= x <= LIMIT,
    ensures
        (r.0 as int, r.1 as int) == uniform_spec(n as int, x as int),
        abs(r.1 as int) <= 256 * SCALE,
{
    proof {
        lemma_uniform_bounds(n as int, x as int);
    }
    let step: i64 = 256 * SCALE / (n as i64);
    let k: i128 = floor_div(x as i128, step as i128);
    let rem: i64 = x - (step as i128 * k) as i64;
    proof {
        vstd::arithmetic::div_mod::lemma_fundamental_div_mod(x as int, step as int);
    }
    let fq: i64 = x - rem;
    let cq: i64 = if rem == 0 { fq } else { fq + step };
    let floor_rem: i64 = x - fq;
    let ceil_rem: i64 = cq - x;
    if floor_rem < ceil_rem {
        (if fq > 0 { fq } else { 0 }, floor_rem)
    } else {
        (if cq < TOP { cq } else { TOP }, -ceil_rem)
    }
}

/// L1 distance between a working value and a palette color.
fn distance(v: Px, c: RGB) -> (d: i128)
    requires
        in_limit(v.val()),
    ensures
        d == dist(v.val(), c),
{
    let f = c.to_fixed();
    let dr: i128 = if v.r >= f.r { v.r as i128 - f.r as i128 } else { f.r as i128 - v.r as i128 };
    let dg: i128 = if v.g >= f.g { v.g as i128 - f.g as i128 } else { f.g as i128 - v.g as i128 };
    let db: i128 = if v.b >= f.b { v.b as i128 - f.b as i128 } else { f.b as i128 - v.b as i128 };
    dr + dg + db
}

/// The nearest color of `palette` to `v` by L1 distance (the first in
/// palette order among equals), with the residual `v - nearest`.
pub fn quantize_palette(palette: &Vec<RGB>, v: Px) -> (r: (Px, Px))
    requires
        1 <= palette@.len() <= 0x1_0000_0000,
        in_limit(v.val()),
    ensures
        (r.0.val(), r.1.val()) == quantize_spec(QuantSpec::Palette(palette@), v.val()),
{
    let mut best: usize = 0;
    let mut best_d: i128 = distance(v, palette[0]);
    let mut k: usize = 1;
    while k < palette.len()
        invariant
            1 <= k <= palette@.len(),
            1 <= palette@.len() <= 0x1_0000_0000,
            in_limit(v.val()),
            best == nearest_index(palette@, v.val(), k as int),
            best < k,
            best_d == dist(v.val(), palette@[best as int]),
        decreases palette@.len() - k,
    {
        let d = distance(v, palette[k]);
        if d < best_d {
            best = k;
            best_d = d;
        }
        k = k + 1;
    }
    let c = palette[best].to_fixed();
    (c, Px { r: v.r - c.r, g: v.g - c.g, b: v.b - c.b })
}

impl Quantizer {
    /// Applies this strategy to a working value.
    pub fn apply(&self, v: Px) -> (r: (Px, Px))
        requires
            self.wf(),
            in_limit(v.val()),
        ensures
            (r.0.val(), r.1.val()) == quantize_spec(self@, v.val()),
    {
        match self {
            Quantizer::Uniform(n) => {
                let (qr, er) = quantize_uniform(*n, v.r);
                let (qg, eg) = quantize_uniform(*n, v.g);
                let (qb, eb) = quantize_uniform(*n, v.b);
                (Px { r: qr, g: qg, b: qb }, Px { r: er, g: eg, b: eb })
            },
            Quantizer::Palette(p) => quantize_palette(p, v),
        }
    }
}

/// On an in-range value the uniform quantizer gives an in-range level, and
/// its residual is `x - quantized`, except where the ceiling was clamped to
/// 255 levels: there the residual is `x - 256` levels, against the
/// unclamped ceiling.
pub proof fn lemma_uniform_in_range(n: int, x: int)
    requires
        1 <= n <= 7,
        0 <= x <= TOP,
    ensures
        0 <= uniform_spec(n, x).0 <= TOP,
        uniform_spec(n, x).1 == x - uniform_spec(n, x).0 || (uniform_spec(n, x).0 == TOP
            && uniform_spec(n, x).1 == x - 256 * SCALE),
{
    let step = step_of(n);
    lemma_uniform_bounds(n, x);
    vstd::arithmetic::div_mod::lemma_fundamental_div_mod(x, step);
    let k = x / step;
    assert(step * n == 256 * SCALE) by {
        assert(256 * SCALE == 172032000);
        if n == 1 { assert(172032000int / 1 == 172032000); }
        if n == 2 { assert(172032000int / 2 == 86016000); }
        if n == 3 { assert(172032000int / 3 == 57344000); }
        if n == 4 { assert(172032000int / 4 == 43008000); }
        if n == 5 { assert(172032000int / 5 == 34406400); }
        if n == 6 { assert(172032000int / 6 == 28672000); }
        if n == 7 { assert(172032000int / 7 == 24576000); }
    }
    assert(step >= SCALE) by {
        assert(256 * SCALE == 172032000);
        assert(172032000int / 7 == 24576000);
        vstd::arithmetic::div_mod::lemma_div_is_ordered_by_denominator(172032000, n, 7);
    }
    assert(0 <= k) by {
        vstd::arithmetic::div_mod::lemma_div_pos_is_pos(x, step);
    }
    assert(step * k <= x);
    if x % step != 0 && step * k + step > TOP {
        // the ceiling passed 255 levels: it is n steps, 256 levels
        assert(k < n) by (nonlinear_arith)
            requires
                step * k <= x,
                x <= TOP,
                TOP < 256 * SCALE,
                step * n == 256 * SCALE,
                step > 0,
        ;
        assert(k + 1 >= n) by (nonlinear_arith)
            requires
                step * k + step > TOP,
                step * n == 256 * SCALE,
                step >= SCALE,
                TOP == 255 * SCALE,
                SCALE > 0,
        ;
        assert(step * k + step == 256 * SCALE) by (nonlinear_arith)
            requires
                k + 1 == n,
                step * n == 256 * SCALE,
        ;
    }
}

/// With one step the quantizer is a threshold at 128 levels: below it,
/// black with the whole value as residual; from it up, 255 levels with
/// residual `x - 256` levels.
pub proof fn lemma_one_step_threshold(x: int)
    requires
        0 <= x <= TOP,
    ensures
        x < 128 * SCALE ==> uniform_spec(1, x) == (0int, x),
        x >= 128 * SCALE ==> uniform_spec(1, x) == (TOP as int, x - 256 * SCALE),
{
    let step = step_of(1);
    assert(step == 256 * SCALE);
    vstd::arithmetic::div_mod::lemma_fundamental_div_mod(x, step);
    if x < 256 * SCALE {
        vstd::arithmetic::div_mod::lemma_fundamental_div_mod_converse(x, step, 0, x);
    }
}

/// The nearest-color quantizer returns a palette member at minimal distance,
/// and no member before it is as near.
pub proof fn lemma_nearest_is_first_minimum(p: Seq<RGB>, v: Triple, k: int)
    requires
        1 <= k <= p.len(),
    ensures
        0 <= nearest_index(p, v, k) < k,
        forall|j: int| 0 <= j < k ==> dist(v, p[nearest_index(p, v, k)]) <= dist(v, #[trigger] p[j]),
        forall|j: int| 0 <= j < nearest_index(p, v, k) ==> dist(v, p[nearest_index(p, v, k)]) < dist(v, #[trigger] p[j]),
    decreases k,
{
    if k > 1 {
        lemma_nearest_is_first_minimum(p, v, k - 1);
    }
}

/// What the nearest-color quantizer returns is a color of the palette, the
/// first of those at minimal L1 distance.
pub proof fn lemma_palette_member(p: Seq<RGB>, v: Triple)
    requires
        p.len() >= 1,
    ensures
        exists|i: int| 0 <= i < p.len() && quantize_spec(QuantSpec::Palette(p), v).0 == fixed_of(#[trigger] p[i])
            && (forall|j: int| 0 <= j < p.len() ==> dist(v, p[i]) <= dist(v, #[trigger] p[j]))
            && (forall|j: int| 0 <= j < i ==> dist(v, p[i]) < dist(v, #[trigger] p[j])),
{
    lemma_nearest_is_first_minimum(p, v, p.len() as int);
    let i = nearest_index(p, v, p.len() as int);
    assert(quantize_spec(QuantSpec::Palette(p), v).0 == fixed_of(p[i]));
}

} // verus!
