//! Error-diffusion kernels: where a pixel's residual goes, and in what share.
use vstd::prelude::*;

verus! {

/// One kernel entry: the neighbor at `(dx, dy)` from the current pixel gets
/// `weight / divisor` of its residual.
#[derive(Clone, Copy, Debug, PartialEq, Eq, Structural)]
pub struct Tap {
    pub dx: i64,
    pub dy: i64,
    pub weight: i64,
}

/// A table of taps with a common divisor.
#[derive(Clone, Debug, PartialEq, Eq)]
pub struct Kernel {
    pub taps: Vec<Tap>,
    pub divisor: i64,
}

/// The tap points strictly later in raster-scan order.
pub open spec fn forward(t: Tap) -> bool {
    t.dy > 0 || (t.dy == 0 && t.dx > 0)
}

/// Sum of the weights of `taps[..j]`.
pub open spec fn weight_sum(taps: Seq<Tap>, j: int) -> int
    decreases j,
{
    if j <= 0 {
        0
    } else {
        weight_sum(taps, j - 1) + taps[j - 1].weight
    }
}

impl Kernel {
    pub open spec fn wf(&self) -> bool {
        &&& 1 <= self.divisor <= 64
        &&& self.taps@.len() <= 16
        &&& forall|i: int|
            0 <= i < self.taps@.len() ==> {
                let t = #[trigger] self.taps@[i];
                &&& forward(t)
                &&& 0 < t.weight
                &&& -16 <= t.dx <= 16
                &&& t.dy <= 16
            }
        &&& weight_sum(self.taps@, self.taps@.len() as int) <= self.divisor
    }
}

pub proof fn lemma_weight_sum_mono(taps: Seq<Tap>, j: int, k: int)
    requires
        0 <= j <= k <= taps.len(),
        forall|i: int| 0 <= i < taps.len() ==> 0 < #[trigger] taps[i].weight,
    ensures
        weight_sum(taps, j) <= weight_sum(taps, k),
    decreases k - j,
{
    if j < k {
        lemma_weight_sum_mono(taps, j, k - 1);
    }
}

/// The classical error-diffusion algorithms.
#[derive(Clone, Copy, Debug, PartialEq, Eq, Structural)]
pub enum Ditherer {
    Floyd,
    Atkinson,
    Stucki,
    Burkes,
    Jarvis,
    Sierra3,
}

pub open spec fn t(dx: int, dy: int, weight: int) -> Tap {
    Tap { dx: dx as i64, dy: dy as i64, weight: weight as i64 }
}

fn tap(dx: i64, dy: i64, weight: i64) -> (r: Tap)
    ensures
        r == t(dx as int, dy as int, weight as int),
{
    Tap { dx, dy, weight }
}

impl Ditherer {
    /// The literature-standard tap table of this algorithm.
    pub open spec fn spec_taps(self) -> Seq<Tap> {
        match self {
            Ditherer::Floyd => seq![t(1, 0, 7), t(-1, 1, 3), t(0, 1, 5), t(1, 1, 1)],
            Ditherer::Atkinson => seq![
                t(1, 0, 1), t(2, 0, 1), t(-1, 1, 1), t(0, 1, 1), t(1, 1, 1), t(0, 2, 1)
            ],
            Ditherer::Stucki => seq![
                t(1, 0, 8), t(2, 0, 4),
                t(-2, 1, 2), t(-1, 1, 4), t(0, 1, 8), t(1, 1, 4), t(2, 1, 2),
                t(-2, 2, 1), t(-1, 2, 2), t(0, 2, 4), t(1, 2, 2), t(2, 2, 1)
            ],
            Ditherer::Burkes => seq![
                t(1, 0, 8), t(2, 0, 4),
                t(-2, 1, 2), t(-1, 1, 4), t(0, 1, 8), t(1, 1, 4), t(2, 1, 2)
            ],
            Ditherer::Jarvis => seq![
                t(1, 0, 7), t(2, 0, 5),
                t(-2, 1, 3), t(-1, 1, 5), t(0, 1, 7), t(1, 1, 5), t(2, 1, 3),
                t(-2, 2, 1), t(-1, 2, 3), t(0, 2, 5), t(1, 2, 3), t(2, 2, 1)
            ],
            Ditherer::Sierra3 => seq![
                t(1, 0, 5), t(2, 0, 3),
                t(-2, 1, 2), t(-1, 1, 4), t(0, 1, 5), t(1, 1, 4), t(2, 1, 2),
                t(-1, 2, 2), t(0, 2, 3), t(1, 2, 2)
            ],
        }
    }

    /// The divisor of this algorithm's weights.
    pub open spec fn spec_divisor(self) -> int {
        match self {
            Ditherer::Floyd => 16,
            Ditherer::Atkinson => 8,
            Ditherer::Stucki => 42,
            Ditherer::Burkes => 32,
            Ditherer::Jarvis => 48,
            Ditherer::Sierra3 => 32,
        }
    }

    /// The kernel of this algorithm.
    pub fn kernel(&self) -> (k: Kernel)
        ensures
            k.taps@ == self.spec_taps(),
            k.divisor == self.spec_divisor(),
            k.wf(),
    {
        let (taps, divisor) = match self {
            Ditherer::Floyd => (vec![tap(1, 0, 7), tap(-1, 1, 3), tap(0, 1, 5), tap(1, 1, 1)], 16),
            Ditherer::Atkinson => (
                vec![tap(1, 0, 1), tap(2, 0, 1), tap(-1, 1, 1), tap(0, 1, 1), tap(1, 1, 1), tap(0, 2, 1)],
                8,
            ),
            Ditherer::Stucki => (
                vec![
                    tap(1, 0, 8), tap(2, 0, 4),
                    tap(-2, 1, 2), tap(-1, 1, 4), tap(0, 1, 8), tap(1, 1, 4), tap(2, 1, 2),
                    tap(-2, 2, 1), tap(-1, 2, 2), tap(0, 2, 4), tap(1, 2, 2), tap(2, 2, 1),
                ],
                42,
            ),
            Ditherer::Burkes => (
                vec![
                    tap(1, 0, 8), tap(2, 0, 4),
                    tap(-2, 1, 2), tap(-1, 1, 4), tap(0, 1, 8), tap(1, 1, 4), tap(2, 1, 2),
                ],
                32,
            ),
            Ditherer::Jarvis => (
                vec![
                    tap(1, 0, 7), tap(2, 0, 5),
                    tap(-2, 1, 3), tap(-1, 1, 5), tap(0, 1, 7), tap(1, 1, 5), tap(2, 1, 3),
                    tap(-2, 2, 1), tap(-1, 2, 3), tap(0, 2, 5), tap(1, 2, 3), tap(2, 2, 1),
                ],
                48,
            ),
            Ditherer::Sierra3 => (
                vec![
                    tap(1, 0, 5), tap(2, 0, 3),
                    tap(-2, 1, 2), tap(-1, 1, 4), tap(0, 1, 5), tap(1, 1, 4), tap(2, 1, 2),
                    tap(-1, 2, 2), tap(0, 2, 3), tap(1, 2, 2),
                ],
                32,
            ),
        };
        let k = Kernel { taps, divisor };
        proof {
            assert(k.taps@ =~= self.spec_taps());
            lemma_classical_kernels(*self);
        }
        k
    }
}

/// Every classical kernel points only forward in scan order, and its weights
/// sum to its divisor (a whole residual), except Atkinson's, which passes on
/// six eighths.
pub proof fn lemma_classical_kernels(d: Ditherer)
    ensures
        forall|i: int| 0 <= i < d.spec_taps().len() ==> forward(#[trigger] d.spec_taps()[i]),
        d != Ditherer::Atkinson ==> weight_sum(d.spec_taps(), d.spec_taps().len() as int) == d.spec_divisor(),
        d == Ditherer::Atkinson ==> 4 * weight_sum(d.spec_taps(), d.spec_taps().len() as int) == 3 * d.spec_divisor(),
        forall|i: int| 0 <= i < d.spec_taps().len() ==> {
            let t = #[trigger] d.spec_taps()[i];
            0 < t.weight && -16 <= t.dx <= 16 && t.dy <= 16
        },
        d.spec_taps().len() <= 16,
{
    reveal_with_fuel(weight_sum, 13);
}

} // verus!
