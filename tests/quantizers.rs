use dither::color::{to_level, Px, RGB};
use dither::fixed::{SCALE, TOP};
use dither::quantize::{quantize_palette, quantize_uniform, Quantizer};

#[test]
fn uniform_stays_in_range() {
    for n in 1u8..=7 {
        for x in 0i64..=255 {
            let v = x * SCALE;
            let (q, r) = quantize_uniform(n, v);
            assert!(0 <= q && q <= TOP);
            assert!(r == v - q || (q == TOP && r == v - 256 * SCALE), "n={} x={}", n, x);
        }
    }
}

#[test]
fn one_step_is_a_threshold() {
    assert_eq!(quantize_uniform(1, 10 * SCALE), (0, 10 * SCALE));
    assert_eq!(quantize_uniform(1, 127 * SCALE), (0, 127 * SCALE));
    assert_eq!(quantize_uniform(1, 128 * SCALE), (TOP, -128 * SCALE));
    assert_eq!(quantize_uniform(1, 250 * SCALE), (TOP, -6 * SCALE));
    assert_eq!(quantize_uniform(1, 255 * SCALE), (TOP, -SCALE));
}

#[test]
fn two_steps_round_to_nearest_multiple() {
    // steps of 128 levels: 0, 128, and 256 clamped to 255
    assert_eq!(quantize_uniform(2, 60 * SCALE), (0, 60 * SCALE));
    assert_eq!(quantize_uniform(2, 100 * SCALE), (128 * SCALE, -28 * SCALE));
    assert_eq!(quantize_uniform(2, 200 * SCALE), (TOP, -56 * SCALE));
}

#[test]
fn negative_values_floor_at_zero() {
    assert_eq!(quantize_uniform(1, -5 * SCALE), (0, -5 * SCALE));
}

#[test]
fn palette_picks_nearest() {
    let p = vec![RGB(0, 0, 0), RGB(255, 0, 0), RGB(0, 0, 255)];
    let v = Px { r: 200 * SCALE, g: 10 * SCALE, b: 0 };
    let (c, e) = quantize_palette(&p, v);
    assert_eq!(c, Px { r: 255 * SCALE, g: 0, b: 0 });
    assert_eq!(e, Px { r: -55 * SCALE, g: 10 * SCALE, b: 0 });
}

#[test]
fn palette_ties_go_to_the_first() {
    let p = vec![RGB(0, 0, 0), RGB(20, 20, 20), RGB(0, 0, 0)];
    let v = Px { r: 10 * SCALE, g: 10 * SCALE, b: 10 * SCALE };
    let (c, e) = quantize_palette(&p, v);
    assert_eq!(c, Px { r: 0, g: 0, b: 0 });
    assert_eq!(e, v);
    let p2 = vec![RGB(20, 20, 20), RGB(0, 0, 0)];
    let (c2, _) = quantize_palette(&p2, v);
    assert_eq!(c2, Px { r: 20 * SCALE, g: 20 * SCALE, b: 20 * SCALE });
}

#[test]
fn quantizer_applies_per_channel() {
    let q = Quantizer::Uniform(1);
    let (o, e) = q.apply(Px { r: 10 * SCALE, g: 200 * SCALE, b: 128 * SCALE });
    assert_eq!(o, Px { r: 0, g: TOP, b: TOP });
    assert_eq!(e, Px { r: 10 * SCALE, g: -56 * SCALE, b: -128 * SCALE });
}

#[test]
fn levels_round_and_clamp() {
    assert_eq!(to_level(-3), 0);
    assert_eq!(to_level(TOP + 1), 255);
    assert_eq!(to_level(127 * SCALE + SCALE / 2), 128);
    assert_eq!(to_level(127 * SCALE + SCALE / 2 - 1), 127);
    assert_eq!(Px { r: 3 * SCALE, g: 0, b: 254 * SCALE + 2 * SCALE / 3 }.to_rgb(), RGB(3, 0, 255));
}

#[test]
fn luminance_uses_fixed_weights() {
    let p = RGB(100, 50, 200).to_luma();
    // 0.299 * 100 + 0.587 * 50 + 0.114 * 200 = 82.05 levels
    assert_eq!(p.r, 82 * SCALE + 5 * SCALE / 100);
    assert_eq!(p.g, p.r);
    assert_eq!(p.b, p.r);
    assert_eq!(RGB(255, 255, 255).to_luma().r, TOP);
}
