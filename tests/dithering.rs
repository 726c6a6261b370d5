use dither::color::{Px, RGB};
use dither::engine::diffuse;
use dither::error::{Error, IOError};
use dither::fixed::SCALE;
use dither::kernel::{Ditherer, Kernel, Tap};
use dither::mode::Mode;
use dither::opts::Opt;
use dither::pipeline::{create_quantize_n_bits_func, dither_image};
use dither::quantize::Quantizer;

fn gray(v: u8) -> RGB {
    RGB(v, v, v)
}

const ALL: [Ditherer; 6] = [
    Ditherer::Floyd,
    Ditherer::Atkinson,
    Ditherer::Stucki,
    Ditherer::Burkes,
    Ditherer::Jarvis,
    Ditherer::Sierra3,
];

#[test]
fn two_pixels_floyd_steinberg() {
    let img = vec![gray(10), gray(250)];
    let out = dither_image(2, &img, &Mode::BlackAndWhite, 1, Ditherer::Floyd).unwrap();
    assert_eq!(out, vec![gray(0), gray(255)]);
}

#[test]
fn accumulator_gets_seven_sixteenths() {
    let k = Ditherer::Floyd.kernel();
    let pixels = vec![Px { r: 10 * SCALE, g: 0, b: 0 }, Px { r: 250 * SCALE, g: 0, b: 0 }];
    let out = diffuse(2, &pixels, &k, &Quantizer::Uniform(1));
    assert_eq!(out[0].r, 0);
    assert_eq!(out[1].r, 255 * SCALE);
    // 10 * 7/16 = 4.375 levels lifts 120 to 124.375, still below the threshold
    let pixels = vec![Px { r: 10 * SCALE, g: 0, b: 0 }, Px { r: 120 * SCALE, g: 0, b: 0 }];
    let out = diffuse(2, &pixels, &k, &Quantizer::Uniform(1));
    assert_eq!(out[1].r, 0);
    // 10 * 7/16 lifts 124 to 128.375: over it
    let pixels = vec![Px { r: 10 * SCALE, g: 0, b: 0 }, Px { r: 124 * SCALE, g: 0, b: 0 }];
    let out = diffuse(2, &pixels, &k, &Quantizer::Uniform(1));
    assert_eq!(out[1].r, 255 * SCALE);
}

#[test]
fn palette_mode_with_depth_two_is_refused() {
    let img = vec![gray(10), gray(250)];
    assert_eq!(dither_image(2, &img, &Mode::cga_palette(), 2, Ditherer::Floyd), Err(Error::IncompatibleOptions));
    let custom = Mode::CustomPalette { front: RGB(255, 0, 0), back: RGB(0, 0, 0) };
    assert_eq!(dither_image(2, &img, &custom, 3, Ditherer::Floyd), Err(Error::IncompatibleOptions));
}

#[test]
fn bad_bit_depth() {
    let img = vec![gray(10)];
    assert_eq!(dither_image(1, &img, &Mode::BlackAndWhite, 0, Ditherer::Floyd), Err(Error::BadBitDepth(0)));
    assert_eq!(dither_image(1, &img, &Mode::cga_palette(), 8, Ditherer::Floyd), Err(Error::BadBitDepth(8)));
    assert!(create_quantize_n_bits_func(0).is_err());
    assert_eq!(create_quantize_n_bits_func(7), Ok(Quantizer::Uniform(7)));
}

#[test]
fn kernels_point_forward_and_sum_to_one() {
    for d in ALL {
        let k = d.kernel();
        let total: i64 = k.taps.iter().map(|t| t.weight).sum();
        if d == Ditherer::Atkinson {
            assert_eq!(total * 8, 6 * k.divisor);
        } else {
            assert_eq!(total, k.divisor);
        }
        for t in &k.taps {
            assert!(t.dy > 0 || (t.dy == 0 && t.dx > 0));
            assert!(t.weight > 0);
        }
    }
    assert_eq!(Ditherer::Floyd.kernel().taps[0], Tap { dx: 1, dy: 0, weight: 7 });
}

#[test]
fn same_input_same_output() {
    let img: Vec<RGB> = (0u32..48).map(|i| RGB((i * 5) as u8, (i * 3) as u8, (255 - i * 4) as u8)).collect();
    for d in ALL {
        for mode in [Mode::BlackAndWhite, Mode::Color, Mode::cga_palette()] {
            let a = dither_image(8, &img, &mode, 1, d).unwrap();
            let b = dither_image(8, &img, &mode, 1, d).unwrap();
            assert_eq!(a, b);
        }
    }
}

#[test]
fn dithering_twice_differs() {
    let img: Vec<RGB> = vec![gray(200)];
    let red = Mode::SingleColor(RGB(0xAA, 0, 0));
    let once = dither_image(1, &img, &red, 1, Ditherer::Floyd).unwrap();
    assert_eq!(once, vec![RGB(0xAA, 0, 0)]);
    let twice = dither_image(1, &once, &red, 1, Ditherer::Floyd).unwrap();
    assert_eq!(twice, vec![RGB(0, 0, 0)]);
}

#[test]
fn no_wrap_at_the_right_edge() {
    // one column: the right neighbor of the top pixel is off the grid, not the pixel below
    let k = Ditherer::Floyd.kernel();
    let pixels = vec![Px { r: 90 * SCALE, g: 0, b: 0 }, Px { r: 90 * SCALE, g: 0, b: 0 }];
    let column = diffuse(1, &pixels, &k, &Quantizer::Uniform(1));
    assert_eq!(column[1].r, 0);
    let row = diffuse(2, &pixels, &k, &Quantizer::Uniform(1));
    assert_eq!(row[1].r, 255 * SCALE);
}

#[test]
fn custom_kernel_shares_round_down() {
    let k = Kernel { taps: vec![Tap { dx: 1, dy: 0, weight: 1 }], divisor: 3 };
    let pixels = vec![Px { r: 1, g: -1, b: 0 }, Px { r: 0, g: 0, b: 0 }];
    let out = diffuse(2, &pixels, &k, &Quantizer::Uniform(1));
    // residuals 1 and -1 units: shares 0 and -1 units
    assert_eq!(out[1], Px { r: 0, g: 0, b: 0 });
}

#[test]
fn color_mode_keeps_channels_apart() {
    let img = vec![RGB(250, 10, 130)];
    let out = dither_image(1, &img, &Mode::Color, 1, Ditherer::Floyd).unwrap();
    assert_eq!(out, vec![RGB(255, 0, 255)]);
}

#[test]
fn cga_mode_keeps_palette_colors() {
    let img = vec![RGB(0xAA, 0, 0), RGB(0x55, 0xFF, 0xFF), RGB(0xFF, 0xFF, 0x55)];
    let out = dither_image(3, &img, &Mode::cga_palette(), 1, Ditherer::Atkinson).unwrap();
    assert_eq!(out, img);
}

#[test]
fn single_color_tints_toward_the_color() {
    let img = vec![gray(200), gray(20)];
    let out = dither_image(1, &img, &Mode::SingleColor(RGB(0xAA, 0x55, 0)), 1, Ditherer::Floyd).unwrap();
    assert_eq!(out, vec![RGB(0xAA, 0x55, 0), RGB(0, 0, 0)]);
}

#[test]
fn custom_palette_blends_front_and_back() {
    let img = vec![gray(200), gray(20)];
    let mode = Mode::CustomPalette { front: RGB(255, 0, 0), back: RGB(0, 0, 200) };
    let out = dither_image(1, &img, &mode, 1, Ditherer::Floyd).unwrap();
    assert_eq!(out, vec![RGB(255, 0, 0), RGB(0, 0, 200)]);
}

#[test]
fn grayscale_at_three_steps() {
    // steps of 256/3 levels: 85.33 and 170.67 round to 85 and 171
    let img = vec![gray(90), gray(180)];
    let out = dither_image(1, &img, &Mode::BlackAndWhite, 3, Ditherer::Floyd).unwrap();
    assert_eq!(out[0], gray(85));
}

#[test]
fn ditherer_names() {
    assert_eq!(Ditherer::parse("floyd"), Ok(Ditherer::Floyd));
    assert_eq!(Ditherer::parse("Sierra3"), Ok(Ditherer::Sierra3));
    assert_eq!("jarvis".parse::<Ditherer>(), Ok(Ditherer::Jarvis));
    assert_eq!(Ditherer::parse("ordered"), Err(Error::UnknownDitherer("ordered".to_string())));
    assert_eq!(Ditherer::Atkinson.name(), "atkinson");
}

#[test]
fn default_output_path() {
    let mut opt = Opt::default();
    opt.bit_depth = 1;
    opt.input = "bunny.png".to_string();
    let got = opt.output_path(Ok("/home/someone/pics/bunny.png".to_string())).unwrap();
    assert_eq!(got, "bunny_dithered_floyd_bw_1.png");
    opt.ditherer = Ditherer::Atkinson;
    opt.color_mode = Mode::Color;
    opt.bit_depth = 2;
    let got = opt.output_path(Ok("/a.b/bunny.tar.gz".to_string())).unwrap();
    assert_eq!(got, "bunny.tar_dithered_atkinson_color_2.png");
    let got = opt.output_path(Ok("/x/.hidden".to_string())).unwrap();
    assert_eq!(got, ".hidden_dithered_atkinson_color_2.png");
}

#[test]
fn output_path_errors() {
    let mut opt = Opt::default();
    opt.input = "bunny.png".to_string();
    assert_eq!(opt.output_source(), "bunny.png");
    let err = opt.output_path(Err("missing".to_string())).unwrap_err();
    assert_eq!(
        err,
        Error::Output(IOError {
            path: "bunny.png".to_string(),
            cause: "missing; could not create default output path from input path".to_string(),
        })
    );
    opt.output = Some("out.png".to_string());
    assert_eq!(opt.output_source(), "out.png");
    assert_eq!(opt.output_path(Ok("/tmp/out.png".to_string())), Ok("/tmp/out.png".to_string()));
    assert_eq!(
        opt.output_path(Err("denied".to_string())),
        Err(Error::Output(IOError { path: "out.png".to_string(), cause: "denied".to_string() }))
    );
}

#[test]
fn input_path_passes_canonical_form() {
    let mut opt = Opt::default();
    opt.input = "in.png".to_string();
    assert_eq!(opt.input_path(Ok("/w/in.png".to_string())), Ok("/w/in.png".to_string()));
    assert_eq!(
        opt.input_path(Err("no such file".to_string())),
        Err(Error::Input(IOError { path: "in.png".to_string(), cause: "no such file".to_string() }))
    );
}

#[test]
fn color_errors_convert() {
    let e: Error = dither::mode::Error::BadPaletteColor(1).into();
    assert_eq!(e, Error::Color(dither::mode::Error::BadPaletteColor(1)));
}

#[test]
fn run_error_messages() {
    assert_eq!(Error::BadBitDepth(12).message(), "bit depth must be between 1 and 7, but was 12");
    assert_eq!(Error::BadBitDepth(200).message(), "bit depth must be between 1 and 7, but was 200");
    assert_eq!(Error::IncompatibleOptions.message(), "a palette color mode needs a bit depth of 1");
    assert_eq!(Error::UnknownDitherer("x".to_string()).message(), "unknown ditherer \"x\"");
    let io = IOError { path: "a.png".to_string(), cause: "gone".to_string() };
    assert_eq!(Error::Input(io.clone()).message(), "could not read input \"a.png\": gone");
    assert_eq!(Error::Output(io).message(), "could not write output \"a.png\": gone");
    assert_eq!(
        Error::Color(dither::mode::Error::UnknownOption("q".to_string())).message(),
        "unknown color option \"q\""
    );
}
