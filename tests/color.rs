use dither::color::RGB;
use dither::mode::{Error, Mode, BLUE, LIGHT_CYAN, RED};

#[test]
fn test_parse() {
    const GARBAGE: &str = "alksdalksdsj";
    let tt: Vec<(&str, Result<Mode, Error>)> = vec![
        ("bw", Ok(Mode::BlackAndWhite)),
        ("c", Ok(Mode::Color)),
        ("color", Ok(Mode::Color)),
        ("RED", Ok(Mode::SingleColor(RGB::from_hex(RED)))),
        ("blue", Ok(Mode::SingleColor(RGB::from_hex(BLUE)))),
        ("LigHT_CYAN", Ok(Mode::SingleColor(RGB::from_hex(LIGHT_CYAN)))),
        ("cga", Ok(Mode::cga_palette())),
        (GARBAGE, Err(Error::UnknownOption(GARBAGE.to_string()))),
    ];
    for (s, want) in tt {
        assert_eq!(s.parse::<Mode>(), want);
    }
}

#[test]
fn parse_gray_words() {
    assert_eq!(Mode::parse("White"), Ok(Mode::BlackAndWhite));
    assert_eq!(Mode::parse("BLACK"), Ok(Mode::BlackAndWhite));
}

#[test]
fn parse_custom_palette() {
    assert_eq!(
        Mode::parse("0xFFFFFF 0x000000"),
        Ok(Mode::CustomPalette { front: RGB(255, 255, 255), back: RGB(0, 0, 0) })
    );
    assert_eq!(
        Mode::parse("0x12ab34 0X0000ff"),
        Ok(Mode::CustomPalette { front: RGB(0x12, 0xab, 0x34), back: RGB(0, 0, 255) })
    );
}

#[test]
fn parse_bad_palette_color() {
    assert_eq!(Mode::parse("0x1ffffff 0x123129"), Err(Error::BadPaletteColor(0x1_ff_ff_ff)));
    assert_eq!(Mode::parse("0x123129 0x1000000"), Err(Error::BadPaletteColor(0x100_0000)));
}

#[test]
fn parse_malformed_palette() {
    assert_eq!(Mode::parse("0xzz 0x000000"), Err(Error::CouldNotParsePalette("0xzz".to_string())));
    assert_eq!(Mode::parse("0x000000 123"), Err(Error::CouldNotParsePalette("123".to_string())));
    assert_eq!(Mode::parse("0x 0x1"), Err(Error::CouldNotParsePalette("0x".to_string())));
}

#[test]
fn cga_palette_has_sixteen_colors() {
    match Mode::cga_palette() {
        Mode::KnownPalette { palette, name } => {
            assert_eq!(palette.len(), 16);
            assert_eq!(palette[0], RGB(0, 0, 0));
            assert_eq!(palette[4], RGB(0xAA, 0, 0));
            assert_eq!(palette[15], RGB(0xFF, 0xFF, 0xFF));
            assert_eq!(name, "CGA");
        }
        other => panic!("not a palette: {:?}", other),
    }
}

#[test]
fn mode_names() {
    assert_eq!(Mode::BlackAndWhite.name(), "bw");
    assert_eq!(Mode::Color.name(), "color");
    assert_eq!(Mode::cga_palette().name(), "palette: CGA");
    assert_eq!(Mode::SingleColor(RGB::from_hex(RED)).name(), "single_color_aa0000");
    assert_eq!(
        Mode::CustomPalette { front: RGB(1, 2, 3), back: RGB(255, 254, 16) }.name(),
        "custom_palette_010203_fffe10"
    );
}

#[test]
fn default_mode_is_grayscale() {
    assert_eq!(Mode::default(), Mode::BlackAndWhite);
}

#[test]
fn from_hex_splits_channels() {
    assert_eq!(RGB::from_hex(0x12_34_56), RGB(0x12, 0x34, 0x56));
}

#[test]
fn color_error_messages() {
    assert_eq!(Error::UnknownOption("zz".to_string()).message(), "unknown color option \"zz\"");
    assert_eq!(
        Error::BadPaletteColor(0x1ff_ffff).message(),
        "palette colors must be between 0x00 and 0xffffff, but had 0x1ffffff"
    );
    assert_eq!(Error::BadPaletteColor(0).message(), "palette colors must be between 0x00 and 0xffffff, but had 0x0");
    assert_eq!(Error::CouldNotParsePalette("0xq".to_string()).message(), "could not parse specified palette: 0xq");
}
