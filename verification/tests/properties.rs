use svgcolor::{
    compute_color_mix, from_hex, hex_pair, interpolate_hue, mix_in_srgb, short_hex, Color,
    ColorSpace, Error, HueInterpolation, MixRequest, Stream, FULL_TURN, HUE_DEGREE, WEIGHT_ONE,
};

fn parse(text: &str) -> Color {
    Color::from_str(text).unwrap()
}

fn message(text: &str) -> String {
    Color::from_str(text).unwrap_err().to_string()
}

#[test]
fn mix_is_symmetric() {
    assert_eq!(
        parse("color-mix(in srgb, red 30%, blue)"),
        parse("color-mix(in srgb, blue, red 30%)")
    );
    assert_eq!(
        parse("color-mix(in srgb, rgba(255, 0, 0, 0.25) 10%, #00ff0080 60%)"),
        parse("color-mix(in srgb, #00ff0080 60%, rgba(255, 0, 0, 0.25) 10%)")
    );
}

#[test]
fn mix_of_a_color_with_itself() {
    assert_eq!(
        parse("color-mix(in srgb, #12345680, #12345680)"),
        Color::new_rgba(0x12, 0x34, 0x56, 0x80)
    );
    // Weights adding up to 50% halve the alpha.
    assert_eq!(
        parse("color-mix(in srgb, #123456 20%, #123456 30%)"),
        Color::new_rgba(0x12, 0x34, 0x56, 128)
    );
}

#[test]
fn mix_with_full_weight() {
    assert_eq!(parse("color-mix(in srgb, red 100%, blue 0%)"), Color::red());
    assert_eq!(parse("color-mix(in srgb, red 0%, blue)"), Color::blue());
}

#[test]
fn mix_with_zero_weights_is_transparent() {
    assert_eq!(
        parse("color-mix(in srgb, red 0%, blue 0%)"),
        Color::new_rgba(0, 0, 0, 0)
    );
}

#[test]
fn mix_clamps_percentages() {
    assert_eq!(
        parse("color-mix(in srgb, red 150%, blue -20%)"),
        parse("color-mix(in srgb, red 100%, blue 0%)")
    );
}

#[test]
fn mix_premultiplies_alpha() {
    // 50% red at alpha 128 with 50% blue: alpha (128 + 255) / 2 = 191.5,
    // rounded half away from zero; red carries 128 / 383 of the channels.
    assert_eq!(
        parse("color-mix(in srgb, rgba(255, 0, 0, 0.5), blue)"),
        Color::new_rgba(85, 0, 170, 192)
    );
}

#[test]
fn hex_notation_round_trip() {
    let colors = [
        Color::new_rgba(0, 0, 0, 0),
        Color::new_rgba(255, 255, 255, 255),
        Color::new_rgba(0x12, 0xab, 0x9f, 0x07),
        Color::new_rgba(100, 149, 237, 128),
    ];
    for c in colors {
        let lower = format!("#{:02x}{:02x}{:02x}{:02x}", c.red, c.green, c.blue, c.alpha);
        assert_eq!(parse(&lower), c);
        let upper = format!("#{:02X}{:02X}{:02X}{:02X}", c.red, c.green, c.blue, c.alpha);
        assert_eq!(parse(&upper), c);
        let rgb = format!("#{:02x}{:02x}{:02x}", c.red, c.green, c.blue);
        assert_eq!(parse(&rgb), Color::new_rgba(c.red, c.green, c.blue, 255));
    }
}

#[test]
fn hex_helpers() {
    assert_eq!(from_hex(b'7'), 7);
    assert_eq!(from_hex(b'a'), 10);
    assert_eq!(from_hex(b'F'), 15);
    assert_eq!(from_hex(b'g'), 0);
    assert_eq!(short_hex(b'f'), 0xff);
    assert_eq!(short_hex(b'8'), 0x88);
    assert_eq!(hex_pair(b'8', b'0'), 0x80);
    assert_eq!(hex_pair(b'C', b'd'), 0xcd);
}

#[test]
fn supplied_mixes_unused_without_open_mix() {
    let blue = Color::blue();
    assert_eq!(Color::from_str_with_mixes("red", vec![blue]).unwrap(), Color::red());
    assert_eq!(
        Color::from_str_with_mixes("color-mix(in srgb, red, blue)", vec![Color::white()]).unwrap(),
        Color::new_rgb(128, 0, 128)
    );
}

#[test]
fn supplied_mixes_taken_in_order() {
    let text = "color-mix(in oklab, color-mix(in lab, red, blue), green)";
    let inner = Color::new_rgb(1, 2, 3);
    let outer = Color::new_rgb(4, 5, 6);
    assert_eq!(Color::from_str_with_mixes(text, vec![inner, outer]).unwrap(), outer);
    match Color::from_str_with_mixes(text, vec![inner]) {
        Err(Error::UnresolvedColorMix(req)) => {
            assert_eq!(req.space, ColorSpace::Oklab);
            assert_eq!(req.hue_interpolation, HueInterpolation::Shorter);
            assert_eq!(req.first, inner);
            assert_eq!(req.first_weight, None);
            assert_eq!(req.second, Color::green());
            assert_eq!(req.second_weight, None);
        }
        other => panic!("unexpected result {:?}", other),
    }
}

#[test]
fn unresolved_mix_error() {
    match Color::from_str("color-mix(in hsl longer hue, red 25%, blue)") {
        Err(Error::UnresolvedColorMix(req)) => {
            assert_eq!(req.space, ColorSpace::Hsl);
            assert_eq!(req.hue_interpolation, HueInterpolation::Longer);
            assert_eq!(req.first, Color::red());
            assert_eq!(req.first_weight, Some(WEIGHT_ONE / 4));
            assert_eq!(req.second, Color::blue());
            assert_eq!(req.second_weight, None);
        }
        other => panic!("unexpected result {:?}", other),
    }
    assert_eq!(
        message("color-mix(in oklab, red, blue)"),
        "no mixed color supplied for color-mix()"
    );
}

#[test]
fn keywords_in_any_case() {
    assert_eq!(
        parse("COLOR-MIX(in srgb, red, blue)"),
        parse("color-mix(in srgb, red, blue)")
    );
    assert_eq!(parse("HsLa(120, 100%, 75%, 0.5)"), parse("hsla(120, 100%, 75%, 0.5)"));
    assert_eq!(parse("Transparent"), Color::new_rgba(0, 0, 0, 0));
    assert_eq!(parse("CornFlowerBlue"), Color::new_rgb(100, 149, 237));
    assert_eq!(parse("color-mix(IN SRGB, RED, BLUE)"), Color::new_rgb(128, 0, 128));
}

#[test]
fn hsl_hue_is_periodic() {
    let base = parse("hsl(120, 100%, 75%)");
    assert_eq!(parse("hsl(480, 100%, 75%)"), base);
    assert_eq!(parse("hsl(-240, 100%, 75%)"), base);
    assert_eq!(parse("hsl(840, 100%, 75%)"), base);
}

#[test]
fn hsl_exact_values() {
    assert_eq!(parse("hsl(0, 100%, 50%)"), Color::red());
    assert_eq!(parse("hsl(240, 100%, 50%)"), Color::blue());
    assert_eq!(parse("hsl(0, 0%, 50%)"), Color::new_rgb(128, 128, 128));
    assert_eq!(parse("hsl(180, 0.5, 0.25)"), Color::new_rgb(32, 96, 96));
}

#[test]
fn rgb_rounds_half_away_from_zero() {
    assert_eq!(parse("rgb(0.5, 1.5, 2.49)"), Color::new_rgb(1, 2, 2));
    assert_eq!(parse("rgb(1e2, 2.5E1, .5e1)"), Color::new_rgb(100, 25, 5));
    assert_eq!(parse("rgb(0, 0, 0, 0.002)"), Color::new_rgba(0, 0, 0, 1));
}

#[test]
fn try_parse_color_keeps_position_on_error() {
    let mut s = Stream::from_text("rgb(1, 2");
    assert_eq!(s.try_parse_color(), None);
    assert_eq!(s.pos(), 0);
    let mut s = Stream::from_text("red blue");
    assert_eq!(s.try_parse_color(), Some(Color::red()));
    assert_eq!(s.pos(), 3);
}

#[test]
fn stream_parse_color() {
    let mut s = Stream::from_text("  #fff rest");
    assert_eq!(s.parse_color().unwrap(), Color::white());
    assert_eq!(s.pos(), 6);
    let mut s = Stream::with_answers("color-mix(in lab, red, blue)", vec![Color::gray()]);
    assert_eq!(s.parse_color().unwrap(), Color::gray());
}

#[test]
fn error_variants() {
    assert_eq!(message(""), "unexpected end of stream");
    assert_eq!(message("   "), "unexpected end of stream");
    assert_eq!(message("red blue"), "unexpected data at position 5");
    assert_eq!(message("bluish"), "invalid value");
    assert_eq!(message("#12345"), "invalid value");
    assert_eq!(message("rgb 1"), "expected '(' not ' ' at position 4");
    assert_eq!(message("rgb(a"), "invalid number at position 5");
    assert_eq!(message("rgb(1e400, 0, 0)"), "invalid number at position 5");
    assert_eq!(message("color-mix(of srgb, red, blue)"), "invalid value");
    assert_eq!(Color::from_str("red blue"), Err(Error::UnexpectedData(5)));
    assert_eq!(Color::from_str("rgb 1"), Err(Error::InvalidChar(b' ', b'(', 4)));
    assert_eq!(Color::from_str("rgb(1, 2"), Err(Error::UnexpectedEndOfStream));
    assert_eq!(Color::from_str("hsl(1, 2, x)"), Err(Error::InvalidNumber(11)));
}

#[test]
fn defaults() {
    assert_eq!(ColorSpace::default(), ColorSpace::Oklab);
    assert_eq!(HueInterpolation::default(), HueInterpolation::Shorter);
}

#[test]
fn exact_mix_functions() {
    let req = MixRequest {
        space: ColorSpace::Srgb,
        hue_interpolation: HueInterpolation::Shorter,
        first: Color::red(),
        first_weight: Some(WEIGHT_ONE / 4),
        second: Color::blue(),
        second_weight: None,
    };
    assert_eq!(compute_color_mix(&req), Some(Color::new_rgb(64, 0, 191)));
    let lab = MixRequest { space: ColorSpace::Lab, ..req };
    assert_eq!(compute_color_mix(&lab), None);
    let half = WEIGHT_ONE / 2;
    assert_eq!(
        mix_in_srgb(Color::red(), half, Color::blue(), half),
        Color::new_rgb(128, 0, 128)
    );
}

#[test]
fn named_colors() {
    assert_eq!(parse("rebeccapurple"), Color::new_rgb(102, 51, 153));
    assert_eq!(parse("grey"), parse("gray"));
    assert_eq!(parse("yellowgreen"), Color::new_rgb(154, 205, 50));
    assert_eq!(parse("aliceblue"), Color::new_rgb(240, 248, 255));
}

#[test]
fn hue_interpolation_methods() {
    let deg = HUE_DEGREE;
    let (w1, w2) = (WEIGHT_ONE / 4, WEIGHT_ONE / 4 * 3);
    // From 20 to 300 degrees: the shorter arc crosses 0 (endpoints 380 and 300).
    assert_eq!(interpolate_hue(20 * deg, 300 * deg, w1, w2, HueInterpolation::Shorter), 320 * deg);
    assert_eq!(interpolate_hue(20 * deg, 300 * deg, w1, w2, HueInterpolation::Longer), 230 * deg);
    assert_eq!(interpolate_hue(20 * deg, 300 * deg, w1, w2, HueInterpolation::Increasing), 230 * deg);
    assert_eq!(interpolate_hue(20 * deg, 300 * deg, w1, w2, HueInterpolation::Decreasing), 320 * deg);
}

#[test]
fn hue_interpolation_laws() {
    let deg = HUE_DEGREE;
    let (w1, w2) = (WEIGHT_ONE / 10 * 3, WEIGHT_ONE / 10 * 7);
    for (h1, h2) in [(20 * deg, 300 * deg), (350 * deg, 10 * deg), (90 * deg, 270 * deg)] {
        for m in [HueInterpolation::Shorter, HueInterpolation::Longer] {
            assert_eq!(interpolate_hue(h1, h2, w1, w2, m), interpolate_hue(h2, h1, w2, w1, m));
        }
        assert_eq!(
            interpolate_hue(h1, h2, w1, w2, HueInterpolation::Increasing),
            interpolate_hue(h2, h1, w2, w1, HueInterpolation::Decreasing)
        );
        for m in [
            HueInterpolation::Shorter,
            HueInterpolation::Longer,
            HueInterpolation::Increasing,
            HueInterpolation::Decreasing,
        ] {
            let h = interpolate_hue(h1, h2, w1, w2, m);
            assert!(0 <= h && h < FULL_TURN);
            assert_eq!(interpolate_hue(h1 - 2 * FULL_TURN, h2 + FULL_TURN, w1, w2, m), h);
        }
    }
}

#[test]
fn invisible_mix_is_transparent_in_every_space() {
    for space in ["srgb", "oklab", "lab", "lch", "oklch", "hsl", "hwb", "srgb-linear"] {
        let text = format!("color-mix(in {}, rgba(255, 0, 0, 0), transparent)", space);
        assert_eq!(parse(&text), Color::new_rgba(0, 0, 0, 0));
        let text = format!("color-mix(in {}, red 0%, blue 0%)", space);
        assert_eq!(parse(&text), Color::new_rgba(0, 0, 0, 0));
    }
}

#[test]
fn mix_alpha_in_every_space() {
    // The supplied color gives red, green and blue; the alpha is the mix's.
    let supplied = Color::new_rgba(10, 20, 30, 7);
    let text = "color-mix(in oklab, rgba(255, 0, 0, 0.5), blue)";
    assert_eq!(
        Color::from_str_with_mixes(text, vec![supplied]).unwrap(),
        Color::new_rgba(10, 20, 30, 192)
    );
    let text = "color-mix(in lch, red 20%, blue 30%)";
    assert_eq!(
        Color::from_str_with_mixes(text, vec![supplied]).unwrap(),
        Color::new_rgba(10, 20, 30, 128)
    );
}

#[test]
fn rgb_notation_round_trip() {
    for v in 0..=255u8 {
        let colors = [
            Color::new_rgb(v, 0, 0),
            Color::new_rgb(0, v, 255),
            Color::new_rgb(255 - v, 128, v),
        ];
        for c in colors {
            let text = format!("rgb({},{},{})", c.red, c.green, c.blue);
            assert_eq!(parse(&text), c);
        }
    }
}

#[test]
fn hsl_grays_black_and_white() {
    for h in ["0", "77", "123.5", "300"] {
        let gray = parse(&format!("hsl({}, 0%, 30%)", h));
        assert_eq!(gray, Color::new_rgb(77, 77, 77));
        assert_eq!(parse(&format!("hsl({}, 45%, 0%)", h)), Color::black());
        assert_eq!(parse(&format!("hsl({}, 45%, 100%)", h)), Color::white());
    }
}

#[test]
fn leading_whitespace_moves_error_positions() {
    for text in ["#ff0000", "rgb(10, 20, 30)", "color-mix(in srgb, red, blue)", "hsl(1, 2%, 3%)"] {
        assert_eq!(Color::from_str(&format!(" \t\n\r{}", text)), Color::from_str(text));
    }
    assert_eq!(Color::from_str("red blue"), Err(Error::UnexpectedData(5)));
    assert_eq!(Color::from_str("   red blue"), Err(Error::UnexpectedData(8)));
    assert_eq!(Color::from_str("rgb(a"), Err(Error::InvalidNumber(5)));
    assert_eq!(Color::from_str("  rgb(a"), Err(Error::InvalidNumber(7)));
    assert_eq!(Color::from_str("bluish"), Color::from_str("\n bluish"));
}

#[test]
fn trailing_whitespace_keeps_the_color() {
    for text in ["#ff0000", "rgb(10, 20, 30)", "color-mix(in srgb, red 20%, blue)", "red", "#abc"] {
        let c = Color::from_str(text).unwrap();
        assert_eq!(Color::from_str(&format!("{} \t\r\n ", text)), Ok(c));
        assert_eq!(Color::from_str(&format!("  {}  ", text)), Ok(c));
    }
}

#[test]
fn mix_syntax_errors() {
    assert_eq!(Color::from_str("color-mix(in srgb, red 25, blue)"), Err(Error::InvalidValue));
    assert_eq!(Color::from_str("color-mix(in srgb, red, blue 25)"), Err(Error::InvalidValue));
    assert_eq!(Color::from_str("color-mix(in hsl foo, red, blue)"), Err(Error::InvalidValue));
    assert_eq!(Color::from_str("color-mix(in hsl longer, red, blue)"), Err(Error::InvalidValue));
    assert_eq!(
        Color::from_str("color-mix(in hsl longer hues, red, blue)"),
        Err(Error::InvalidValue)
    );
    assert_eq!(
        Color::from_str("color-mix(in srgb, red +x, blue)"),
        Err(Error::InvalidNumber(24))
    );
    // Whitespace between a number and its `%` is accepted.
    assert_eq!(
        parse("color-mix(in srgb, red 25 %, blue)"),
        parse("color-mix(in srgb, red 25%, blue)")
    );
}

#[test]
fn error_positions_in_decimal() {
    let text = format!("{}red x", " ".repeat(100));
    assert_eq!(message(&text), "unexpected data at position 105");
    let text = format!("{}red x", " ".repeat(995));
    assert_eq!(message(&text), "unexpected data at position 1000");
    assert_eq!(message("red\u{e9}"), "unexpected data at position 4");
}

#[test]
fn compute_color_mix_symmetric_across_methods() {
    let req = MixRequest {
        space: ColorSpace::Srgb,
        hue_interpolation: HueInterpolation::Increasing,
        first: Color::new_rgba(200, 10, 30, 128),
        first_weight: Some(WEIGHT_ONE / 10 * 3),
        second: Color::new_rgb(5, 90, 250),
        second_weight: None,
    };
    let swapped = MixRequest {
        hue_interpolation: HueInterpolation::Decreasing,
        first: req.second,
        first_weight: req.second_weight,
        second: req.first,
        second_weight: req.first_weight,
        ..req
    };
    assert_eq!(compute_color_mix(&req), compute_color_mix(&swapped));
    let lab = MixRequest { space: ColorSpace::Lab, ..req };
    let lab_swapped = MixRequest { space: ColorSpace::Lab, ..swapped };
    assert_eq!(compute_color_mix(&lab), None);
    assert_eq!(compute_color_mix(&lab_swapped), None);
}
