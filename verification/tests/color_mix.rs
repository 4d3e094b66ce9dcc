use palette::{Hsl, Hwb, IntoColor, Lab, Lch, LinSrgb, Oklab, Oklch, Srgb};
use svgcolor::{
    interpolate_hue, normalize_percentages as exact_weights, Color, ColorSpace, Error,
    HueInterpolation, MixRequest, HUE_DEGREE, WEIGHT_ONE,
};

/// Parses a color, supplying the mixes that the library leaves open.
fn parse_resolving(text: &str) -> Result<Color, Error> {
    let mut mixes: Vec<Color> = Vec::new();
    loop {
        match Color::from_str_with_mixes(text, mixes.clone()) {
            Err(Error::UnresolvedColorMix(req)) => mixes.push(mix_with_palette(&req)),
            other => return other,
        }
    }
}

// sRGB mixing: red + blue = purple
#[test]
fn mix_srgb_equal() {
    let color = Color::from_str("color-mix(in srgb, red, blue)").unwrap();
    assert_eq!(color, Color::new_rgb(128, 0, 128));
}

// Weighted mixing: 25% red + 75% blue
#[test]
fn mix_srgb_weighted() {
    let color = Color::from_str("color-mix(in srgb, red 25%, blue)").unwrap();
    assert_eq!(color, Color::new_rgb(64, 0, 191));
}

// Both percentages specified
#[test]
fn mix_srgb_both_percentages() {
    let color = Color::from_str("color-mix(in srgb, red 30%, blue 70%)").unwrap();
    // Allow ±1 for rounding differences
    assert_eq!(color.red, 77);
    assert_eq!(color.green, 0);
    assert!(color.blue >= 178 && color.blue <= 179);
}

// Oklab mixing (default color space per spec)
#[test]
fn mix_oklab_equal() {
    let color = parse_resolving("color-mix(in oklab, red, blue)").unwrap();
    assert!(color.red > 0); // Should have some red
    assert!(color.blue > 0); // Should have some blue
}

// HSL mixing with hue interpolation
#[test]
fn mix_hsl_equal() {
    let color = parse_resolving("color-mix(in hsl, red, blue)").unwrap();
    assert!(color.alpha == 255);
}

// HSL with explicit hue interpolation
#[test]
fn mix_hsl_longer_hue() {
    let color = parse_resolving("color-mix(in hsl longer hue, red, blue)").unwrap();
    assert!(color.alpha == 255);
}

// With hex colors
#[test]
fn mix_hex_colors() {
    let color = Color::from_str("color-mix(in srgb, #ff0000, #0000ff)").unwrap();
    assert_eq!(color, Color::new_rgb(128, 0, 128));
}

// With rgba colors (alpha should be mixed too)
#[test]
fn mix_with_alpha() {
    let color = Color::from_str("color-mix(in srgb, rgba(255, 0, 0, 0.5), blue)").unwrap();
    // Alpha: 0.5 * 0.5 + 1.0 * 0.5 = 0.75 (about 191)
    assert!(color.alpha > 128 && color.alpha < 255);
}

// Different color spaces
#[test]
fn mix_lab() {
    let color = parse_resolving("color-mix(in lab, red, blue)").unwrap();
    assert!(color.red > 0 || color.blue > 0);
}

#[test]
fn mix_lch() {
    let color = parse_resolving("color-mix(in lch, red, blue)").unwrap();
    assert!(color.alpha == 255);
}

#[test]
fn mix_oklch() {
    let color = parse_resolving("color-mix(in oklch, red, blue)").unwrap();
    assert!(color.alpha == 255);
}

#[test]
fn mix_hwb() {
    let color = parse_resolving("color-mix(in hwb, red, blue)").unwrap();
    assert!(color.alpha == 255);
}

#[test]
fn mix_srgb_linear() {
    let color = parse_resolving("color-mix(in srgb-linear, red, blue)").unwrap();
    assert!(color.red > 0 || color.blue > 0);
}

// Named colors
#[test]
fn mix_named_colors() {
    let color = Color::from_str("color-mix(in srgb, crimson, dodgerblue)").unwrap();
    assert!(color.alpha == 255);
}

// Spacing variations
#[test]
fn mix_with_spaces() {
    let color = Color::from_str("color-mix( in srgb , red , blue )").unwrap();
    assert_eq!(color, Color::new_rgb(128, 0, 128));
}

#[test]
fn test_color_space_is_polar() {
    assert!(!ColorSpace::Srgb.is_polar());
    assert!(!ColorSpace::Oklab.is_polar());
    assert!(ColorSpace::Hsl.is_polar());
    assert!(ColorSpace::Lch.is_polar());
    assert!(ColorSpace::Oklch.is_polar());
    assert!(ColorSpace::Hwb.is_polar());
}

#[test]
fn test_normalize_percentages() {
    let tenth = WEIGHT_ONE / 10;
    let close = |x: u64, y: u64| x.abs_diff(y) <= WEIGHT_ONE / 1000;
    // Both omitted -> 50/50
    let (p1, p2, mult) = exact_weights(None, None);
    assert!(close(p1, WEIGHT_ONE / 2));
    assert!(close(p2, WEIGHT_ONE / 2));
    assert!(close(mult, WEIGHT_ONE));

    // One specified
    let (p1, p2, mult) = exact_weights(Some(3 * tenth), None);
    assert!(close(p1, 3 * tenth));
    assert!(close(p2, 7 * tenth));
    assert!(close(mult, WEIGHT_ONE));

    // Both specified, sum = 1
    let (p1, p2, mult) = exact_weights(Some(WEIGHT_ONE / 4), Some(WEIGHT_ONE / 4 * 3));
    assert!(close(p1, WEIGHT_ONE / 4));
    assert!(close(p2, WEIGHT_ONE / 4 * 3));
    assert!(close(mult, WEIGHT_ONE));

    // Both specified, sum < 1 (should reduce alpha)
    let (p1, p2, mult) = exact_weights(Some(2 * tenth), Some(3 * tenth));
    assert!(close(p1, 4 * tenth)); // normalized: 0.2 / 0.5
    assert!(close(p2, 6 * tenth)); // normalized: 0.3 / 0.5
    assert!(close(mult, 5 * tenth));

    // Both zero -> transparent
    let (_, _, mult) = exact_weights(Some(0), Some(0));
    assert!(close(mult, 0));
}

#[test]
fn normalize_percentages_exact() {
    let tenth = WEIGHT_ONE / 10;
    assert_eq!(exact_weights(Some(2 * tenth), Some(3 * tenth)), (4 * tenth, 6 * tenth, 5 * tenth));
    // Weights adding up to more than 100% are scaled down; the multiplier is capped.
    assert_eq!(exact_weights(Some(WEIGHT_ONE), Some(WEIGHT_ONE)), (5 * tenth, 5 * tenth, WEIGHT_ONE));
    assert_eq!(exact_weights(Some(0), Some(0)), (0, 0, 0));
}

/// Interpolates two hues given in degrees through the library's fixed-point units.
fn interpolate_hue_degrees(h1: f32, h2: f32, p1: f32, p2: f32, method: HueInterpolation) -> f32 {
    let degree = HUE_DEGREE as f64;
    let hue = |h: f32| (h as f64 * degree).round() as i64;
    let weight = |p: f32| (p as f64 * WEIGHT_ONE as f64).round() as u64;
    let h = interpolate_hue(hue(h1), hue(h2), weight(p1), weight(p2), method);
    (h as f64 / degree) as f32
}

#[test]
fn test_interpolate_hue_shorter() {
    let half = WEIGHT_ONE / 2;
    let deg = HUE_DEGREE;
    // Shorter path: 350 -> 10 should go through 0
    let h = interpolate_hue(350 * deg, 10 * deg, half, half, HueInterpolation::Shorter);
    // Expected: (350 + 370) / 2 = 360, normalized to 0
    assert!(h < 10 * deg || h > 350 * deg);

    // Simple case: 0 -> 60
    let h = interpolate_hue(0, 60 * deg, half, half, HueInterpolation::Shorter);
    assert!((h - 30 * deg).abs() < deg / 1000);
}

#[test]
fn test_interpolate_hue_longer() {
    let half = WEIGHT_ONE / 2;
    let deg = HUE_DEGREE;
    // Longer path: 0 -> 60 should go the long way (through 180, 270...)
    let h = interpolate_hue(0, 60 * deg, half, half, HueInterpolation::Longer);
    // Expected: (360 + 60) / 2 = 210
    assert!((h - 210 * deg).abs() < deg / 1000);
}

/// The normalized weights and alpha multiplier of a request, as fractions.
fn normalized_weights(req: &MixRequest) -> (f32, f32, f32) {
    let (p1, p2, mult) = exact_weights(req.first_weight, req.second_weight);
    let fraction = |w: u64| (w as f64 / WEIGHT_ONE as f64) as f32;
    (fraction(p1), fraction(p2), fraction(mult))
}

/// A `color-mix()` computed the way the float implementation does it.
fn mix_with_palette(req: &MixRequest) -> Color {
    let (p1, p2, alpha_mult) = normalized_weights(req);

    if alpha_mult == 0.0 {
        return Color::new_rgba(0, 0, 0, 0);
    }

    let (c1, c2) = (req.first, req.second);
    let r1 = c1.red as f32 / 255.0;
    let g1 = c1.green as f32 / 255.0;
    let b1 = c1.blue as f32 / 255.0;
    let a1 = c1.alpha as f32 / 255.0;

    let r2 = c2.red as f32 / 255.0;
    let g2 = c2.green as f32 / 255.0;
    let b2 = c2.blue as f32 / 255.0;
    let a2 = c2.alpha as f32 / 255.0;

    let (pr1, pg1, pb1) = (r1 * a1, g1 * a1, b1 * a1);
    let (pr2, pg2, pb2) = (r2 * a2, g2 * a2, b2 * a2);

    let hue_interp = req.hue_interpolation;
    let (mixed_r, mixed_g, mixed_b) = match req.space {
        ColorSpace::Srgb => (pr1 * p1 + pr2 * p2, pg1 * p1 + pg2 * p2, pb1 * p1 + pb2 * p2),
        ColorSpace::SrgbLinear => mix_in_srgb_linear(pr1, pg1, pb1, pr2, pg2, pb2, p1, p2),
        ColorSpace::Oklab => mix_in_oklab(pr1, pg1, pb1, pr2, pg2, pb2, p1, p2),
        ColorSpace::Lab => mix_in_lab(pr1, pg1, pb1, pr2, pg2, pb2, p1, p2),
        ColorSpace::Hsl => mix_in_hsl(pr1, pg1, pb1, pr2, pg2, pb2, p1, p2, hue_interp),
        ColorSpace::Lch => mix_in_lch(pr1, pg1, pb1, pr2, pg2, pb2, p1, p2, hue_interp),
        ColorSpace::Oklch => mix_in_oklch(pr1, pg1, pb1, pr2, pg2, pb2, p1, p2, hue_interp),
        ColorSpace::Hwb => mix_in_hwb(pr1, pg1, pb1, pr2, pg2, pb2, p1, p2, hue_interp),
    };

    let mixed_a = a1 * p1 + a2 * p2;

    let (final_r, final_g, final_b) = if mixed_a > 0.0 {
        (mixed_r / mixed_a, mixed_g / mixed_a, mixed_b / mixed_a)
    } else {
        (0.0, 0.0, 0.0)
    };

    let final_a = mixed_a * alpha_mult;

    Color::new_rgba(
        (final_r.clamp(0.0, 1.0) * 255.0).round() as u8,
        (final_g.clamp(0.0, 1.0) * 255.0).round() as u8,
        (final_b.clamp(0.0, 1.0) * 255.0).round() as u8,
        (final_a.clamp(0.0, 1.0) * 255.0).round() as u8,
    )
}

fn clamp3(result: Srgb) -> (f32, f32, f32) {
    (
        result.red.clamp(0.0, 1.0),
        result.green.clamp(0.0, 1.0),
        result.blue.clamp(0.0, 1.0),
    )
}

#[allow(clippy::too_many_arguments)]
fn mix_in_srgb_linear(r1: f32, g1: f32, b1: f32, r2: f32, g2: f32, b2: f32, p1: f32, p2: f32) -> (f32, f32, f32) {
    let lin1: LinSrgb = Srgb::new(r1, g1, b1).into_color();
    let lin2: LinSrgb = Srgb::new(r2, g2, b2).into_color();
    let mixed = LinSrgb::new(
        lin1.red * p1 + lin2.red * p2,
        lin1.green * p1 + lin2.green * p2,
        lin1.blue * p1 + lin2.blue * p2,
    );
    let result: Srgb = mixed.into_color();
    (result.red, result.green, result.blue)
}

#[allow(clippy::too_many_arguments)]
fn mix_in_oklab(r1: f32, g1: f32, b1: f32, r2: f32, g2: f32, b2: f32, p1: f32, p2: f32) -> (f32, f32, f32) {
    let oklab1: Oklab = Srgb::new(r1, g1, b1).into_color();
    let oklab2: Oklab = Srgb::new(r2, g2, b2).into_color();
    let mixed = Oklab::new(
        oklab1.l * p1 + oklab2.l * p2,
        oklab1.a * p1 + oklab2.a * p2,
        oklab1.b * p1 + oklab2.b * p2,
    );
    clamp3(mixed.into_color())
}

#[allow(clippy::too_many_arguments)]
fn mix_in_lab(r1: f32, g1: f32, b1: f32, r2: f32, g2: f32, b2: f32, p1: f32, p2: f32) -> (f32, f32, f32) {
    let lab1: Lab = Srgb::new(r1, g1, b1).into_color();
    let lab2: Lab = Srgb::new(r2, g2, b2).into_color();
    let mixed = Lab::new(
        lab1.l * p1 + lab2.l * p2,
        lab1.a * p1 + lab2.a * p2,
        lab1.b * p1 + lab2.b * p2,
    );
    clamp3(mixed.into_color())
}

#[allow(clippy::too_many_arguments)]
fn mix_in_hsl(
    r1: f32, g1: f32, b1: f32, r2: f32, g2: f32, b2: f32, p1: f32, p2: f32, hue_interp: HueInterpolation,
) -> (f32, f32, f32) {
    let hsl1: Hsl = Srgb::new(r1, g1, b1).into_color();
    let hsl2: Hsl = Srgb::new(r2, g2, b2).into_color();
    let mixed_hue = interpolate_hue_degrees(
        hsl1.hue.into_positive_degrees(),
        hsl2.hue.into_positive_degrees(),
        p1,
        p2,
        hue_interp,
    );
    let mixed = Hsl::new(
        mixed_hue,
        hsl1.saturation * p1 + hsl2.saturation * p2,
        hsl1.lightness * p1 + hsl2.lightness * p2,
    );
    clamp3(mixed.into_color())
}

#[allow(clippy::too_many_arguments)]
fn mix_in_lch(
    r1: f32, g1: f32, b1: f32, r2: f32, g2: f32, b2: f32, p1: f32, p2: f32, hue_interp: HueInterpolation,
) -> (f32, f32, f32) {
    let lch1: Lch = Srgb::new(r1, g1, b1).into_color();
    let lch2: Lch = Srgb::new(r2, g2, b2).into_color();
    let mixed_hue = interpolate_hue_degrees(
        lch1.hue.into_positive_degrees(),
        lch2.hue.into_positive_degrees(),
        p1,
        p2,
        hue_interp,
    );
    let mixed = Lch::new(lch1.l * p1 + lch2.l * p2, lch1.chroma * p1 + lch2.chroma * p2, mixed_hue);
    clamp3(mixed.into_color())
}

#[allow(clippy::too_many_arguments)]
fn mix_in_oklch(
    r1: f32, g1: f32, b1: f32, r2: f32, g2: f32, b2: f32, p1: f32, p2: f32, hue_interp: HueInterpolation,
) -> (f32, f32, f32) {
    let oklch1: Oklch = Srgb::new(r1, g1, b1).into_color();
    let oklch2: Oklch = Srgb::new(r2, g2, b2).into_color();
    let mixed_hue = interpolate_hue_degrees(
        oklch1.hue.into_positive_degrees(),
        oklch2.hue.into_positive_degrees(),
        p1,
        p2,
        hue_interp,
    );
    let mixed = Oklch::new(
        oklch1.l * p1 + oklch2.l * p2,
        oklch1.chroma * p1 + oklch2.chroma * p2,
        mixed_hue,
    );
    clamp3(mixed.into_color())
}

#[allow(clippy::too_many_arguments)]
fn mix_in_hwb(
    r1: f32, g1: f32, b1: f32, r2: f32, g2: f32, b2: f32, p1: f32, p2: f32, hue_interp: HueInterpolation,
) -> (f32, f32, f32) {
    let hwb1: Hwb = Srgb::new(r1, g1, b1).into_color();
    let hwb2: Hwb = Srgb::new(r2, g2, b2).into_color();
    let mixed_hue = interpolate_hue_degrees(
        hwb1.hue.into_positive_degrees(),
        hwb2.hue.into_positive_degrees(),
        p1,
        p2,
        hue_interp,
    );
    let mixed = Hwb::new(
        mixed_hue,
        hwb1.whiteness * p1 + hwb2.whiteness * p2,
        hwb1.blackness * p1 + hwb2.blackness * p2,
    );
    clamp3(mixed.into_color())
}
