use svgcolor::Color;

#[test]
fn rrggbb() {
    assert_eq!(Color::from_str("#ff0000").unwrap(), Color::new_rgb(255, 0, 0));
}

#[test]
fn rrggbb_upper() {
    assert_eq!(Color::from_str("#FF0000").unwrap(), Color::new_rgb(255, 0, 0));
}

#[test]
fn rgb_hex() {
    assert_eq!(Color::from_str("#f00").unwrap(), Color::new_rgb(255, 0, 0));
}

#[test]
fn rrggbbaa() {
    assert_eq!(Color::from_str("#ff0000ff").unwrap(), Color::new_rgba(255, 0, 0, 255));
}

#[test]
fn rrggbbaa_upper() {
    assert_eq!(Color::from_str("#FF0000FF").unwrap(), Color::new_rgba(255, 0, 0, 255));
}

#[test]
fn rgba_hex() {
    assert_eq!(Color::from_str("#f00f").unwrap(), Color::new_rgba(255, 0, 0, 255));
}

#[test]
fn rrggbb_spaced() {
    assert_eq!(Color::from_str("  #ff0000  ").unwrap(), Color::new_rgb(255, 0, 0));
}

#[test]
fn rgb_numeric() {
    assert_eq!(Color::from_str("rgb(254, 203, 231)").unwrap(), Color::new_rgb(254, 203, 231));
}

#[test]
fn rgb_numeric_spaced() {
    assert_eq!(Color::from_str(" rgb( 77 , 77 , 77 ) ").unwrap(), Color::new_rgb(77, 77, 77));
}

#[test]
fn rgb_percentage() {
    assert_eq!(Color::from_str("rgb(50%, 50%, 50%)").unwrap(), Color::new_rgb(128, 128, 128));
}

#[test]
fn rgb_percentage_overflow() {
    assert_eq!(Color::from_str("rgb(140%, -10%, 130%)").unwrap(), Color::new_rgb(255, 0, 255));
}

#[test]
fn rgb_percentage_float() {
    assert_eq!(Color::from_str("rgb(33.333%,46.666%,93.333%)").unwrap(), Color::new_rgb(85, 119, 238));
}

#[test]
fn rgb_numeric_upper_case() {
    assert_eq!(Color::from_str("RGB(254, 203, 231)").unwrap(), Color::new_rgb(254, 203, 231));
}

#[test]
fn rgb_numeric_mixed_case() {
    assert_eq!(Color::from_str("RgB(254, 203, 231)").unwrap(), Color::new_rgb(254, 203, 231));
}

#[test]
fn rgb_numeric_red_float() {
    assert_eq!(Color::from_str("rgb(3.141592653, 110, 201)").unwrap(), Color::new_rgb(3, 110, 201));
}

#[test]
fn rgb_numeric_green_float() {
    assert_eq!(Color::from_str("rgb(254, 150.829521289232389, 210)").unwrap(), Color::new_rgb(254, 151, 210));
}

#[test]
fn rgb_numeric_blue_float() {
    assert_eq!(Color::from_str("rgb(96, 255, 0.2)").unwrap(), Color::new_rgb(96, 255, 0));
}

#[test]
fn rgb_numeric_all_float() {
    assert_eq!(Color::from_str("rgb(0.0, 129.82, 231.092)").unwrap(), Color::new_rgb(0, 130, 231));
}

#[test]
fn rgb_numeric_all_float_with_alpha() {
    assert_eq!(Color::from_str("rgb(0.0, 129.82, 231.092, 0.5)").unwrap(), Color::new_rgba(0, 130, 231, 128));
}

#[test]
fn rgb_numeric_all_float_overflow() {
    assert_eq!(Color::from_str("rgb(290.2, 255.9, 300.0)").unwrap(), Color::new_rgb(255, 255, 255));
}

#[test]
fn name_red() {
    assert_eq!(Color::from_str("red").unwrap(), Color::new_rgb(255, 0, 0));
}

#[test]
fn name_red_spaced() {
    assert_eq!(Color::from_str(" red ").unwrap(), Color::new_rgb(255, 0, 0));
}

#[test]
fn name_red_upper_case() {
    assert_eq!(Color::from_str("RED").unwrap(), Color::new_rgb(255, 0, 0));
}

#[test]
fn name_red_mixed_case() {
    assert_eq!(Color::from_str("ReD").unwrap(), Color::new_rgb(255, 0, 0));
}

#[test]
fn name_cornflowerblue() {
    assert_eq!(Color::from_str("cornflowerblue").unwrap(), Color::new_rgb(100, 149, 237));
}

#[test]
fn transparent() {
    assert_eq!(Color::from_str("transparent").unwrap(), Color::new_rgba(0, 0, 0, 0));
}

#[test]
fn rgba_half() {
    assert_eq!(Color::from_str("rgba(10, 20, 30, 0.5)").unwrap(), Color::new_rgba(10, 20, 30, 128));
}

#[test]
fn rgba_numeric_red_float() {
    assert_eq!(Color::from_str("rgba(3.141592653, 110, 201, 1.0)").unwrap(), Color::new_rgba(3, 110, 201, 255));
}

#[test]
fn rgba_numeric_all_float() {
    assert_eq!(Color::from_str("rgba(0.0, 129.82, 231.092, 1.5)").unwrap(), Color::new_rgba(0, 130, 231, 255));
}

#[test]
fn rgba_negative() {
    assert_eq!(Color::from_str("rgba(10, 20, 30, -2)").unwrap(), Color::new_rgba(10, 20, 30, 0));
}

#[test]
fn rgba_large_alpha() {
    assert_eq!(Color::from_str("rgba(10, 20, 30, 2)").unwrap(), Color::new_rgba(10, 20, 30, 255));
}

#[test]
fn rgb_with_alpha() {
    assert_eq!(Color::from_str("rgb(10, 20, 30, 0.5)").unwrap(), Color::new_rgba(10, 20, 30, 128));
}

#[test]
fn hsl_green() {
    assert_eq!(Color::from_str("hsl(120, 100%, 75%)").unwrap(), Color::new_rgba(128, 255, 128, 255));
}

#[test]
fn hsl_yellow() {
    assert_eq!(Color::from_str("hsl(60, 100%, 50%)").unwrap(), Color::new_rgba(255, 255, 0, 255));
}

#[test]
fn hsl_hue_360() {
    assert_eq!(Color::from_str("hsl(360, 100%, 100%)").unwrap(), Color::new_rgba(255, 255, 255, 255));
}

#[test]
fn hsl_out_of_bounds() {
    assert_eq!(Color::from_str("hsl(800, 150%, -50%)").unwrap(), Color::new_rgba(0, 0, 0, 255));
}

#[test]
fn hsla_green() {
    assert_eq!(Color::from_str("hsla(120, 100%, 75%, 0.5)").unwrap(), Color::new_rgba(128, 255, 128, 128));
}

#[test]
fn hsl_with_alpha() {
    assert_eq!(Color::from_str("hsl(120, 100%, 75%, 0.5)").unwrap(), Color::new_rgba(128, 255, 128, 128));
}

#[test]
fn hsl_to_rgb_red_round_up() {
    assert_eq!(Color::from_str("hsl(230, 57%, 54%)").unwrap(), Color::new_rgba(71, 93, 205, 255));
}

#[test]
fn hsl_with_hue_float() {
    assert_eq!(Color::from_str("hsl(120.152, 100%, 75%)").unwrap(), Color::new_rgba(128, 255, 128, 255));
}

#[test]
fn hsla_with_hue_float() {
    assert_eq!(Color::from_str("hsla(120.152, 100%, 75%, 0.5)").unwrap(), Color::new_rgba(128, 255, 128, 128));
}

#[test]
fn not_a_color_1() {
    assert_eq!(Color::from_str("text").unwrap_err().to_string(), "invalid value");
}

#[test]
fn icc_color_not_supported_1() {
    assert_eq!(Color::from_str("#CD853F icc-color(acmecmyk, 0.11, 0.48, 0.83, 0.00)").unwrap_err().to_string(), "unexpected data at position 9");
}

#[test]
fn icc_color_not_supported_2() {
    assert_eq!(Color::from_str("red icc-color(acmecmyk, 0.11, 0.48, 0.83, 0.00)").unwrap_err().to_string(), "unexpected data at position 5");
}

#[test]
fn invalid_input_1() {
    assert_eq!(Color::from_str("rgb(-0\x0d").unwrap_err().to_string(), "unexpected end of stream");
}

#[test]
fn invalid_input_2() {
    assert_eq!(Color::from_str("#9ߞpx! ;").unwrap_err().to_string(), "invalid value");
}

#[test]
fn rgba_with_percent_alpha() {
    assert_eq!(Color::from_str("rgba(10, 20, 30, 5%)").unwrap_err().to_string(), "expected ')' not '%' at position 19");
}

#[test]
fn rgb_mixed_units() {
    assert_eq!(Color::from_str("rgb(140%, -10mm, 130pt)").unwrap_err().to_string(), "invalid number at position 14");
}

