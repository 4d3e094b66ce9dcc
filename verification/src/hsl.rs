//! HSL to RGB conversion in exact fixed-point arithmetic.
//!
//! Hue is given in sixths of a turn and saturation and lightness as fractions
//! of one, all in units of `HUE_UNIT` (10^-9), following
//! https://www.w3.org/TR/css-color-3/#hsl-color.
use vstd::prelude::*;

use crate::arith::{lemma_div_cancel, round_ratio, HUE_TURN, HUE_UNIT};
use crate::color::Color;

verus! {

/// The larger helper value of the conversion, in `HUE_UNIT^2` units.
pub open spec fn hsl_t2(s: int, l: int) -> int {
    let u = HUE_UNIT as int;
    if 2 * l <= u {
        l * (s + u)
    } else {
        l * u + s * u - l * s
    }
}

/// The smaller helper value of the conversion, in `HUE_UNIT^2` units.
pub open spec fn hsl_t1(s: int, l: int) -> int {
    2 * l * (HUE_UNIT as int) - hsl_t2(s, l)
}

/// One channel of the conversion, in `HUE_UNIT^3` units; `h` is in
/// `HUE_UNIT` units and is first wrapped once into `[0, 6)`.
pub open spec fn hue_to_rgb(t1: int, t2: int, h: int) -> int {
    let u = HUE_UNIT as int;
    let h1 = if h < 0 {
        h + 6 * u
    } else {
        h
    };
    let h2 = if h1 >= 6 * u {
        h1 - 6 * u
    } else {
        h1
    };
    if h2 < u {
        (t2 - t1) * h2 + t1 * u
    } else if h2 < 3 * u {
        t2 * u
    } else if h2 < 4 * u {
        (t2 - t1) * (4 * u - h2) + t1 * u
    } else {
        t1 * u
    }
}

/// A channel in `HUE_UNIT^3` units scaled to `0..=255` and rounded.
pub open spec fn cube_channel(c: int) -> int {
    let u = HUE_UNIT as int;
    round_ratio(255 * c, u * u * u)
}

/// The opaque color with hue `h` (sixths), saturation `s` and lightness `l`.
pub open spec fn hsl_color(h: int, s: int, l: int) -> Color {
    let u = HUE_UNIT as int;
    let t1 = hsl_t1(s, l);
    let t2 = hsl_t2(s, l);
    Color {
        red: cube_channel(hue_to_rgb(t1, t2, h + 2 * u)) as u8,
        green: cube_channel(hue_to_rgb(t1, t2, h)) as u8,
        blue: cube_channel(hue_to_rgb(t1, t2, h - 2 * u)) as u8,
        alpha: 255,
    }
}

proof fn lemma_t_bounds(s: int, l: int)
    requires
        0 <= s <= HUE_UNIT,
        0 <= l <= HUE_UNIT,
    ensures
        0 <= hsl_t1(s, l) <= hsl_t2(s, l) <= (HUE_UNIT as int) * (HUE_UNIT as int),
{
    let u = HUE_UNIT as int;
    if 2 * l <= u {
        assert(0 <= l * (u - s)) by (nonlinear_arith)
            requires
                0 <= l,
                s <= u,
        ;
        assert(2 * l * u - l * (s + u) == l * (u - s)) by (nonlinear_arith);
        assert(l * (u - s) <= l * (s + u)) by (nonlinear_arith)
            requires
                0 <= l,
                0 <= s,
        ;
        assert(l * (s + u) <= u * u) by (nonlinear_arith)
            requires
                0 <= l,
                2 * l <= u,
                0 <= s <= u,
        ;
    } else {
        assert(2 * l * u - (l * u + s * u - l * s) == l * u - s * (u - l)) by (nonlinear_arith);
        assert(s * (u - l) <= u * (u - l)) by (nonlinear_arith)
            requires
                s <= u,
                l <= u,
        ;
        assert(l * u - u * (u - l) == u * (2 * l - u)) by (nonlinear_arith);
        assert(u * (2 * l - u) >= 0) by (nonlinear_arith)
            requires
                2 * l > u,
                u > 0,
        ;
        assert(s * (u - l) >= 0) by (nonlinear_arith)
            requires
                0 <= s,
                l <= u,
        ;
        assert(u * u - (l * u + s * u - l * s) == (u - l) * (u - s)) by (nonlinear_arith);
        assert((u - l) * (u - s) >= 0) by (nonlinear_arith)
            requires
                l <= u,
                s <= u,
        ;
    }
}

/// One channel of the conversion, in `HUE_UNIT^3` units.
fn hue_to_rgb_exec(t1: u128, t2: u128, h: i64) -> (c: u128)
    requires
        t1 <= t2 <= (HUE_UNIT as int) * (HUE_UNIT as int),
        -2 * HUE_UNIT <= h < 8 * HUE_UNIT,
    ensures
        c == hue_to_rgb(t1 as int, t2 as int, h as int),
        c <= (HUE_UNIT as int) * (HUE_UNIT as int) * (HUE_UNIT as int),
{
    let u: i64 = 1_000_000_000;
    let mut hh = h;
    if hh < 0 {
        hh = hh + 6 * u;
    }
    if hh >= 6 * u {
        hh = hh - 6 * u;
    }
    let u128v: u128 = 1_000_000_000;
    let h2 = hh as u128;
    proof {
        let uu = HUE_UNIT as int;
        assert(t1 * uu <= uu * uu * uu) by (nonlinear_arith)
            requires
                t1 <= uu * uu,
                uu > 0,
        ;
        assert(t2 * uu <= uu * uu * uu) by (nonlinear_arith)
            requires
                t2 <= uu * uu,
                uu > 0,
        ;
    }
    if hh < u {
        proof {
            let uu = HUE_UNIT as int;
            assert((t2 - t1) * h2 + t1 * uu <= t2 * uu) by (nonlinear_arith)
                requires
                    0 <= h2 < uu,
                    t1 <= t2,
                    0 <= t1,
            ;
        }
        (t2 - t1) * h2 + t1 * u128v
    } else if hh < 3 * u {
        t2 * u128v
    } else if hh < 4 * u {
        proof {
            let uu = HUE_UNIT as int;
            assert((t2 - t1) * (4 * uu - h2) + t1 * uu <= t2 * uu) by (nonlinear_arith)
                requires
                    3 * uu <= h2 < 4 * uu,
                    t1 <= t2,
                    0 <= t1,
            ;
        }
        (t2 - t1) * (4 * u128v - h2) + t1 * u128v
    } else {
        t1 * u128v
    }
}

fn cube_channel_exec(c: u128) -> (r: u8)
    requires
        c <= (HUE_UNIT as int) * (HUE_UNIT as int) * (HUE_UNIT as int),
    ensures
        r == cube_channel(c as int),
{
    let cube: u128 = 1_000_000_000_000_000_000_000_000_000;
    proof {
        assert((HUE_UNIT as int) * (HUE_UNIT as int) * (HUE_UNIT as int) == cube);
        assert((2 * (255 * c) + cube) / (2 * cube) <= 255) by (nonlinear_arith)
            requires
                c <= cube,
                cube > 0,
        ;
    }
    ((2 * (255 * c) + cube) / (2 * cube)) as u8
}

/// The opaque color with hue `h` (in `HUE_UNIT`s of sixths of a turn),
/// saturation `s` and lightness `l` (in `HUE_UNIT`s of one).
pub fn hsl_to_rgb(h: u64, s: u64, l: u64) -> (c: Color)
    requires
        h < HUE_TURN,
        s <= HUE_UNIT,
        l <= HUE_UNIT,
    ensures
        c == hsl_color(h as int, s as int, l as int),
{
    proof {
        lemma_t_bounds(s as int, l as int);
    }
    let u: u128 = 1_000_000_000;
    let s1 = s as u128;
    let l1 = l as u128;
    let t2: u128 = if 2 * l1 <= u {
        l1 * (s1 + u)
    } else {
        proof {
            assert(l1 * s1 <= l1 * u) by (nonlinear_arith)
                requires
                    s1 <= u,
            ;
        }
        l1 * u + s1 * u - l1 * s1
    };
    let t1: u128 = 2 * l1 * u - t2;
    let hh = h as i64;
    let red = cube_channel_exec(hue_to_rgb_exec(t1, t2, hh + 2 * 1_000_000_000));
    let green = cube_channel_exec(hue_to_rgb_exec(t1, t2, hh));
    let blue = cube_channel_exec(hue_to_rgb_exec(t1, t2, hh - 2 * 1_000_000_000));
    Color { red, green, blue, alpha: 255 }
}

/// Without saturation, HSL gives a gray: the three channels are equal,
/// whatever the hue.
pub proof fn lemma_hsl_gray(h: int, l: int)
    ensures
        hsl_color(h, 0, l).red == hsl_color(h, 0, l).green,
        hsl_color(h, 0, l).green == hsl_color(h, 0, l).blue,
{
    let u = HUE_UNIT as int;
    let t = l * u;
    assert(hsl_t2(0, l) == t);
    assert(hsl_t1(0, l) == t);
    assert forall|x: int| #[trigger] hue_to_rgb(t, t, x) == t * u by {
        assert(0 * x == 0);
        assert((t - t) * (4 * u - x) == 0);
        assert((t - t) * (x - 6 * u) == 0);
        assert((t - t) * (x + 6 * u) == 0);
    }
}

/// Lightness 0 gives black and lightness 100% gives white, whatever the hue
/// and the saturation.
pub proof fn lemma_hsl_black_and_white(h: int, s: int)
    requires
        0 <= s <= HUE_UNIT,
    ensures
        hsl_color(h, s, 0) == (Color { red: 0, green: 0, blue: 0, alpha: 255 }),
        hsl_color(h, s, HUE_UNIT as int) == (Color { red: 255, green: 255, blue: 255, alpha: 255 }),
{
    let u = HUE_UNIT as int;
    assert(hsl_t2(s, 0) == 0);
    assert(hsl_t1(s, 0) == 0);
    assert forall|x: int| #[trigger] hue_to_rgb(0, 0, x) == 0 by {
        assert(0 * x == 0);
    }
    assert(hsl_t2(s, u) == u * u);
    assert(hsl_t1(s, u) == u * u);
    let t = u * u;
    assert forall|x: int| #[trigger] hue_to_rgb(t, t, x) == t * u by {
        assert((t - t) * x == 0);
        assert((t - t) * (4 * u - x) == 0);
        assert((t - t) * (x - 6 * u) == 0);
        assert((t - t) * (x + 6 * u) == 0);
    }
    assert(u * u * u == 1_000_000_000_000_000_000_000_000_000);
    assert(t * u == u * u * u);
    let cube: int = 1_000_000_000_000_000_000_000_000_000;
    assert(round_ratio(0, cube) == 0) by (nonlinear_arith)
        requires
            cube == 1_000_000_000_000_000_000_000_000_000,
    ;
    assert(round_ratio(255 * cube, cube) == 255) by (nonlinear_arith)
        requires
            cube == 1_000_000_000_000_000_000_000_000_000,
    ;
    assert(cube_channel(0) == 0);
    assert(cube_channel(t * u) == 255);
}

/// `round(255 * x / HUE_UNIT)`: a fraction `x` of one (in `HUE_UNIT`s)
/// scaled to a channel.
pub open spec fn channel_of(x: int) -> int {
    round_ratio(255 * x, HUE_UNIT as int)
}

/// A channel value `t * u^2` for `0 <= t <= u` becomes `channel_of(t)`.
proof fn lemma_cube_channel_scaled(x: int)
    requires
        0 <= x <= HUE_UNIT,
    ensures
        cube_channel(x * (HUE_UNIT as int) * (HUE_UNIT as int)) == channel_of(x),
        0 <= channel_of(x) <= 255,
{
    let u = HUE_UNIT as int;
    let a = 2 * (255 * x) + u;
    assert(2 * (255 * (x * u * u)) + u * u * u == a * (u * u)) by (nonlinear_arith)
        requires
            a == 2 * (255 * x) + u,
    ;
    assert(2 * (u * u * u) == (2 * u) * (u * u)) by (nonlinear_arith);
    lemma_div_cancel(a, 2 * u, u * u);
    assert(0 <= a / (2 * u) <= 255) by (nonlinear_arith)
        requires
            0 <= x <= u,
            u > 0,
            a == 2 * (255 * x) + u,
    ;
}

/// At full saturation and half lightness HSL walks the hue wheel: on each
/// sixth of the circle (hue `h` in `HUE_UNIT`s of sixths) one channel is
/// full, one is empty, and the third rises or falls linearly with the hue.
/// On the first sixth, for instance, red is full, blue is empty and green
/// is `round(255 * h)`.
pub proof fn lemma_hsl_hue_wheel(h: int)
    requires
        0 <= h < HUE_TURN,
    ensures
        ({
            let u = HUE_UNIT as int;
            let c = hsl_color(h, u, u / 2);
            &&& c.alpha == 255
            &&& 0 <= h < u ==> c.red == 255 && c.green == channel_of(h) && c.blue == 0
            &&& u <= h < 2 * u ==> c.red == channel_of(2 * u - h) && c.green == 255 && c.blue == 0
            &&& 2 * u <= h < 3 * u ==> c.red == 0 && c.green == 255 && c.blue == channel_of(h - 2 * u)
            &&& 3 * u <= h < 4 * u ==> c.red == 0 && c.green == channel_of(4 * u - h) && c.blue == 255
            &&& 4 * u <= h < 5 * u ==> c.red == channel_of(h - 4 * u) && c.green == 0 && c.blue == 255
            &&& 5 * u <= h < 6 * u ==> c.red == 255 && c.green == 0 && c.blue == channel_of(6 * u - h)
        }),
{
    let u = HUE_UNIT as int;
    let t = u * u;
    assert(hsl_t2(u, u / 2) == t);
    assert(hsl_t1(u, u / 2) == 0);
    // The three channels as fractions of one, in HUE_UNITs.
    assert forall|x: int| -2 * u <= x < 8 * u implies #[trigger] hue_to_rgb(0, t, x) == {
        let x1 = if x < 0 { x + 6 * u } else { x };
        let x2 = if x1 >= 6 * u { x1 - 6 * u } else { x1 };
        if x2 < u {
            x2
        } else if x2 < 3 * u {
            u
        } else if x2 < 4 * u {
            4 * u - x2
        } else {
            0
        }
    } * u * u by {
        let x1 = if x < 0 { x + 6 * u } else { x };
        let x2 = if x1 >= 6 * u { x1 - 6 * u } else { x1 };
        assert((t - 0) * x2 + 0 * u == x2 * u * u) by (nonlinear_arith)
            requires
                t == u * u,
        ;
        assert(t * u == u * u * u) by (nonlinear_arith)
            requires
                t == u * u,
        ;
        assert((t - 0) * (4 * u - x2) + 0 * u == (4 * u - x2) * u * u) by (nonlinear_arith)
            requires
                t == u * u,
        ;
        assert(0 * u == 0 * u * u);
    }
    lemma_cube_channel_scaled(0);
    lemma_cube_channel_scaled(u);
    assert(channel_of(0) == 0);
    assert(channel_of(u) == 255);
    if 0 <= h < u {
        lemma_cube_channel_scaled(h);
    } else if u <= h < 2 * u {
        lemma_cube_channel_scaled(2 * u - h);
    } else if 2 * u <= h < 3 * u {
        lemma_cube_channel_scaled(h - 2 * u);
    } else if 3 * u <= h < 4 * u {
        lemma_cube_channel_scaled(4 * u - h);
    } else if 4 * u <= h < 5 * u {
        lemma_cube_channel_scaled(h - 4 * u);
    } else {
        lemma_cube_channel_scaled(6 * u - h);
    }
}

} // verus!
