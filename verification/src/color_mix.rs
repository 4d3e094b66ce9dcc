use vstd::prelude::*;
use vstd::arithmetic::div_mod::{
    lemma_fundamental_div_mod, lemma_fundamental_div_mod_converse, lemma_mod_multiples_vanish,
};

use crate::arith::round_ratio;
use crate::color::Color;

verus! {

/// Color space for color interpolation in `color-mix()`.
#[derive(Clone, Copy, Debug, PartialEq, Eq, Structural)]
pub enum ColorSpace {
    /// sRGB color space (gamma-encoded).
    Srgb,
    /// Linear sRGB color space.
    SrgbLinear,
    /// CIE Lab color space.
    Lab,
    /// Oklab color space (default per CSS spec).
    Oklab,
    /// CIE LCH color space (polar form of Lab).
    Lch,
    /// OkLCH color space (polar form of Oklab).
    Oklch,
    /// HSL color space.
    Hsl,
    /// HWB color space.
    Hwb,
}

/// Hue interpolation method for polar color spaces.
#[derive(Clone, Copy, Debug, PartialEq, Eq, Structural)]
pub enum HueInterpolation {
    /// Take the shorter arc (default).
    Shorter,
    /// Take the longer arc.
    Longer,
    /// Interpolate with increasing hue.
    Increasing,
    /// Interpolate with decreasing hue.
    Decreasing,
}

/// A `color-mix()` to evaluate: its color space and hue interpolation
/// method, and its two colors with their optional weights (fixed-point
/// fractions of `WEIGHT_ONE`).
#[derive(Clone, Copy, Debug, PartialEq, Eq, Structural)]
pub struct MixRequest {
    pub space: ColorSpace,
    pub hue_interpolation: HueInterpolation,
    pub first: Color,
    pub first_weight: Option<u64>,
    pub second: Color,
    pub second_weight: Option<u64>,
}

impl Default for ColorSpace {
    /// Oklab, the default interpolation space of CSS.
    fn default() -> (s: ColorSpace)
        ensures
            s == ColorSpace::Oklab,
    {
        ColorSpace::Oklab
    }
}

impl Default for HueInterpolation {
    /// The shorter arc.
    fn default() -> (h: HueInterpolation)
        ensures
            h == HueInterpolation::Shorter,
    {
        HueInterpolation::Shorter
    }
}

impl ColorSpace {
    /// Whether this is a polar/cylindrical color space with a hue component.
    pub open spec fn polar(self) -> bool {
        self == ColorSpace::Hsl || self == ColorSpace::Hwb || self == ColorSpace::Lch || self
            == ColorSpace::Oklch
    }

    /// Returns true if this is a polar/cylindrical color space with a hue component.
    pub fn is_polar(&self) -> (b: bool)
        ensures
            b == self.polar(),
    {
        match self {
            ColorSpace::Hsl | ColorSpace::Hwb | ColorSpace::Lch | ColorSpace::Oklch => true,
            _ => false,
        }
    }
}

/// One degree of hue in the fixed-point units of `interpolate_hue`
/// (millionths of a degree).
pub const HUE_DEGREE: i64 = 1_000_000;

/// A full turn of hue, 360 degrees, in millionths of a degree.
pub const FULL_TURN: i64 = 360_000_000;

/// Half a turn of hue, 180 degrees, in millionths of a degree.
pub const HALF_TURN: i64 = 180_000_000;

/// The two hues, reduced into `[0, 360)` degrees, with a full turn added to
/// one of them where the interpolation method takes the other way round.
pub open spec fn hue_endpoints(h1: int, h2: int, method: HueInterpolation) -> (int, int) {
    let a = h1 % (FULL_TURN as int);
    let b = h2 % (FULL_TURN as int);
    let diff = b - a;
    let turn = FULL_TURN as int;
    let half = HALF_TURN as int;
    match method {
        HueInterpolation::Shorter => if diff > half {
            (a + turn, b)
        } else if diff < -half {
            (a, b + turn)
        } else {
            (a, b)
        },
        HueInterpolation::Longer => if 0 < diff < half {
            (a + turn, b)
        } else if -half < diff < 0 {
            (a, b + turn)
        } else {
            (a, b)
        },
        HueInterpolation::Increasing => if diff < 0 {
            (a, b + turn)
        } else {
            (a, b)
        },
        HueInterpolation::Decreasing => if diff > 0 {
            (a + turn, b)
        } else {
            (a, b)
        },
    }
}

/// The interpolated hue: the endpoints weighted by `w1` and `w2` (units of
/// `WEIGHT_ONE`), rounded to the nearest unit and reduced into `[0, 360)`.
pub open spec fn hue_mix(h1: int, h2: int, w1: int, w2: int, method: HueInterpolation) -> int {
    let (x, y) = hue_endpoints(h1, h2, method);
    round_ratio(x * w1 + y * w2, WEIGHT_ONE as int) % (FULL_TURN as int)
}

/// `h` reduced into `[0, FULL_TURN)`.
fn reduce_hue(h: i128) -> (r: i128)
    requires
        i64::MIN <= h <= i64::MAX,
    ensures
        r as int == (h as int) % (FULL_TURN as int),
{
    let t: i128 = 360_000_000;
    if h >= 0 {
        h % t
    } else {
        let m = h + (-h / t + 1) * t;
        proof {
            lemma_reduce_negative(h as int);
        }
        m % t
    }
}

proof fn lemma_reduce_negative(h: int)
    requires
        h < 0,
    ensures
        (-h) / 360_000_000 >= 0,
        h + ((-h) / 360_000_000 + 1) * 360_000_000 >= 0,
        (h + ((-h) / 360_000_000 + 1) * 360_000_000) % 360_000_000 == h % 360_000_000,
{
    let k = (-h) / 360_000_000 + 1;
    lemma_fundamental_div_mod(-h, 360_000_000);
    assert(h + k * 360_000_000 >= 0);
    lemma_mod_multiples_vanish(k, h, 360_000_000);
    assert(360_000_000 * k + h == h + k * 360_000_000);
}

/// Interpolates two hues (in millionths of a degree) with weights `w1` and
/// `w2` (in units of `WEIGHT_ONE`) along the arc that `method` chooses.
pub fn interpolate_hue(h1: i64, h2: i64, w1: u64, w2: u64, method: HueInterpolation) -> (h: i64)
    ensures
        h == hue_mix(h1 as int, h2 as int, w1 as int, w2 as int, method),
        0 <= h < FULL_TURN,
{
    let turn: i128 = 360_000_000;
    let half: i128 = 180_000_000;
    let a = reduce_hue(h1 as i128);
    let b = reduce_hue(h2 as i128);
    let diff = b - a;
    let (x, y) = match method {
        HueInterpolation::Shorter => if diff > half {
            (a + turn, b)
        } else if diff < -half {
            (a, b + turn)
        } else {
            (a, b)
        },
        HueInterpolation::Longer => if 0 < diff && diff < half {
            (a + turn, b)
        } else if -half < diff && diff < 0 {
            (a, b + turn)
        } else {
            (a, b)
        },
        HueInterpolation::Increasing => if diff < 0 {
            (a, b + turn)
        } else {
            (a, b)
        },
        HueInterpolation::Decreasing => if diff > 0 {
            (a + turn, b)
        } else {
            (a, b)
        },
    };
    proof {
        assert(0 <= x < 2 * turn && 0 <= y < 2 * turn);
        assert(x * (w1 as int) <= 720_000_000 * 0xffff_ffff_ffff_ffff) by (nonlinear_arith)
            requires
                0 <= x < 720_000_000,
                w1 <= 0xffff_ffff_ffff_ffff,
        ;
        assert(y * (w2 as int) <= 720_000_000 * 0xffff_ffff_ffff_ffff) by (nonlinear_arith)
            requires
                0 <= y < 720_000_000,
                w2 <= 0xffff_ffff_ffff_ffff,
        ;
        assert(x * (w1 as int) >= 0) by (nonlinear_arith)
            requires
                0 <= x,
        ;
        assert(y * (w2 as int) >= 0) by (nonlinear_arith)
            requires
                0 <= y,
        ;
    }
    let num: i128 = x * (w1 as i128) + y * (w2 as i128);
    let one: i128 = 1_000_000_000_000_000_000;
    let r = (2 * num + one) / (2 * one);
    (r % turn) as i64
}

/// The weight `1.0` (100%) in the fixed-point units of mixing weights.
pub const WEIGHT_ONE: u64 = 1_000_000_000_000_000_000;

/// The weights of the two colors once omitted percentages are filled in:
/// both omitted give 50% each; one omitted gives the complement of the other.
pub open spec fn mix_weights(p1: Option<u64>, p2: Option<u64>) -> (int, int) {
    let one = WEIGHT_ONE as int;
    match (p1, p2) {
        (None, None) => (one / 2, one / 2),
        (Some(p), None) => (p as int, one - p),
        (None, Some(p)) => (one - p, p as int),
        (Some(a), Some(b)) => (a as int, b as int),
    }
}

/// The normalized weights and the alpha multiplier of a mix, in units of
/// `WEIGHT_ONE`: each filled-in weight divided by their total (rounded down),
/// and the total capped at 100%; all three are 0 when the total is 0.
pub open spec fn normalized_weights(p1: Option<u64>, p2: Option<u64>) -> (int, int, int) {
    let w = mix_weights(p1, p2);
    let total = w.0 + w.1;
    let one = WEIGHT_ONE as int;
    if total == 0 {
        (0, 0, 0)
    } else {
        (
            (w.0 * one) / total,
            (w.1 * one) / total,
            if total > one {
                one
            } else {
                total
            },
        )
    }
}

/// The weights of the two colors with omitted percentages filled in.
fn filled_weights(p1: Option<u64>, p2: Option<u64>) -> (r: (u64, u64))
    requires
        p1 matches Some(p) ==> p <= WEIGHT_ONE,
        p2 matches Some(p) ==> p <= WEIGHT_ONE,
    ensures
        (r.0 as int, r.1 as int) == mix_weights(p1, p2),
        r.0 <= WEIGHT_ONE,
        r.1 <= WEIGHT_ONE,
{
    match (p1, p2) {
        (None, None) => (WEIGHT_ONE / 2, WEIGHT_ONE / 2),
        (Some(p), None) => (p, WEIGHT_ONE - p),
        (None, Some(p)) => (WEIGHT_ONE - p, p),
        (Some(a), Some(b)) => (a, b),
    }
}

/// Normalizes the percentages of a mix (in units of `WEIGHT_ONE`): fills in
/// omitted ones, then returns each weight divided by their total and the
/// alpha multiplier `min(total, 100%)`; `(0, 0, 0)` when the total is 0.
pub fn normalize_percentages(p1: Option<u64>, p2: Option<u64>) -> (r: (u64, u64, u64))
    requires
        p1 matches Some(p) ==> p <= WEIGHT_ONE,
        p2 matches Some(p) ==> p <= WEIGHT_ONE,
    ensures
        (r.0 as int, r.1 as int, r.2 as int) == normalized_weights(p1, p2),
        r.2 > 0 ==> r.0 + r.1 <= WEIGHT_ONE,
        r.2 > 0 ==> r.0 + r.1 >= WEIGHT_ONE - 1,
{
    let (a, b) = filled_weights(p1, p2);
    let total = a + b;
    if total == 0 {
        return (0, 0, 0);
    }
    let one = WEIGHT_ONE as u128;
    proof {
        assert((a as int) * (one as int) <= (one as int) * (one as int)) by (nonlinear_arith)
            requires
                a <= one,
        ;
        assert((b as int) * (one as int) <= (one as int) * (one as int)) by (nonlinear_arith)
            requires
                b <= one,
        ;
    }
    let n1 = (a as u128) * one / (total as u128);
    let n2 = (b as u128) * one / (total as u128);
    proof {
        let t = total as int;
        let x = (a as int) * (one as int);
        let y = (b as int) * (one as int);
        lemma_fundamental_div_mod(x, t);
        lemma_fundamental_div_mod(y, t);
        assert(x + y == (one as int) * t) by (nonlinear_arith)
            requires
                x == (a as int) * (one as int),
                y == (b as int) * (one as int),
                t == a + b,
        ;
        assert(n1 == x / t && n2 == y / t);
        assert(0 <= x - n1 * t < t) by (nonlinear_arith)
            requires
                x == t * (x / t) + x % t,
                0 <= x % t < t,
                n1 == x / t,
        ;
        assert(0 <= y - n2 * t < t) by (nonlinear_arith)
            requires
                y == t * (y / t) + y % t,
                0 <= y % t < t,
                n2 == y / t,
        ;
        assert((n1 + n2) * t <= (one as int) * t) by (nonlinear_arith)
            requires
                n1 * t <= x,
                n2 * t <= y,
                x + y == (one as int) * t,
        ;
        assert(n1 + n2 <= one) by (nonlinear_arith)
            requires
                (n1 + n2) * t <= (one as int) * t,
                t > 0,
        ;
        assert((n1 + n2 + 2) * t > (one as int) * t) by (nonlinear_arith)
            requires
                x - n1 * t < t,
                y - n2 * t < t,
                x + y == (one as int) * t,
                t > 0,
        ;
        assert(n1 + n2 + 2 > one) by (nonlinear_arith)
            requires
                (n1 + n2 + 2) * t > (one as int) * t,
                t > 0,
        ;
    }
    let m = if total > WEIGHT_ONE {
        WEIGHT_ONE
    } else {
        total
    };
    (n1 as u64, n2 as u64, m)
}

/// One premultiplied channel of an sRGB mix, scaled back to `0..=255`:
/// `(x1*alpha1*w1 + x2*alpha2*w2) / (alpha1*w1 + alpha2*w2)`, rounded, and 0
/// when the mixed alpha is 0.
pub open spec fn srgb_channel(x1: int, a1: int, w1: int, x2: int, a2: int, w2: int) -> int {
    let den = a1 * w1 + a2 * w2;
    if den == 0 {
        0
    } else {
        round_ratio(x1 * a1 * w1 + x2 * a2 * w2, den)
    }
}

/// The alpha of a mix, the same in every color space: the alphas weighted by
/// `w1` and `w2` (units of `WEIGHT_ONE`) and divided by the larger of the
/// total weight and 100% (so weights adding up to less than 100% make the
/// result more transparent), rounded; 0 when the total weight is 0.
pub open spec fn mixed_alpha(c1: Color, w1: int, c2: Color, w2: int) -> u8 {
    let total = w1 + w2;
    let scale = if total >= WEIGHT_ONE {
        total
    } else {
        WEIGHT_ONE as int
    };
    if total == 0 {
        0
    } else {
        round_ratio((c1.alpha as int) * w1 + (c2.alpha as int) * w2, scale) as u8
    }
}

/// Mixing two colors in sRGB with weights `w1` and `w2` (units of
/// `WEIGHT_ONE`): channels are interpolated with premultiplied alpha, alpha is
/// interpolated as `mixed_alpha` says; zero total weight gives transparent
/// black.
pub open spec fn srgb_mix(c1: Color, w1: int, c2: Color, w2: int) -> Color {
    let total = w1 + w2;
    if total == 0 {
        Color { red: 0, green: 0, blue: 0, alpha: 0 }
    } else {
        let a1 = c1.alpha as int;
        let a2 = c2.alpha as int;
        Color {
            red: srgb_channel(c1.red as int, a1, w1, c2.red as int, a2, w2) as u8,
            green: srgb_channel(c1.green as int, a1, w1, c2.green as int, a2, w2) as u8,
            blue: srgb_channel(c1.blue as int, a1, w1, c2.blue as int, a2, w2) as u8,
            alpha: mixed_alpha(c1, w1, c2, w2),
        }
    }
}

/// Whether some of the weight of a mix falls on a color that is not fully
/// transparent.
pub open spec fn has_visible_weight(c1: Color, w1: int, c2: Color, w2: int) -> bool {
    (c1.alpha as int) * w1 + (c2.alpha as int) * w2 > 0
}

/// What a `color-mix()` evaluates to when the library computes it exactly:
/// in sRGB, and in every space when no weight falls on a visible color (then
/// it is transparent black); `None` otherwise.
pub open spec fn mix_result(req: MixRequest) -> Option<Color> {
    let w = mix_weights(req.first_weight, req.second_weight);
    if req.space == ColorSpace::Srgb || !has_visible_weight(req.first, w.0, req.second, w.1) {
        Some(srgb_mix(req.first, w.0, req.second, w.1))
    } else {
        None
    }
}

/// The alpha of the color that a `color-mix()` request evaluates to.
pub open spec fn request_alpha(req: MixRequest) -> u8 {
    let w = mix_weights(req.first_weight, req.second_weight);
    mixed_alpha(req.first, w.0, req.second, w.1)
}

fn srgb_channel_exec(x1: u8, a1: u8, w1: u64, x2: u8, a2: u8, w2: u64) -> (r: u8)
    ensures
        r == srgb_channel(x1 as int, a1 as int, w1 as int, x2 as int, a2 as int, w2 as int),
{
    proof {
        assert((a1 as int) * (w1 as int) <= 255 * 0xffff_ffff_ffff_ffff) by (nonlinear_arith)
            requires
                a1 <= 255,
                w1 <= 0xffff_ffff_ffff_ffff,
        ;
        assert((a2 as int) * (w2 as int) <= 255 * 0xffff_ffff_ffff_ffff) by (nonlinear_arith)
            requires
                a2 <= 255,
                w2 <= 0xffff_ffff_ffff_ffff,
        ;
    }
    let p1 = (a1 as u128) * (w1 as u128);
    let p2 = (a2 as u128) * (w2 as u128);
    proof {
        assert(p1 <= 255 * 0xffff_ffff_ffff_ffff) by (nonlinear_arith)
            requires
                p1 == (a1 as int) * (w1 as int),
                a1 <= 255,
                w1 <= 0xffff_ffff_ffff_ffff,
        ;
        assert(p2 <= 255 * 0xffff_ffff_ffff_ffff) by (nonlinear_arith)
            requires
                p2 == (a2 as int) * (w2 as int),
                a2 <= 255,
                w2 <= 0xffff_ffff_ffff_ffff,
        ;
        assert((x1 as int) * p1 <= 255 * (255 * 0xffff_ffff_ffff_ffff)) by (nonlinear_arith)
            requires
                p1 <= 255 * 0xffff_ffff_ffff_ffff,
                x1 <= 255,
        ;
        assert((x2 as int) * p2 <= 255 * (255 * 0xffff_ffff_ffff_ffff)) by (nonlinear_arith)
            requires
                p2 <= 255 * 0xffff_ffff_ffff_ffff,
                x2 <= 255,
        ;
        assert((x1 as int) * (a1 as int) * (w1 as int) == (x1 as int) * p1) by (nonlinear_arith)
            requires
                p1 == (a1 as int) * (w1 as int),
        ;
        assert((x2 as int) * (a2 as int) * (w2 as int) == (x2 as int) * p2) by (nonlinear_arith)
            requires
                p2 == (a2 as int) * (w2 as int),
        ;
    }
    let den = p1 + p2;
    if den == 0 {
        return 0;
    }
    let num = (x1 as u128) * p1 + (x2 as u128) * p2;
    proof {
        assert(num <= 255 * den) by (nonlinear_arith)
            requires
                num == (x1 as int) * p1 + (x2 as int) * p2,
                den == p1 + p2,
                x1 <= 255,
                x2 <= 255,
                p1 >= 0,
                p2 >= 0,
        ;
        assert((2 * num + den) / (2 * den) <= 255) by (nonlinear_arith)
            requires
                num <= 255 * den,
                den > 0,
        ;
    }
    ((2 * num + den) / (2 * den)) as u8
}

/// The alpha of a mix of `c1` and `c2` with weights `w1` and `w2`.
fn mixed_alpha_exec(c1: Color, w1: u64, c2: Color, w2: u64) -> (a: u8)
    requires
        w1 <= WEIGHT_ONE,
        w2 <= WEIGHT_ONE,
    ensures
        a == mixed_alpha(c1, w1 as int, c2, w2 as int),
{
    let total = w1 + w2;
    if total == 0 {
        return 0;
    }
    proof {
        assert((c1.alpha as int) * (w1 as int) <= 255 * 0xffff_ffff_ffff_ffff) by (nonlinear_arith)
            requires
                c1.alpha <= 255,
                w1 <= 0xffff_ffff_ffff_ffff,
        ;
        assert((c2.alpha as int) * (w2 as int) <= 255 * 0xffff_ffff_ffff_ffff) by (nonlinear_arith)
            requires
                c2.alpha <= 255,
                w2 <= 0xffff_ffff_ffff_ffff,
        ;
    }
    let den = (c1.alpha as u128) * (w1 as u128) + (c2.alpha as u128) * (w2 as u128);
    let scale: u128 = if total >= WEIGHT_ONE {
        total as u128
    } else {
        WEIGHT_ONE as u128
    };
    proof {
        assert(den <= 255 * scale) by (nonlinear_arith)
            requires
                den == (c1.alpha as int) * (w1 as int) + (c2.alpha as int) * (w2 as int),
                c1.alpha <= 255,
                c2.alpha <= 255,
                w1 >= 0,
                w2 >= 0,
                scale >= w1 + w2,
        ;
        assert((2 * den + scale) / (2 * scale) <= 255) by (nonlinear_arith)
            requires
                den <= 255 * scale,
                scale > 0,
        ;
    }
    ((2 * den + scale) / (2 * scale)) as u8
}

/// The alpha of the color that a `color-mix()` request evaluates to, in any
/// color space.
pub fn mix_alpha(req: &MixRequest) -> (a: u8)
    requires
        req.first_weight matches Some(p) ==> p <= WEIGHT_ONE,
        req.second_weight matches Some(p) ==> p <= WEIGHT_ONE,
    ensures
        a == request_alpha(*req),
{
    let (w1, w2) = filled_weights(req.first_weight, req.second_weight);
    mixed_alpha_exec(req.first, w1, req.second, w2)
}

/// Mixes two colors in sRGB with weights `w1` and `w2` (units of `WEIGHT_ONE`).
pub fn mix_in_srgb(c1: Color, w1: u64, c2: Color, w2: u64) -> (c: Color)
    requires
        w1 <= WEIGHT_ONE,
        w2 <= WEIGHT_ONE,
    ensures
        c == srgb_mix(c1, w1 as int, c2, w2 as int),
{
    let total = w1 + w2;
    if total == 0 {
        return Color { red: 0, green: 0, blue: 0, alpha: 0 };
    }
    let red = srgb_channel_exec(c1.red, c1.alpha, w1, c2.red, c2.alpha, w2);
    let green = srgb_channel_exec(c1.green, c1.alpha, w1, c2.green, c2.alpha, w2);
    let blue = srgb_channel_exec(c1.blue, c1.alpha, w1, c2.blue, c2.alpha, w2);
    let alpha = mixed_alpha_exec(c1, w1, c2, w2);
    Color { red, green, blue, alpha }
}

/// Evaluates a `color-mix()` where the library computes it exactly: in sRGB,
/// and in every space when no weight falls on a visible color; `None` for
/// the other mixes.
pub fn compute_color_mix(req: &MixRequest) -> (r: Option<Color>)
    requires
        req.first_weight matches Some(p) ==> p <= WEIGHT_ONE,
        req.second_weight matches Some(p) ==> p <= WEIGHT_ONE,
    ensures
        r == mix_result(*req),
{
    let (w1, w2) = filled_weights(req.first_weight, req.second_weight);
    proof {
        assert((req.first.alpha as int) * (w1 as int) <= 255 * 0xffff_ffff_ffff_ffff)
            by (nonlinear_arith)
            requires
                req.first.alpha <= 255,
                w1 <= 0xffff_ffff_ffff_ffff,
        ;
        assert((req.second.alpha as int) * (w2 as int) <= 255 * 0xffff_ffff_ffff_ffff)
            by (nonlinear_arith)
            requires
                req.second.alpha <= 255,
                w2 <= 0xffff_ffff_ffff_ffff,
        ;
    }
    let visible = (req.first.alpha as u128) * (w1 as u128) + (req.second.alpha as u128) * (
    w2 as u128) > 0;
    match req.space {
        ColorSpace::Srgb => Some(mix_in_srgb(req.first, w1, req.second, w2)),
        _ => if visible {
            None
        } else {
            Some(mix_in_srgb(req.first, w1, req.second, w2))
        },
    }
}

// ---------------------------------------------------------------------------
// Laws of mixing
// ---------------------------------------------------------------------------

/// `round_ratio(x * d, d) == x`: an exact ratio is not moved by rounding.
proof fn lemma_round_exact(x: int, d: int)
    requires
        x >= 0,
        d > 0,
    ensures
        round_ratio(x * d, d) == x,
{
    assert(2 * (x * d) + d == x * (2 * d) + d) by (nonlinear_arith);
    lemma_fundamental_div_mod_converse(2 * (x * d) + d, 2 * d, x, d);
}

/// Mixing is symmetric: swapping the two colors together with their weights
/// gives the same color.
pub proof fn lemma_srgb_mix_symmetric(c1: Color, w1: int, c2: Color, w2: int)
    ensures
        srgb_mix(c1, w1, c2, w2) == srgb_mix(c2, w2, c1, w1),
{
}

/// What a `color-mix()` evaluates to does not depend on the order of its two
/// colors: swapping them together with their percentages gives the same
/// result, whatever hue interpolation method either request names (in sRGB
/// the method plays no part; elsewhere the result is `None` either way when
/// it is not transparent black).
pub proof fn lemma_mix_result_symmetric(req: MixRequest, method: HueInterpolation)
    ensures
        mix_result(
            MixRequest {
                first: req.second,
                first_weight: req.second_weight,
                second: req.first,
                second_weight: req.first_weight,
                hue_interpolation: method,
                ..req
            },
        ) == mix_result(req),
{
    let w = mix_weights(req.first_weight, req.second_weight);
    lemma_srgb_mix_symmetric(req.first, w.0, req.second, w.1);
}

/// Mixing a visible color with itself keeps its channels; its alpha is kept
/// when the weights add up to at least 100% and scaled by their total
/// otherwise.
pub proof fn lemma_srgb_mix_same_color(c: Color, w1: int, w2: int)
    requires
        c.alpha > 0,
        w1 >= 0,
        w2 >= 0,
        w1 + w2 > 0,
    ensures
        srgb_mix(c, w1, c, w2).red == c.red,
        srgb_mix(c, w1, c, w2).green == c.green,
        srgb_mix(c, w1, c, w2).blue == c.blue,
        w1 + w2 >= WEIGHT_ONE ==> srgb_mix(c, w1, c, w2).alpha == c.alpha,
        w1 + w2 < WEIGHT_ONE ==> srgb_mix(c, w1, c, w2).alpha == round_ratio(
            c.alpha * (w1 + w2),
            WEIGHT_ONE as int,
        ),
{
    let a = c.alpha as int;
    let d = a * w1 + a * w2;
    assert(d == a * (w1 + w2) && d > 0) by (nonlinear_arith)
        requires
            d == a * w1 + a * w2,
            a > 0,
            w1 >= 0,
            w2 >= 0,
            w1 + w2 > 0,
    ;
    let xs = seq![c.red as int, c.green as int, c.blue as int];
    assert forall|i: int| 0 <= i < 3 implies srgb_channel(xs[i], a, w1, xs[i], a, w2) == xs[i] by {
        let x = xs[i];
        assert(x * a * w1 + x * a * w2 == x * d) by (nonlinear_arith)
            requires
                d == a * w1 + a * w2,
        ;
        lemma_round_exact(x, d);
    }
    assert(srgb_channel(xs[0], a, w1, xs[0], a, w2) == xs[0]);
    assert(srgb_channel(xs[1], a, w1, xs[1], a, w2) == xs[1]);
    assert(srgb_channel(xs[2], a, w1, xs[2], a, w2) == xs[2]);
    if w1 + w2 >= WEIGHT_ONE {
        lemma_round_exact(a, w1 + w2);
    } else {
        let one = WEIGHT_ONE as int;
        assert(d <= 255 * one) by (nonlinear_arith)
            requires
                d == a * (w1 + w2),
                a <= 255,
                0 < w1 + w2 < one,
        ;
        assert(0 <= (2 * d + one) / (2 * one) <= 255) by (nonlinear_arith)
            requires
                0 <= d <= 255 * one,
                one > 0,
        ;
    }
}

/// A color mixed with all the weight on it and none on the other color comes
/// back unchanged, when it is not fully transparent.
pub proof fn lemma_srgb_mix_full_weight(c1: Color, c2: Color)
    requires
        c1.alpha > 0,
    ensures
        srgb_mix(c1, WEIGHT_ONE as int, c2, 0) == c1,
{
    let a = c1.alpha as int;
    let one = WEIGHT_ONE as int;
    let d = a * one + (c2.alpha as int) * 0;
    assert(d == a * one && d > 0) by (nonlinear_arith)
        requires
            d == a * one + (c2.alpha as int) * 0,
            a > 0,
            one > 0,
    ;
    let xs = seq![c1.red as int, c1.green as int, c1.blue as int];
    let ys = seq![c2.red as int, c2.green as int, c2.blue as int];
    assert forall|i: int| 0 <= i < 3 implies srgb_channel(xs[i], a, one, ys[i], c2.alpha as int, 0)
        == xs[i] by {
        let x = xs[i];
        assert(x * a * one + ys[i] * (c2.alpha as int) * 0 == x * d) by (nonlinear_arith)
            requires
                d == a * one,
        ;
        lemma_round_exact(x, d);
    }
    assert(srgb_channel(xs[0], a, one, ys[0], c2.alpha as int, 0) == xs[0]);
    assert(srgb_channel(xs[1], a, one, ys[1], c2.alpha as int, 0) == xs[1]);
    assert(srgb_channel(xs[2], a, one, ys[2], c2.alpha as int, 0) == xs[2]);
    lemma_round_exact(a, one);
}

/// `color-mix(in srgb, c, c)` with both percentages omitted gives `c` back,
/// for every color that is not fully transparent.
pub proof fn lemma_mix_result_same_color(req: MixRequest)
    requires
        req.space == ColorSpace::Srgb,
        req.first == req.second,
        req.first.alpha > 0,
        req.first_weight is None,
        req.second_weight is None,
    ensures
        mix_result(req) == Some(req.first),
{
    let h = (WEIGHT_ONE / 2) as int;
    lemma_srgb_mix_same_color(req.first, h, h);
}

// ---------------------------------------------------------------------------
// Laws of hue interpolation
// ---------------------------------------------------------------------------

/// The endpoints that hue interpolation uses are the two hues, up to whole
/// turns, and lie on the arc that the method names: the shorter arc spans at
/// most half a turn, the longer one at least half a turn (unless the hues
/// coincide), increasing goes up from the first hue and decreasing goes down.
pub proof fn lemma_hue_endpoints_arc(h1: int, h2: int, method: HueInterpolation)
    ensures
        ({
            let (x, y) = hue_endpoints(h1, h2, method);
            let turn = FULL_TURN as int;
            let half = HALF_TURN as int;
            &&& 0 <= x < 2 * turn
            &&& 0 <= y < 2 * turn
            &&& x % turn == h1 % turn
            &&& y % turn == h2 % turn
            &&& method == HueInterpolation::Shorter ==> -half <= y - x <= half
            &&& method == HueInterpolation::Longer ==> (x == y || y - x >= half || x - y >= half)
            &&& method == HueInterpolation::Increasing ==> x <= y
            &&& method == HueInterpolation::Decreasing ==> x >= y
        }),
{
    let turn = FULL_TURN as int;
    let a = h1 % turn;
    let b = h2 % turn;
    lemma_mod_multiples_vanish(1, a, turn);
    lemma_mod_multiples_vanish(1, b, turn);
    assert(a % turn == a && b % turn == b) by {
        lemma_fundamental_div_mod_converse(a, turn, 0, a);
        lemma_fundamental_div_mod_converse(b, turn, 0, b);
    }
}

/// The shorter and the longer arc do not depend on the order of the two
/// hues: swapping them together with their weights gives the same hue.
pub proof fn lemma_hue_mix_symmetric(h1: int, h2: int, w1: int, w2: int)
    ensures
        hue_mix(h1, h2, w1, w2, HueInterpolation::Shorter) == hue_mix(
            h2,
            h1,
            w2,
            w1,
            HueInterpolation::Shorter,
        ),
        hue_mix(h1, h2, w1, w2, HueInterpolation::Longer) == hue_mix(
            h2,
            h1,
            w2,
            w1,
            HueInterpolation::Longer,
        ),
{
}

/// Increasing interpolation from the first hue to the second is decreasing
/// interpolation from the second to the first.
pub proof fn lemma_hue_mix_increasing_mirrors_decreasing(h1: int, h2: int, w1: int, w2: int)
    ensures
        hue_mix(h1, h2, w1, w2, HueInterpolation::Increasing) == hue_mix(
            h2,
            h1,
            w2,
            w1,
            HueInterpolation::Decreasing,
        ),
{
}

/// Hues are read modulo a full turn: adding whole turns to either hue does
/// not change the interpolated hue.
pub proof fn lemma_hue_mix_period(
    h1: int,
    h2: int,
    k1: int,
    k2: int,
    w1: int,
    w2: int,
    method: HueInterpolation,
)
    ensures
        hue_mix(h1 + k1 * FULL_TURN, h2 + k2 * FULL_TURN, w1, w2, method) == hue_mix(
            h1,
            h2,
            w1,
            w2,
            method,
        ),
{
    let turn = FULL_TURN as int;
    lemma_mod_multiples_vanish(k1, h1, turn);
    lemma_mod_multiples_vanish(k2, h2, turn);
    assert(turn * k1 + h1 == h1 + k1 * FULL_TURN);
    assert(turn * k2 + h2 == h2 + k2 * FULL_TURN);
}

/// A `color-mix()` whose weight falls on no visible color is transparent
/// black, in every color space.
pub proof fn lemma_invisible_mix_transparent(req: MixRequest)
    requires
        req.first_weight matches Some(p) ==> p <= WEIGHT_ONE,
        req.second_weight matches Some(p) ==> p <= WEIGHT_ONE,
        !has_visible_weight(
            req.first,
            mix_weights(req.first_weight, req.second_weight).0,
            req.second,
            mix_weights(req.first_weight, req.second_weight).1,
        ),
    ensures
        mix_result(req) == Some(Color { red: 0, green: 0, blue: 0, alpha: 0 }),
{
    let w = mix_weights(req.first_weight, req.second_weight);
    let total = w.0 + w.1;
    if total != 0 {
        let scale = if total >= WEIGHT_ONE {
            total
        } else {
            WEIGHT_ONE as int
        };
        assert((req.first.alpha as int) * w.0 >= 0 && (req.second.alpha as int) * w.1 >= 0)
            by (nonlinear_arith)
            requires
                w.0 >= 0,
                w.1 >= 0,
        ;
        lemma_round_exact(0, scale);
    }
}

} // verus!
