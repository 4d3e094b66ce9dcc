//! The `<color>` parser.
//!
//! Each parsing step is described by a spec function of the text, the
//! supplied mixed colors and the position (and, for steps that may evaluate a
//! `color-mix()`, the number of supplied colors taken so far); it returns the
//! result together with the position where the step stopped.
use vstd::prelude::*;
use vstd::string::StringSliceAdditionalSpecFns;

use crate::arith::{
    fraction_units, fraction_units_exec, hue_units, hue_units_exec, scaled_channel,
    scaled_channel_exec, HUE_UNIT,
};
use crate::color::Color;
use crate::color_mix::{
    compute_color_mix, mix_alpha, mix_result, request_alpha, ColorSpace, HueInterpolation,
    MixRequest, WEIGHT_ONE,
};
use crate::colors::{from_name, named_color};
use crate::error::Error;
use crate::hsl::{hsl_color, hsl_to_rgb};
use crate::keywords::{
    is_kw_rgb, is_kw_rgba, is_kw_hsl, is_kw_hsla, is_kw_color_mix, is_kw_in, is_kw_hue, is_kw_srgb, is_kw_srgb_linear, is_kw_lab, is_kw_oklab, is_kw_lch, is_kw_oklch, is_kw_hwb, is_kw_shorter, is_kw_longer, is_kw_increasing, is_kw_decreasing, kw_rgb, kw_rgba, kw_hsl, kw_hsla, kw_color_mix, kw_in, kw_hue, kw_srgb, kw_srgb_linear, kw_lab, kw_oklab, kw_lch, kw_oklch, kw_hwb, kw_shorter, kw_longer, kw_increasing, kw_decreasing,
};
use crate::number::{
    list_separator_end, parse_list_number_or_percent_spec,
    parse_list_number_spec, parse_number_spec, Number,
};
use crate::stream::{
    char_pos, consume_byte_result, is_digit, lemma_skip_class, lower, skip_class,
    skip_spaces_from, ByteClass, Stream,
};

verus! {

// ---------------------------------------------------------------------------
// Hex notation
// ---------------------------------------------------------------------------

/// The value of a hex digit; any other byte counts as 0.
pub open spec fn hex_value(b: u8) -> int {
    if 0x30 <= b <= 0x39 {
        b - 0x30
    } else if 0x61 <= b <= 0x66 {
        b - 0x61 + 10
    } else if 0x41 <= b <= 0x46 {
        b - 0x41 + 10
    } else {
        0
    }
}

/// The byte that two hex digits denote.
pub open spec fn hex_pair_value(c1: u8, c2: u8) -> u8 {
    (hex_value(c1) * 16 + hex_value(c2)) as u8
}

/// The byte that one hex digit denotes in short notation (`f` is `ff`).
pub open spec fn short_hex_value(c: u8) -> u8 {
    (hex_value(c) * 17) as u8
}

/// The color of the hex digits that start at `p` (after `#`): 6 or 8 digits
/// give `rrggbb[aa]`, 3 or 4 give `rgb[a]`; other counts are invalid.
pub open spec fn parse_hex_spec(t: Seq<u8>, p: int) -> (Result<Color, Error>, int) {
    let e = skip_class(t, p, ByteClass::HexDigit);
    let n = e - p;
    if n == 6 {
        (
            Ok(
                Color {
                    red: hex_pair_value(t[p], t[p + 1]),
                    green: hex_pair_value(t[p + 2], t[p + 3]),
                    blue: hex_pair_value(t[p + 4], t[p + 5]),
                    alpha: 255,
                },
            ),
            e,
        )
    } else if n == 8 {
        (
            Ok(
                Color {
                    red: hex_pair_value(t[p], t[p + 1]),
                    green: hex_pair_value(t[p + 2], t[p + 3]),
                    blue: hex_pair_value(t[p + 4], t[p + 5]),
                    alpha: hex_pair_value(t[p + 6], t[p + 7]),
                },
            ),
            e,
        )
    } else if n == 3 {
        (
            Ok(
                Color {
                    red: short_hex_value(t[p]),
                    green: short_hex_value(t[p + 1]),
                    blue: short_hex_value(t[p + 2]),
                    alpha: 255,
                },
            ),
            e,
        )
    } else if n == 4 {
        (
            Ok(
                Color {
                    red: short_hex_value(t[p]),
                    green: short_hex_value(t[p + 1]),
                    blue: short_hex_value(t[p + 2]),
                    alpha: short_hex_value(t[p + 3]),
                },
            ),
            e,
        )
    } else {
        (Err(Error::InvalidValue), e)
    }
}

/// The value of a hex digit (0 for any other byte).
pub fn from_hex(c: u8) -> (r: u8)
    ensures
        r == hex_value(c),
{
    if 0x30 <= c && c <= 0x39 {
        c - 0x30
    } else if 0x61 <= c && c <= 0x66 {
        c - 0x61 + 10
    } else if 0x41 <= c && c <= 0x46 {
        c - 0x41 + 10
    } else {
        0
    }
}

/// The byte that one hex digit denotes in short notation.
pub fn short_hex(c: u8) -> (r: u8)
    ensures
        r == short_hex_value(c),
{
    let h = from_hex(c);
    assert((h << 4u8) | h == h * 17) by (bit_vector)
        requires
            h < 16,
    ;
    (h << 4) | h
}

/// The byte that two hex digits denote.
pub fn hex_pair(c1: u8, c2: u8) -> (r: u8)
    ensures
        r == hex_pair_value(c1, c2),
{
    let h1 = from_hex(c1);
    let h2 = from_hex(c2);
    assert((h1 << 4u8) | h2 == h1 * 16 + h2) by (bit_vector)
        requires
            h1 < 16,
            h2 < 16,
    ;
    (h1 << 4) | h2
}

// ---------------------------------------------------------------------------
// rgb() and hsl()
// ---------------------------------------------------------------------------

/// A channel from a number or percentage, scaled to `0..=255`
/// (a percentage is divided by 100 first).
pub open spec fn percent_channel(v: (Number, bool)) -> int {
    if v.1 {
        scaled_channel(v.0, 255, 100)
    } else {
        scaled_channel(v.0, 255, 1)
    }
}

/// A number or percentage as a fraction of one, clamped into `[0, 1]`, in
/// `HUE_UNIT`s (10^-9), rounded down.
pub open spec fn unit_fraction(v: (Number, bool)) -> int {
    if v.1 {
        fraction_units(v.0, 7, HUE_UNIT as int)
    } else {
        fraction_units(v.0, 9, HUE_UNIT as int)
    }
}

/// The optional alpha and the closing `)` of `rgb()`/`hsl()`: if the next
/// non-space byte is not `)`, a list number gives the alpha (times 255).
pub open spec fn alpha_and_close_spec(t: Seq<u8>, p: int) -> (Result<u8, Error>, int) {
    let q = skip_spaces_from(t, p);
    let (ra, q2) = if 0 <= q < t.len() && t[q] == 0x29 {
        (Ok(255u8), q)
    } else {
        let (r, q1) = parse_list_number_spec(t, q);
        match r {
            Ok(n) => (Ok(scaled_channel(n, 255, 1) as u8), q1),
            Err(e) => (Err(e), q1),
        }
    };
    match ra {
        Ok(a) => {
            let (rc, q3) = consume_byte_result(t, skip_spaces_from(t, q2), 0x29);
            match rc {
                Ok(_) => (Ok(a), q3),
                Err(e) => (Err(e), q3),
            }
        },
        Err(e) => (Err(e), q2),
    }
}

/// The green and blue channels and the rest of `rgb()` once red is read.
pub open spec fn rgb_rest_spec(t: Seq<u8>, p: int, red: u8, percent: bool) -> (
    Result<Color, Error>,
    int,
) {
    if percent {
        let (rg, p1) = parse_list_number_or_percent_spec(t, p);
        match rg {
            Err(e) => (Err(e), p1),
            Ok(g) => {
                let (rb, p2) = parse_list_number_or_percent_spec(t, p1);
                match rb {
                    Err(e) => (Err(e), p2),
                    Ok(b) => {
                        let (ra, p3) = alpha_and_close_spec(t, p2);
                        match ra {
                            Err(e) => (Err(e), p3),
                            Ok(a) => (
                                Ok(
                                    Color {
                                        red,
                                        green: percent_channel(g) as u8,
                                        blue: percent_channel(b) as u8,
                                        alpha: a,
                                    },
                                ),
                                p3,
                            ),
                        }
                    },
                }
            },
        }
    } else {
        let (rg, p1) = parse_list_number_spec(t, p);
        match rg {
            Err(e) => (Err(e), p1),
            Ok(g) => {
                let (rb, p2) = parse_list_number_spec(t, p1);
                match rb {
                    Err(e) => (Err(e), p2),
                    Ok(b) => {
                        let (ra, p3) = alpha_and_close_spec(t, p2);
                        match ra {
                            Err(e) => (Err(e), p3),
                            Ok(a) => (
                                Ok(
                                    Color {
                                        red,
                                        green: scaled_channel(g, 1, 1) as u8,
                                        blue: scaled_channel(b, 1, 1) as u8,
                                        alpha: a,
                                    },
                                ),
                                p3,
                            ),
                        }
                    },
                }
            },
        }
    }
}

/// The arguments of `rgb()`/`rgba()` from `(`: if the first channel is a
/// percentage, all channels are read as percentages of 255 (a bare number
/// then counts as a fraction of 255); otherwise as numbers.
#[verifier::opaque]
pub open spec fn rgb_args_spec(t: Seq<u8>, p: int) -> (Result<Color, Error>, int) {
    let (r0, p1) = consume_byte_result(t, p, 0x28);
    match r0 {
        Err(e) => (Err(e), p1),
        Ok(_) => {
            let (rv, p2) = parse_number_spec(t, p1);
            match rv {
                Err(e) => (Err(e), p2),
                Ok(v) => {
                    let percent = 0 <= p2 < t.len() && t[p2] == 0x25;
                    let p3 = if percent {
                        p2 + 1
                    } else {
                        p2
                    };
                    let p4 = list_separator_end(t, skip_spaces_from(t, p3));
                    let red = if percent {
                        scaled_channel(v, 255, 100) as u8
                    } else {
                        scaled_channel(v, 1, 1) as u8
                    };
                    rgb_rest_spec(t, p4, red, percent)
                },
            }
        },
    }
}

/// The arguments of `hsl()`/`hsla()` from `(`: hue in degrees, saturation and
/// lightness clamped into `[0, 1]`, and an optional alpha.
#[verifier::opaque]
pub open spec fn hsl_args_spec(t: Seq<u8>, p: int) -> (Result<Color, Error>, int) {
    let (r0, p1) = consume_byte_result(t, p, 0x28);
    match r0 {
        Err(e) => (Err(e), p1),
        Ok(_) => {
            let (rh, p2) = parse_list_number_spec(t, p1);
            match rh {
                Err(e) => (Err(e), p2),
                Ok(h) => {
                    let (rs, p3) = parse_list_number_or_percent_spec(t, p2);
                    match rs {
                        Err(e) => (Err(e), p3),
                        Ok(s) => {
                            let (rl, p4) = parse_list_number_or_percent_spec(t, p3);
                            match rl {
                                Err(e) => (Err(e), p4),
                                Ok(l) => {
                                    let base = hsl_color(
                                        hue_units(h),
                                        unit_fraction(s),
                                        unit_fraction(l),
                                    );
                                    let (ra, p5) = alpha_and_close_spec(t, p4);
                                    match ra {
                                        Err(e) => (Err(e), p5),
                                        Ok(a) => (Ok(Color { alpha: a, ..base }), p5),
                                    }
                                },
                            }
                        },
                    }
                },
            }
        },
    }
}

// ---------------------------------------------------------------------------
// color-mix()
// ---------------------------------------------------------------------------

/// The color space that a lowercase identifier names.
pub open spec fn color_space_of(name: Seq<u8>) -> Option<ColorSpace> {
    if name == kw_srgb() {
        Some(ColorSpace::Srgb)
    } else if name == kw_srgb_linear() {
        Some(ColorSpace::SrgbLinear)
    } else if name == kw_lab() {
        Some(ColorSpace::Lab)
    } else if name == kw_oklab() {
        Some(ColorSpace::Oklab)
    } else if name == kw_lch() {
        Some(ColorSpace::Lch)
    } else if name == kw_oklch() {
        Some(ColorSpace::Oklch)
    } else if name == kw_hsl() {
        Some(ColorSpace::Hsl)
    } else if name == kw_hwb() {
        Some(ColorSpace::Hwb)
    } else {
        None
    }
}

/// The hue interpolation method that a lowercase identifier names.
pub open spec fn hue_method_of(name: Seq<u8>) -> Option<HueInterpolation> {
    if name == kw_shorter() {
        Some(HueInterpolation::Shorter)
    } else if name == kw_longer() {
        Some(HueInterpolation::Longer)
    } else if name == kw_increasing() {
        Some(HueInterpolation::Increasing)
    } else if name == kw_decreasing() {
        Some(HueInterpolation::Decreasing)
    } else {
        None
    }
}

/// The lowercase identifier at `p` and the position after it.
pub open spec fn ident_at(t: Seq<u8>, p: int) -> (Seq<u8>, int) {
    let e = skip_class(t, p, ByteClass::Ident);
    (lower(t.subrange(p, e)), e)
}

/// A color space identifier.
pub open spec fn parse_color_space_spec(t: Seq<u8>, p: int) -> (Result<ColorSpace, Error>, int) {
    let (name, e) = ident_at(t, p);
    match color_space_of(name) {
        Some(s) => (Ok(s), e),
        None => (Err(Error::InvalidValue), e),
    }
}

/// `<method> hue`; anything else is invalid.
pub open spec fn try_hue_interpolation_spec(t: Seq<u8>, p: int) -> (
    Result<HueInterpolation, Error>,
    int,
) {
    let (name, e) = ident_at(t, p);
    match hue_method_of(name) {
        Some(m) => {
            let (kw, e2) = ident_at(t, skip_spaces_from(t, e));
            if kw == kw_hue() {
                (Ok(m), e2)
            } else {
                (Err(Error::InvalidValue), e2)
            }
        },
        None => (Err(Error::InvalidValue), e),
    }
}

/// `in <colorspace> [<hue-interpolation> hue]`.
pub open spec fn parse_interpolation_spec(t: Seq<u8>, p: int) -> (
    Result<(ColorSpace, HueInterpolation), Error>,
    int,
) {
    let (kw, e) = ident_at(t, p);
    if kw != kw_in() {
        (Err(Error::InvalidValue), e)
    } else {
        let (rs, e2) = parse_color_space_spec(t, skip_spaces_from(t, e));
        match rs {
            Err(err) => (Err(err), e2),
            Ok(space) => {
                let q = skip_spaces_from(t, e2);
                if space.polar() && q < t.len() && t[q] != 0x2c {
                    let (rh, q2) = try_hue_interpolation_spec(t, q);
                    match rh {
                        Ok(h) => (Ok((space, h)), q2),
                        Err(err) => (Err(err), q2),
                    }
                } else {
                    (Ok((space, HueInterpolation::Shorter)), q)
                }
            },
        }
    }
}

/// An optional percentage after a color in `color-mix()`, as a weight in
/// units of `WEIGHT_ONE`, clamped into `[0, 1]`. Where a number starts, it
/// must be one and be followed by `%`.
pub open spec fn try_percentage_spec(t: Seq<u8>, p: int) -> (Result<Option<u64>, Error>, int) {
    let q = skip_spaces_from(t, p);
    if q >= t.len() {
        (Ok(None), q)
    } else if !(is_digit(t[q]) || t[q] == 0x2b || t[q] == 0x2d || t[q] == 0x2e) {
        (Ok(None), q)
    } else {
        let (r, q1) = parse_number_spec(t, q);
        match r {
            Err(e) => (Err(e), q1),
            Ok(n) => {
                let q2 = skip_spaces_from(t, q1);
                if q2 < t.len() && t[q2] == 0x25 {
                    (Ok(Some(fraction_units(n, 16, WEIGHT_ONE as int) as u64)), q2 + 1)
                } else {
                    (Err(Error::InvalidValue), q2)
                }
            },
        }
    }
}

/// The color of a `color-mix()` request: computed exactly where the library
/// can (see `mix_result`); otherwise the red, green and blue of the next
/// supplied mixed color, with the alpha of the mix; an error when none is left.
pub open spec fn resolve_mix(req: MixRequest, a: Seq<Color>, u: int) -> (Result<Color, Error>, int) {
    match mix_result(req) {
        Some(c) => (Ok(c), u),
        None => if 0 <= u < a.len() {
            (Ok(Color { alpha: request_alpha(req), ..a[u] }), u + 1)
        } else {
            (Err(Error::UnresolvedColorMix(req)), u)
        },
    }
}

/// The rest of a `color-mix()` after its first color: optional percentage,
/// `,`, second color, optional percentage, `)`.
pub open spec fn mix_tail_spec(
    t: Seq<u8>,
    a: Seq<Color>,
    p: int,
    u: int,
    method: (ColorSpace, HueInterpolation),
    c1: Color,
    start: int,
) -> (Result<Color, Error>, int, int)
    decreases t.len() - start, 0int,
{
    let (rp1, p1) = try_percentage_spec(t, skip_spaces_from(t, p));
    match rp1 {
        Err(e) => (Err(e), p1, u),
        Ok(pct1) => {
            let (rc, p2) = consume_byte_result(t, skip_spaces_from(t, p1), 0x2c);
            match rc {
                Err(e) => (Err(e), p2, u),
                Ok(_) => {
                    let p3 = skip_spaces_from(t, p2);
                    if !(start < p3 <= t.len()) {
                        (Err(Error::InvalidValue), p3, u)
                    } else {
                        let (r2, p4, u2) = parse_color_spec(t, a, p3, u);
                        match r2 {
                            Err(e) => (Err(e), p4, u2),
                            Ok(c2) => mix_end_spec(t, a, p4, u2, method, c1, pct1, c2),
                        }
                    }
                },
            }
        },
    }
}

/// The end of a `color-mix()` after its second color: optional percentage
/// and `)`; then the mix is resolved.
pub open spec fn mix_end_spec(
    t: Seq<u8>,
    a: Seq<Color>,
    p: int,
    u: int,
    method: (ColorSpace, HueInterpolation),
    c1: Color,
    pct1: Option<u64>,
    c2: Color,
) -> (Result<Color, Error>, int, int) {
    let (rp2, p5) = try_percentage_spec(t, skip_spaces_from(t, p));
    match rp2 {
        Err(e) => (Err(e), p5, u),
        Ok(pct2) => {
            let (rc2, p6) = consume_byte_result(t, skip_spaces_from(t, p5), 0x29);
            match rc2 {
                Err(e) => (Err(e), p6, u),
                Ok(_) => {
                    let req = MixRequest {
                        space: method.0,
                        hue_interpolation: method.1,
                        first: c1,
                        first_weight: pct1,
                        second: c2,
                        second_weight: pct2,
                    };
                    let (res, u3) = resolve_mix(req, a, u);
                    (res, p6, u3)
                },
            }
        },
    }
}

/// `color-mix(in <colorspace> [<hue-method> hue], <color> [<percentage>],
/// <color> [<percentage>])` from `(`.
pub open spec fn color_mix_spec(t: Seq<u8>, a: Seq<Color>, p: int, u: int) -> (
    Result<Color, Error>,
    int,
    int,
)
    decreases t.len() - p, 1int,
{
    let (r0, p1) = consume_byte_result(t, p, 0x28);
    match r0 {
        Err(e) => (Err(e), p1, u),
        Ok(_) => {
            let (rm, p2) = parse_interpolation_spec(t, skip_spaces_from(t, p1));
            match rm {
                Err(e) => (Err(e), p2, u),
                Ok(method) => {
                    let (rc, p3) = consume_byte_result(t, skip_spaces_from(t, p2), 0x2c);
                    match rc {
                        Err(e) => (Err(e), p3, u),
                        Ok(_) => {
                            let p4 = skip_spaces_from(t, p3);
                            if !(p < p4 <= t.len()) {
                                (Err(Error::InvalidValue), p4, u)
                            } else {
                                let (r1, p5, u1) = parse_color_spec(t, a, p4, u);
                                match r1 {
                                    Err(e) => (Err(e), p5, u1),
                                    Ok(c1) => mix_tail_spec(t, a, p5, u1, method, c1, p),
                                }
                            }
                        },
                    }
                },
            }
        },
    }
}

// ---------------------------------------------------------------------------
// <color>
// ---------------------------------------------------------------------------

/// A `<color>` at `p`, after optional whitespace: hex notation, `rgb()`,
/// `rgba()`, `hsl()`, `hsla()`, `color-mix()` or a color keyword (function
/// names and keywords in any ASCII case).
pub open spec fn parse_color_spec(t: Seq<u8>, a: Seq<Color>, p: int, u: int) -> (
    Result<Color, Error>,
    int,
    int,
)
    decreases t.len() - p, 2int,
{
    let q = skip_spaces_from(t, p);
    if q >= t.len() {
        (Err(Error::UnexpectedEndOfStream), q, u)
    } else if t[q] == 0x23 {
        let (r, e) = parse_hex_spec(t, q + 1);
        (r, e, u)
    } else {
        let (name, e) = ident_at(t, q);
        if name == kw_rgb() || name == kw_rgba() {
            let (r, e2) = rgb_args_spec(t, e);
            (r, e2, u)
        } else if name == kw_hsl() || name == kw_hsla() {
            let (r, e2) = hsl_args_spec(t, e);
            (r, e2, u)
        } else if name == kw_color_mix() {
            if !(p < e <= t.len()) {
                (Err(Error::InvalidValue), e, u)
            } else {
                color_mix_spec(t, a, e, u)
            }
        } else {
            match named_color(name) {
                Some(c) => (Ok(c), e, u),
                None => (Err(Error::InvalidValue), e, u),
            }
        }
    }
}

/// A whole text as one `<color>`: the color must be followed only by
/// whitespace.
pub open spec fn color_from_text(t: Seq<u8>, a: Seq<Color>) -> Result<Color, Error> {
    let (r, p, _u) = parse_color_spec(t, a, 0, 0);
    match r {
        Err(e) => Err(e),
        Ok(c) => {
            let q = skip_spaces_from(t, p);
            if q < t.len() {
                Err(Error::UnexpectedData(char_pos(t, q) as usize))
            } else {
                Ok(c)
            }
        },
    }
}


// ---------------------------------------------------------------------------
// The parser
// ---------------------------------------------------------------------------

impl Stream {
    /// The hex digits after `#`.
    fn parse_hex(&mut self) -> (r: Result<Color, Error>)
        requires
            old(self).wf(),
        ensures
            final(self).wf(),
            final(self).same_input(old(self)),
            final(self).answers_used() == old(self).answers_used(),
            r == parse_hex_spec(old(self).bytes(), old(self).position()).0,
            final(self).position() == parse_hex_spec(old(self).bytes(), old(self).position()).1,
            old(self).position() <= final(self).position(),
    {
        let ghost t = self.bytes();
        let p = self.pos();
        proof {
            lemma_skip_class(t, p as int, ByteClass::HexDigit);
        }
        self.skip_class(ByteClass::HexDigit);
        let e = self.pos();
        let n = e - p;
        if n == 6 {
            Ok(
                Color {
                    red: hex_pair(self.byte_at(p), self.byte_at(p + 1)),
                    green: hex_pair(self.byte_at(p + 2), self.byte_at(p + 3)),
                    blue: hex_pair(self.byte_at(p + 4), self.byte_at(p + 5)),
                    alpha: 255,
                },
            )
        } else if n == 8 {
            Ok(
                Color {
                    red: hex_pair(self.byte_at(p), self.byte_at(p + 1)),
                    green: hex_pair(self.byte_at(p + 2), self.byte_at(p + 3)),
                    blue: hex_pair(self.byte_at(p + 4), self.byte_at(p + 5)),
                    alpha: hex_pair(self.byte_at(p + 6), self.byte_at(p + 7)),
                },
            )
        } else if n == 3 {
            Ok(
                Color {
                    red: short_hex(self.byte_at(p)),
                    green: short_hex(self.byte_at(p + 1)),
                    blue: short_hex(self.byte_at(p + 2)),
                    alpha: 255,
                },
            )
        } else if n == 4 {
            Ok(
                Color {
                    red: short_hex(self.byte_at(p)),
                    green: short_hex(self.byte_at(p + 1)),
                    blue: short_hex(self.byte_at(p + 2)),
                    alpha: short_hex(self.byte_at(p + 3)),
                },
            )
        } else {
            Err(Error::InvalidValue)
        }
    }

    /// The optional alpha and the closing `)` of `rgb()`/`hsl()`.
    fn parse_alpha_and_close(&mut self) -> (r: Result<u8, Error>)
        requires
            old(self).wf(),
        ensures
            final(self).wf(),
            final(self).same_input(old(self)),
            final(self).answers_used() == old(self).answers_used(),
            r == alpha_and_close_spec(old(self).bytes(), old(self).position()).0,
            final(self).position() == alpha_and_close_spec(
                old(self).bytes(),
                old(self).position(),
            ).1,
            old(self).position() <= final(self).position(),
    {
        self.skip_spaces();
        let mut alpha: u8 = 255;
        if !self.starts_with_byte(0x29) {
            let n = self.parse_list_number()?;
            alpha = scaled_channel_exec(&n, 255, 1);
        }
        self.skip_spaces();
        self.consume_byte(0x29)?;
        Ok(alpha)
    }

    /// The green and blue channels and the rest of `rgb()` once red is read.
    fn parse_rgb_rest(&mut self, red: u8, percent: bool) -> (r: Result<Color, Error>)
        requires
            old(self).wf(),
        ensures
            final(self).wf(),
            final(self).same_input(old(self)),
            final(self).answers_used() == old(self).answers_used(),
            r == rgb_rest_spec(old(self).bytes(), old(self).position(), red, percent).0,
            final(self).position() == rgb_rest_spec(
                old(self).bytes(),
                old(self).position(),
                red,
                percent,
            ).1,
            old(self).position() <= final(self).position(),
    {
        if percent {
            let g = self.parse_list_number_or_percent()?;
            let b = self.parse_list_number_or_percent()?;
            let green = if g.1 {
                scaled_channel_exec(&g.0, 255, 100)
            } else {
                scaled_channel_exec(&g.0, 255, 1)
            };
            let blue = if b.1 {
                scaled_channel_exec(&b.0, 255, 100)
            } else {
                scaled_channel_exec(&b.0, 255, 1)
            };
            let alpha = self.parse_alpha_and_close()?;
            Ok(Color { red, green, blue, alpha })
        } else {
            let g = self.parse_list_number()?;
            let b = self.parse_list_number()?;
            let green = scaled_channel_exec(&g, 1, 1);
            let blue = scaled_channel_exec(&b, 1, 1);
            let alpha = self.parse_alpha_and_close()?;
            Ok(Color { red, green, blue, alpha })
        }
    }

    /// The arguments of `rgb()`/`rgba()`, from `(`.
    fn parse_rgb_args(&mut self) -> (r: Result<Color, Error>)
        requires
            old(self).wf(),
        ensures
            final(self).wf(),
            final(self).same_input(old(self)),
            final(self).answers_used() == old(self).answers_used(),
            r == rgb_args_spec(old(self).bytes(), old(self).position()).0,
            final(self).position() == rgb_args_spec(old(self).bytes(), old(self).position()).1,
            old(self).position() <= final(self).position(),
    {
        proof {
            reveal(rgb_args_spec);
        }
        self.consume_byte(0x28)?;
        let value = self.parse_number()?;
        let mut percent = false;
        if self.starts_with_byte(0x25) {
            self.advance(1);
            percent = true;
        }
        self.skip_spaces();
        self.parse_list_separator();
        // The red channel is scaled as the green and blue ones are.
        let red = if percent {
            scaled_channel_exec(&value, 255, 100)
        } else {
            scaled_channel_exec(&value, 1, 1)
        };
        self.parse_rgb_rest(red, percent)
    }

    /// The arguments of `hsl()`/`hsla()`, from `(`.
    fn parse_hsl_args(&mut self) -> (r: Result<Color, Error>)
        requires
            old(self).wf(),
        ensures
            final(self).wf(),
            final(self).same_input(old(self)),
            final(self).answers_used() == old(self).answers_used(),
            r == hsl_args_spec(old(self).bytes(), old(self).position()).0,
            final(self).position() == hsl_args_spec(old(self).bytes(), old(self).position()).1,
            old(self).position() <= final(self).position(),
    {
        proof {
            reveal(hsl_args_spec);
        }
        self.consume_byte(0x28)?;
        let hue = self.parse_list_number()?;
        let saturation = self.parse_list_number_or_percent()?;
        let lightness = self.parse_list_number_or_percent()?;
        let h = hue_units_exec(&hue);
        let s = if saturation.1 {
            fraction_units_exec(&saturation.0, 7, 1_000_000_000)
        } else {
            fraction_units_exec(&saturation.0, 9, 1_000_000_000)
        };
        let l = if lightness.1 {
            fraction_units_exec(&lightness.0, 7, 1_000_000_000)
        } else {
            fraction_units_exec(&lightness.0, 9, 1_000_000_000)
        };
        let base = hsl_to_rgb(h, s as u64, l as u64);
        let alpha = self.parse_alpha_and_close()?;
        Ok(Color { alpha, ..base })
    }

    /// Parses a color space identifier.
    fn parse_color_space(&mut self) -> (r: Result<ColorSpace, Error>)
        requires
            old(self).wf(),
        ensures
            final(self).wf(),
            final(self).same_input(old(self)),
            final(self).answers_used() == old(self).answers_used(),
            r == parse_color_space_spec(old(self).bytes(), old(self).position()).0,
            final(self).position() == parse_color_space_spec(
                old(self).bytes(),
                old(self).position(),
            ).1,
            old(self).position() <= final(self).position(),
    {
        proof {
            lemma_skip_class(self.bytes(), self.position(), ByteClass::Ident);
        }
        let name = self.consume_ascii_ident_lowercase();
        let n = name.as_slice();
        if is_kw_srgb(n) {
            Ok(ColorSpace::Srgb)
        } else if is_kw_srgb_linear(n) {
            Ok(ColorSpace::SrgbLinear)
        } else if is_kw_lab(n) {
            Ok(ColorSpace::Lab)
        } else if is_kw_oklab(n) {
            Ok(ColorSpace::Oklab)
        } else if is_kw_lch(n) {
            Ok(ColorSpace::Lch)
        } else if is_kw_oklch(n) {
            Ok(ColorSpace::Oklch)
        } else if is_kw_hsl(n) {
            Ok(ColorSpace::Hsl)
        } else if is_kw_hwb(n) {
            Ok(ColorSpace::Hwb)
        } else {
            Err(Error::InvalidValue)
        }
    }

    /// Parses `<method> hue`; anything else is invalid.
    fn try_parse_hue_interpolation(&mut self) -> (r: Result<HueInterpolation, Error>)
        requires
            old(self).wf(),
        ensures
            final(self).wf(),
            final(self).same_input(old(self)),
            final(self).answers_used() == old(self).answers_used(),
            r == try_hue_interpolation_spec(old(self).bytes(), old(self).position()).0,
            final(self).position() == try_hue_interpolation_spec(
                old(self).bytes(),
                old(self).position(),
            ).1,
            old(self).position() <= final(self).position(),
    {
        proof {
            lemma_skip_class(self.bytes(), self.position(), ByteClass::Ident);
        }
        let name = self.consume_ascii_ident_lowercase();
        let n = name.as_slice();
        let method = if is_kw_shorter(n) {
            Some(HueInterpolation::Shorter)
        } else if is_kw_longer(n) {
            Some(HueInterpolation::Longer)
        } else if is_kw_increasing(n) {
            Some(HueInterpolation::Increasing)
        } else if is_kw_decreasing(n) {
            Some(HueInterpolation::Decreasing)
        } else {
            None
        };
        if let Some(m) = method {
            self.skip_spaces();
            proof {
                lemma_skip_class(self.bytes(), self.position(), ByteClass::Ident);
            }
            let kw = self.consume_ascii_ident_lowercase();
            if is_kw_hue(kw.as_slice()) {
                return Ok(m);
            }
        }
        Err(Error::InvalidValue)
    }

    /// Parses the color interpolation method: `in <colorspace> [<hue-method> hue]`.
    fn parse_color_interpolation_method(&mut self) -> (r: Result<
        (ColorSpace, HueInterpolation),
        Error,
    >)
        requires
            old(self).wf(),
        ensures
            final(self).wf(),
            final(self).same_input(old(self)),
            final(self).answers_used() == old(self).answers_used(),
            r == parse_interpolation_spec(old(self).bytes(), old(self).position()).0,
            final(self).position() == parse_interpolation_spec(
                old(self).bytes(),
                old(self).position(),
            ).1,
            old(self).position() <= final(self).position(),
    {
        proof {
            lemma_skip_class(self.bytes(), self.position(), ByteClass::Ident);
        }
        let kw = self.consume_ascii_ident_lowercase();
        if !is_kw_in(kw.as_slice()) {
            return Err(Error::InvalidValue);
        }
        self.skip_spaces();
        let space = self.parse_color_space()?;
        self.skip_spaces();
        let hue = if space.is_polar() && !self.at_end() && !self.is_curr_byte_eq(0x2c) {
            self.try_parse_hue_interpolation()?
        } else {
            HueInterpolation::Shorter
        };
        Ok((space, hue))
    }

    /// Parses an optional percentage for `color-mix()`, as a weight in units
    /// of `WEIGHT_ONE` clamped into `[0, 1]`; a number without `%` is invalid.
    fn try_parse_percentage_for_color_mix(&mut self) -> (r: Result<Option<u64>, Error>)
        requires
            old(self).wf(),
        ensures
            final(self).wf(),
            final(self).same_input(old(self)),
            final(self).answers_used() == old(self).answers_used(),
            r == try_percentage_spec(old(self).bytes(), old(self).position()).0,
            final(self).position() == try_percentage_spec(
                old(self).bytes(),
                old(self).position(),
            ).1,
            old(self).position() <= final(self).position(),
            r matches Ok(Some(w)) ==> w <= WEIGHT_ONE,
    {
        self.skip_spaces();
        if self.at_end() {
            return Ok(None);
        }
        let c = self.byte_at(self.pos());
        if !((0x30 <= c && c <= 0x39) || c == 0x2b || c == 0x2d || c == 0x2e) {
            return Ok(None);
        }
        let n = self.parse_number()?;
        self.skip_spaces();
        if self.is_curr_byte_eq(0x25) {
            self.advance(1);
            let w = fraction_units_exec(&n, 16, WEIGHT_ONE as u128);
            Ok(Some(w as u64))
        } else {
            Err(Error::InvalidValue)
        }
    }
}


impl Stream {
    /// Parses a color.
    ///
    /// A `color-mix()` in sRGB, or one whose weight falls on no visible color,
    /// is evaluated exactly; any other takes the red, green and blue of the
    /// next mixed color supplied to the stream (its alpha is computed here),
    /// and without one the result is `Error::UnresolvedColorMix` with what is
    /// to be mixed.
    #[verifier::rlimit(60)]
    pub fn parse_color(&mut self) -> (r: Result<Color, Error>)
        requires
            old(self).wf(),
        ensures
            final(self).wf(),
            final(self).same_input(old(self)),
            r == parse_color_spec(
                old(self).bytes(),
                old(self).answers(),
                old(self).position(),
                old(self).answers_used(),
            ).0,
            final(self).position() == parse_color_spec(
                old(self).bytes(),
                old(self).answers(),
                old(self).position(),
                old(self).answers_used(),
            ).1,
            final(self).answers_used() == parse_color_spec(
                old(self).bytes(),
                old(self).answers(),
                old(self).position(),
                old(self).answers_used(),
            ).2,
            old(self).position() <= final(self).position(),
        decreases old(self).bytes().len() - old(self).position(), 2int,
    {
        self.skip_spaces();
        let first = self.curr_byte()?;
        if first == 0x23 {
            self.advance(1);
            return self.parse_hex();
        }
        let q = self.pos();
        proof {
            lemma_skip_class(self.bytes(), self.position(), ByteClass::Ident);
        }
        let name = self.consume_ascii_ident_lowercase();
        let n = name.as_slice();
        if is_kw_rgb(n) || is_kw_rgba(n) {
            self.parse_rgb_args()
        } else if is_kw_hsl(n) || is_kw_hsla(n) {
            self.parse_hsl_args()
        } else if is_kw_color_mix(n) {
            proof {
                assert(name@.len() == self.position() - q);
                assert(kw_color_mix().len() == 9);
            }
            self.parse_color_mix()
        } else {
            match from_name(n) {
                Some(c) => Ok(c),
                None => Err(Error::InvalidValue),
            }
        }
    }

    /// Parses a `color-mix()` function, from `(`.
    ///
    /// Syntax: `color-mix(in <colorspace> [<hue-interpolation> hue], <color> [<percentage>], <color> [<percentage>])`
    fn parse_color_mix(&mut self) -> (r: Result<Color, Error>)
        requires
            old(self).wf(),
        ensures
            final(self).wf(),
            final(self).same_input(old(self)),
            r == color_mix_spec(
                old(self).bytes(),
                old(self).answers(),
                old(self).position(),
                old(self).answers_used(),
            ).0,
            final(self).position() == color_mix_spec(
                old(self).bytes(),
                old(self).answers(),
                old(self).position(),
                old(self).answers_used(),
            ).1,
            final(self).answers_used() == color_mix_spec(
                old(self).bytes(),
                old(self).answers(),
                old(self).position(),
                old(self).answers_used(),
            ).2,
            old(self).position() <= final(self).position(),
        decreases old(self).bytes().len() - old(self).position(), 1int,
    {
        self.consume_byte(0x28)?;
        self.skip_spaces();
        // Parse "in <colorspace> [<hue-method> hue]"
        let method = self.parse_color_interpolation_method()?;
        self.skip_spaces();
        self.consume_byte(0x2c)?;
        self.skip_spaces();
        // Parse color1
        let color1 = self.parse_color()?;
        let ghost p5 = self.position();
        let ghost u1 = self.answers_used();
        self.skip_spaces();
        // Try to parse optional percentage for color1
        let pct1 = self.try_parse_percentage_for_color_mix()?;
        self.skip_spaces();
        self.consume_byte(0x2c)?;
        self.skip_spaces();
        // Parse color2
        let color2 = self.parse_color()?;
        self.skip_spaces();
        // Try to parse optional percentage for color2
        let pct2 = self.try_parse_percentage_for_color_mix()?;
        self.skip_spaces();
        self.consume_byte(0x29)?;
        let req = MixRequest {
            space: method.0,
            hue_interpolation: method.1,
            first: color1,
            first_weight: pct1,
            second: color2,
            second_weight: pct2,
        };
        match compute_color_mix(&req) {
            Some(c) => Ok(c),
            None => match self.take_answer() {
                Some(c) => Ok(Color { alpha: mix_alpha(&req), ..c }),
                None => Err(Error::UnresolvedColorMix(req)),
            },
        }
    }

    /// Tries to parse a color, but doesn't advance on error.
    pub fn try_parse_color(&mut self) -> (r: Option<Color>)
        requires
            old(self).wf(),
        ensures
            final(self).wf(),
            final(self).same_input(old(self)),
            parse_color_spec(
                old(self).bytes(),
                old(self).answers(),
                old(self).position(),
                old(self).answers_used(),
            ).0 matches Ok(c) ==> {
                &&& r == Some(c)
                &&& final(self).position() == parse_color_spec(
                    old(self).bytes(),
                    old(self).answers(),
                    old(self).position(),
                    old(self).answers_used(),
                ).1
                &&& final(self).answers_used() == parse_color_spec(
                    old(self).bytes(),
                    old(self).answers(),
                    old(self).position(),
                    old(self).answers_used(),
                ).2
            },
            parse_color_spec(
                old(self).bytes(),
                old(self).answers(),
                old(self).position(),
                old(self).answers_used(),
            ).0 is Err ==> {
                &&& r == None::<Color>
                &&& final(self).position() == old(self).position()
                &&& final(self).answers_used() == old(self).answers_used()
            },
    {
        let mut s = self.copy();
        match s.parse_color() {
            Ok(color) => {
                *self = s;
                Some(color)
            },
            Err(_) => None,
        }
    }
}

impl Color {
    /// Parses a CSS3 `<color>` from a string.
    ///
    /// Errors: an invalid format; a color followed by anything but
    /// whitespace (such as an `<icccolor>`, which is not supported); a
    /// `color-mix()` that only a supplied mixed color can resolve (see
    /// `from_str_with_mixes`).
    pub fn from_str(text: &str) -> (r: Result<Color, Error>)
        requires
            text.spec_bytes().len() < usize::MAX,
        ensures
            r == color_from_text(text.spec_bytes(), Seq::<Color>::empty()),
    {
        Color::from_str_with_mixes(text, Vec::new())
    }

    /// Parses a `<color>` from a string, taking the red, green and blue of the
    /// `color-mix()` expressions that this library does not evaluate exactly
    /// from `mixes`, in the order the parser meets them (the alpha of a mix is
    /// always computed here).
    pub fn from_str_with_mixes(text: &str, mixes: Vec<Color>) -> (r: Result<Color, Error>)
        requires
            text.spec_bytes().len() < usize::MAX,
        ensures
            r == color_from_text(text.spec_bytes(), mixes@),
    {
        let mut s = Stream::with_answers(text, mixes);
        let color = s.parse_color()?;
        // Check that we are at the end of the stream. Otherwise color can be followed by icccolor,
        // which is not supported.
        s.skip_spaces();
        if !s.at_end() {
            return Err(Error::UnexpectedData(s.calc_char_pos()));
        }
        Ok(color)
    }
}

} // verus!
