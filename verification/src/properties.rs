//! Properties of the `<color>` parser as a whole.
use vstd::prelude::*;

use crate::color::Color;
use crate::color_mix::{
    has_visible_weight, mix_result, mix_weights, request_alpha, ColorSpace, HueInterpolation,
    MixRequest,
};
use crate::error::Error;
use crate::arith::scaled_channel;
use crate::keywords::{kw_color_mix, kw_hsl, kw_hsla, kw_rgb, kw_rgba};
use crate::number::{
    parse_list_number_or_percent_spec, parse_number_or_percent_spec, list_separator_end,
    digit_of, lemma_parse_number_bounds, lemma_pow10_monotonic, number_scan, parse_list_number_spec, parse_number_spec,
    pow10, scan_value, sig_fold, Number,
};
use crate::parser::{
    alpha_and_close_spec, resolve_mix, color_from_text, color_mix_spec, rgb_args_spec,
    rgb_rest_spec, hex_pair_value, hex_value, ident_at, mix_tail_spec,
    parse_color_spec, parse_hex_spec, parse_interpolation_spec, try_percentage_spec,
};
use crate::locality::{
    lemma_parse_list_number_from,
    lemma_char_pos_from, lemma_color_mix_from, lemma_hsl_args_from, lemma_parse_hex_from,
    lemma_rgb_args_from, lemma_skip_class_from, same_from,
};
use crate::stream::{
    char_count, consume_byte_result, in_class, is_continuation, is_digit, is_hex_digit,
    lemma_skip_class,
    lower, lower_byte, skip_class, skip_spaces_from, ByteClass,
};

verus! {

/// The lowercase hex digit that stands for `d`, for `0 <= d < 16`.
pub open spec fn hex_digit_byte(d: int) -> u8 {
    if d < 10 {
        (0x30 + d) as u8
    } else {
        (0x61 + d - 10) as u8
    }
}

/// The two hex digits of a byte.
pub open spec fn hex_byte(v: u8) -> Seq<u8> {
    seq![hex_digit_byte(v as int / 16), hex_digit_byte(v as int % 16)]
}

/// `#rrggbbaa`: a color in 8-digit hex notation.
pub open spec fn hex_notation(c: Color) -> Seq<u8> {
    seq![0x23u8] + hex_byte(c.red) + hex_byte(c.green) + hex_byte(c.blue) + hex_byte(c.alpha)
}

/// `#rrggbb`: the channels of a color in 6-digit hex notation.
pub open spec fn hex_notation_rgb(c: Color) -> Seq<u8> {
    seq![0x23u8] + hex_byte(c.red) + hex_byte(c.green) + hex_byte(c.blue)
}

/// A run of bytes of class `c` from `p` to `e` that stops at `e` is what
/// `skip_class` skips.
proof fn lemma_skip_run(t: Seq<u8>, p: int, e: int, c: ByteClass)
    requires
        0 <= p <= e <= t.len(),
        forall|i: int| p <= i < e ==> in_class(c, #[trigger] t[i]),
        e == t.len() || !in_class(c, t[e]),
    ensures
        skip_class(t, p, c) == e,
    decreases e - p,
{
    if p < e {
        lemma_skip_run(t, p + 1, e, c);
    }
}

proof fn lemma_hex_digit_byte(d: int)
    requires
        0 <= d < 16,
    ensures
        is_hex_digit(hex_digit_byte(d)),
        hex_value(hex_digit_byte(d)) == d,
{
}

proof fn lemma_hex_byte(v: u8)
    ensures
        is_hex_digit(hex_byte(v)[0]),
        is_hex_digit(hex_byte(v)[1]),
        hex_pair_value(hex_byte(v)[0], hex_byte(v)[1]) == v,
{
    lemma_hex_digit_byte(v as int / 16);
    lemma_hex_digit_byte(v as int % 16);
}

/// Every color written in 8-digit hex notation, `#rrggbbaa`, is read back
/// exactly, whatever mixed colors are supplied.
pub proof fn lemma_hex_notation_round_trip(c: Color, mixes: Seq<Color>)
    ensures
        color_from_text(hex_notation(c), mixes) == Ok::<Color, Error>(c),
{
    let t = hex_notation(c);
    lemma_hex_byte(c.red);
    lemma_hex_byte(c.green);
    lemma_hex_byte(c.blue);
    lemma_hex_byte(c.alpha);
    assert(t.len() == 9);
    assert(t[0] == 0x23);
    assert(t[1] == hex_byte(c.red)[0] && t[2] == hex_byte(c.red)[1]);
    assert(t[3] == hex_byte(c.green)[0] && t[4] == hex_byte(c.green)[1]);
    assert(t[5] == hex_byte(c.blue)[0] && t[6] == hex_byte(c.blue)[1]);
    assert(t[7] == hex_byte(c.alpha)[0] && t[8] == hex_byte(c.alpha)[1]);
    lemma_skip_run(t, 0, 0, ByteClass::Space);
    lemma_skip_run(t, 1, 9, ByteClass::HexDigit);
    lemma_skip_run(t, 9, 9, ByteClass::Space);
    assert(parse_hex_spec(t, 1).0 == Ok::<Color, Error>(c));
    assert(parse_color_spec(t, mixes, 0, 0).0 == Ok::<Color, Error>(c));
    assert(parse_color_spec(t, mixes, 0, 0).1 == 9);
}

/// Every color written in 6-digit hex notation, `#rrggbb`, is read back with
/// its channels and full opacity.
pub proof fn lemma_hex_notation_rgb_round_trip(c: Color, mixes: Seq<Color>)
    ensures
        color_from_text(hex_notation_rgb(c), mixes) == Ok::<Color, Error>(
            Color { alpha: 255, ..c },
        ),
{
    let t = hex_notation_rgb(c);
    lemma_hex_byte(c.red);
    lemma_hex_byte(c.green);
    lemma_hex_byte(c.blue);
    assert(t.len() == 7);
    assert(t[0] == 0x23);
    assert(t[1] == hex_byte(c.red)[0] && t[2] == hex_byte(c.red)[1]);
    assert(t[3] == hex_byte(c.green)[0] && t[4] == hex_byte(c.green)[1]);
    assert(t[5] == hex_byte(c.blue)[0] && t[6] == hex_byte(c.blue)[1]);
    lemma_skip_run(t, 0, 0, ByteClass::Space);
    lemma_skip_run(t, 1, 7, ByteClass::HexDigit);
    lemma_skip_run(t, 7, 7, ByteClass::Space);
    assert(parse_hex_spec(t, 1).0 == Ok::<Color, Error>(Color { alpha: 255, ..c }));
    assert(parse_color_spec(t, mixes, 0, 0).1 == 7);
}

// ---------------------------------------------------------------------------
// Supplied mixed colors
// ---------------------------------------------------------------------------

/// Whether a result is the error of a `color-mix()` that needed a supplied
/// mixed color.
pub open spec fn is_unresolved(r: Result<Color, Error>) -> bool {
    r matches Err(Error::UnresolvedColorMix(_))
}

proof fn lemma_parse_color_mixes(t: Seq<u8>, a: Seq<Color>, p: int, u: int)
    requires
        !is_unresolved(parse_color_spec(t, Seq::empty(), p, 0).0),
    ensures
        parse_color_spec(t, a, p, u) == (
            parse_color_spec(t, Seq::empty(), p, 0).0,
            parse_color_spec(t, Seq::empty(), p, 0).1,
            u,
        ),
    decreases t.len() - p, 2int,
{
    let q = skip_spaces_from(t, p);
    if q < t.len() && t[q] != 0x23 {
        let (name, e) = ident_at(t, q);
        if name == kw_color_mix() && p < e <= t.len() && !(name == kw_rgb() || name == kw_rgba())
            && !(name == kw_hsl() || name == kw_hsla()) {
            assert(parse_color_spec(t, a, p, u) == color_mix_spec(t, a, e, u));
            assert(parse_color_spec(t, Seq::empty(), p, 0) == color_mix_spec(t, Seq::empty(), e, 0));
            lemma_color_mix_mixes(t, a, e, u);
        }
    }
}

proof fn lemma_color_mix_mixes(t: Seq<u8>, a: Seq<Color>, p: int, u: int)
    requires
        !is_unresolved(color_mix_spec(t, Seq::empty(), p, 0).0),
    ensures
        color_mix_spec(t, a, p, u) == (
            color_mix_spec(t, Seq::empty(), p, 0).0,
            color_mix_spec(t, Seq::empty(), p, 0).1,
            u,
        ),
    decreases t.len() - p, 1int,
{
    let (r0, p1) = consume_byte_result(t, p, 0x28);
    let (rm, p2) = parse_interpolation_spec(t, skip_spaces_from(t, p1));
    let (rc, p3) = consume_byte_result(t, skip_spaces_from(t, p2), 0x2c);
    let p4 = skip_spaces_from(t, p3);
    if r0 is Ok && rm is Ok && rc is Ok && p < p4 <= t.len() {
        lemma_parse_color_mixes(t, a, p4, u);
        lemma_parse_color_mixes(t, Seq::empty(), p4, 0);
        let (r1, p5, u1) = parse_color_spec(t, Seq::empty(), p4, 0);
        if r1 is Ok {
            let method = rm->Ok_0;
            let c1 = r1->Ok_0;
            assert(color_mix_spec(t, a, p, u) == mix_tail_spec(t, a, p5, u, method, c1, p));
            assert(color_mix_spec(t, Seq::empty(), p, 0) == mix_tail_spec(
                t,
                Seq::empty(),
                p5,
                0,
                method,
                c1,
                p,
            ));
            lemma_mix_tail_mixes(t, a, p5, u, method, c1, p);
        }
    }
}

proof fn lemma_mix_tail_mixes(
    t: Seq<u8>,
    a: Seq<Color>,
    p: int,
    u: int,
    method: (ColorSpace, HueInterpolation),
    c1: Color,
    start: int,
)
    requires
        !is_unresolved(mix_tail_spec(t, Seq::empty(), p, 0, method, c1, start).0),
    ensures
        mix_tail_spec(t, a, p, u, method, c1, start) == (
            mix_tail_spec(t, Seq::empty(), p, 0, method, c1, start).0,
            mix_tail_spec(t, Seq::empty(), p, 0, method, c1, start).1,
            u,
        ),
    decreases t.len() - start, 0int,
{
    let (rp1, p1) = try_percentage_spec(t, skip_spaces_from(t, p));
    let (rc, p2) = consume_byte_result(t, skip_spaces_from(t, p1), 0x2c);
    let p3 = skip_spaces_from(t, p2);
    if rp1 is Ok && rc is Ok && start < p3 <= t.len() {
        lemma_parse_color_mixes(t, a, p3, u);
        lemma_parse_color_mixes(t, Seq::empty(), p3, 0);
    }
}

/// The supplied mixed colors are taken only by `color-mix()` expressions in
/// spaces other than sRGB: a text whose reading does not stop for want of
/// one gives the same result whatever mixed colors are supplied.
pub proof fn lemma_supplied_mixes_unused(t: Seq<u8>, mixes: Seq<Color>)
    requires
        !is_unresolved(color_from_text(t, Seq::empty())),
    ensures
        color_from_text(t, mixes) == color_from_text(t, Seq::empty()),
{
    lemma_parse_color_mixes(t, mixes, 0, 0);
}

// ---------------------------------------------------------------------------
// Letter case
// ---------------------------------------------------------------------------

/// `t1` and `t2` have the same length and the same bytes from `k` on; before
/// `k` their bytes differ at most in ASCII case.
pub open spec fn same_but_case_before(t1: Seq<u8>, t2: Seq<u8>, k: int) -> bool {
    &&& t1.len() == t2.len()
    &&& 0 <= k <= t1.len()
    &&& forall|i: int|
        #![trigger t1[i]]
        #![trigger t2[i]]
        0 <= i < k ==> lower_byte(t1[i]) == lower_byte(t2[i])
    &&& forall|i: int| #![trigger t1[i]] #![trigger t2[i]] k <= i < t1.len() ==> t1[i] == t2[i]
}

proof fn lemma_case_byte(b1: u8, b2: u8, c: ByteClass)
    requires
        lower_byte(b1) == lower_byte(b2),
    ensures
        in_class(c, b1) == in_class(c, b2),
        is_continuation(b1) == is_continuation(b2),
        (b1 == 0x23) == (b2 == 0x23),
{
}

proof fn lemma_skip_class_case(t1: Seq<u8>, t2: Seq<u8>, k: int, p: int, c: ByteClass)
    requires
        same_but_case_before(t1, t2, k),
        0 <= p <= t1.len(),
    ensures
        skip_class(t1, p, c) == skip_class(t2, p, c),
    decreases t1.len() - p,
{
    if p < t1.len() {
        lemma_case_byte(t1[p], t2[p], c);
        lemma_skip_class_case(t1, t2, k, p + 1, c);
    }
}

proof fn lemma_char_count_case(t1: Seq<u8>, t2: Seq<u8>, k: int, p: int)
    requires
        same_but_case_before(t1, t2, k),
        0 <= p <= t1.len(),
    ensures
        char_count(t1, p) == char_count(t2, p),
    decreases p,
{
    if p > 0 {
        lemma_case_byte(t1[p - 1], t2[p - 1], ByteClass::Space);
        lemma_char_count_case(t1, t2, k, p - 1);
    }
}

/// Reading the first color of two texts that differ only in letter case up
/// to the end of their first identifier gives the same result, and stops at
/// or after that identifier's end.
proof fn lemma_parse_color_case(t1: Seq<u8>, t2: Seq<u8>, mixes: Seq<Color>, k: int)
    requires
        same_but_case_before(t1, t2, k),
        k <= skip_class(t1, skip_spaces_from(t1, 0), ByteClass::Ident),
        same_from(t1, t2, k),
    ensures
        parse_color_spec(t1, mixes, 0, 0) == parse_color_spec(t2, mixes, 0, 0),
        k <= parse_color_spec(t1, mixes, 0, 0).1 <= t1.len(),
{
    lemma_skip_class_case(t1, t2, k, 0, ByteClass::Space);
    lemma_skip_class(t1, 0, ByteClass::Space);
    let q = skip_spaces_from(t1, 0);
    if q < t1.len() {
        lemma_case_byte(t1[q], t2[q], ByteClass::Ident);
        lemma_skip_class_case(t1, t2, k, q, ByteClass::Ident);
        lemma_skip_class(t1, q, ByteClass::Ident);
        let end = skip_class(t1, q, ByteClass::Ident);
        if t1[q] == 0x23 {
            assert(end == q);
            lemma_parse_hex_from(t1, t2, k, q + 1);
        } else {
            assert(lower(t1.subrange(q, end)) =~= lower(t2.subrange(q, end))) by {
                assert forall|j: int| 0 <= j < end - q implies lower(t1.subrange(q, end))[j]
                    == lower(t2.subrange(q, end))[j] by {
                    let i = q + j;
                    if i >= k {
                        assert(t1[i] == t2[i]);
                    } else {
                        assert(lower_byte(t1[i]) == lower_byte(t2[i]));
                    }
                }
            }
            lemma_rgb_args_from(t1, t2, k, end);
            lemma_hsl_args_from(t1, t2, k, end);
            if 0 < end {
                lemma_color_mix_from(t1, t2, mixes, k, end, 0);
            }
        }
    }
}

/// Function names and color keywords are read in any ASCII case: two texts
/// that differ only in the case of letters up to the end of the identifier
/// that begins them (after leading whitespace) read as the same color, or
/// fail with the same error.
pub proof fn lemma_keyword_any_case(t1: Seq<u8>, t2: Seq<u8>, mixes: Seq<Color>, k: int)
    requires
        same_but_case_before(t1, t2, k),
        k <= skip_class(t1, skip_spaces_from(t1, 0), ByteClass::Ident),
    ensures
        color_from_text(t1, mixes) == color_from_text(t2, mixes),
{
    lemma_char_count_case(t1, t2, k, k);
    assert(same_from(t1, t2, k));
    lemma_parse_color_case(t1, t2, mixes, k);
    let pe = parse_color_spec(t1, mixes, 0, 0).1;
    lemma_skip_class_from(t1, t2, k, pe, ByteClass::Space);
    lemma_char_pos_from(t1, t2, k, skip_spaces_from(t1, pe));
}

/// The alpha of every `color-mix()` is the interpolated alpha of its two
/// colors, whatever its color space and whatever mixed color is supplied.
pub proof fn lemma_mix_alpha_any_space(req: MixRequest, mixes: Seq<Color>, used: int)
    ensures
        resolve_mix(req, mixes, used).0 matches Ok(c) ==> c.alpha == request_alpha(req),
{
}

// ---------------------------------------------------------------------------
// Decimal notation
// ---------------------------------------------------------------------------

/// The decimal value of a string of digits.
pub open spec fn digits_value(s: Seq<u8>) -> int
    decreases s.len(),
{
    if s.len() == 0 {
        0
    } else {
        digits_value(s.drop_last()) * 10 + digit_of(s.last())
    }
}

/// The decimal digits of `n`, without leading zeros.
pub open spec fn decimal_bytes(n: nat) -> Seq<u8>
    decreases n,
{
    if n < 10 {
        seq![(0x30 + n) as u8]
    } else {
        decimal_bytes(n / 10).push((0x30 + n % 10) as u8)
    }
}

/// `rgb(r,g,b)`: the channels of a color in decimal functional notation.
pub open spec fn rgb_notation(c: Color) -> Seq<u8> {
    seq![0x72u8, 0x67, 0x62, 0x28] + decimal_bytes(c.red as nat) + seq![0x2cu8] + decimal_bytes(
        c.green as nat,
    ) + seq![0x2cu8] + decimal_bytes(c.blue as nat) + seq![0x29u8]
}

proof fn lemma_decimal_bytes(n: nat)
    requires
        n < 1000,
    ensures
        1 <= decimal_bytes(n).len() <= 3,
        n < 100 ==> decimal_bytes(n).len() <= 2,
        n < 10 ==> decimal_bytes(n).len() == 1,
        forall|i: int| 0 <= i < decimal_bytes(n).len() ==> is_digit(#[trigger] decimal_bytes(n)[i]),
        digits_value(decimal_bytes(n)) == n,
    decreases n,
{
    if n >= 10 {
        lemma_decimal_bytes(n / 10);
        let s = decimal_bytes(n / 10).push((0x30 + n % 10) as u8);
        assert(s.drop_last() =~= decimal_bytes(n / 10));
        assert(digit_of(s.last()) == n % 10);
        assert(digits_value(s) == digits_value(decimal_bytes(n / 10)) * 10 + n % 10);
    } else {
        let s = decimal_bytes(n);
        assert(s.drop_last() =~= Seq::<u8>::empty());
        assert(digits_value(s) == digits_value(s.drop_last()) * 10 + digit_of(s.last()));
    }
}

/// The significant digits of a short digit string are its value.
proof fn lemma_sig_fold_short(s: Seq<u8>)
    requires
        forall|i: int| 0 <= i < s.len() ==> is_digit(#[trigger] s[i]),
        s.len() <= 18,
    ensures
        sig_fold(s).0 == digits_value(s),
        sig_fold(s).2 == 0,
        0 <= sig_fold(s).1 <= s.len(),
        (sig_fold(s).1 == 0) == (digits_value(s) == 0),
        0 <= digits_value(s) < pow10(s.len()),
    decreases s.len(),
{
    if s.len() > 0 {
        let p = s.drop_last();
        assert forall|i: int| 0 <= i < p.len() implies is_digit(#[trigger] p[i]) by {
            assert(p[i] == s[i]);
        }
        lemma_sig_fold_short(p);
        assert(is_digit(s[s.len() - 1]));
        assert(pow10(s.len()) == 10 * pow10(p.len()));
    }
}

/// A string of up to 18 digits at `p`, followed by `,` or `)` or the end of
/// the text, reads as the number it writes.
proof fn lemma_parse_decimal(t: Seq<u8>, p: int, m: int)
    requires
        0 <= p,
        1 <= m <= 18,
        p + m <= t.len(),
        forall|i: int| p <= i < p + m ==> is_digit(#[trigger] t[i]),
        p + m < t.len() ==> (t[p + m] == 0x2c || t[p + m] == 0x29),
    ensures
        parse_number_spec(t, p) == (
            Ok::<Number, Error>(
                Number {
                    negative: false,
                    mantissa: digits_value(t.subrange(p, p + m)) as u64,
                    exponent: 0,
                },
            ),
            p + m,
        ),
{
    let d = t.subrange(p, p + m);
    assert forall|i: int| 0 <= i < d.len() implies is_digit(#[trigger] d[i]) by {
        assert(d[i] == t[p + i]);
    }
    lemma_sig_fold_short(d);
    lemma_pow10_monotonic(m as nat, 18);
    reveal_with_fuel(pow10, 19);
    assert(pow10(18) == 1_000_000_000_000_000_000);
    assert(is_digit(t[p]));
    lemma_skip_run(t, p, p, ByteClass::Space);
    lemma_skip_run(t, p, p + m, ByteClass::Digit);
    let sc = number_scan(t, p);
    assert(sc.ok && sc.end == p + m && sc.int_start == p && sc.int_end == p + m);
    assert(!sc.has_exp && !sc.exp_negative && !sc.negative);
    assert(sc.frac_start == p + m && sc.frac_end == p + m);
    assert(t.subrange(sc.int_start, sc.int_end) + t.subrange(sc.frac_start, sc.frac_end) =~= d);
    let n = scan_value(t, sc);
    assert(n.mantissa == digits_value(d));
    assert(n.exponent == 0);
    assert(n.negative == false);
    assert(pow10(0) == 1);
    assert((n.exponent as nat) == 0);
    assert(n.mantissa * pow10(n.exponent as nat) == n.mantissa * 1);
    assert(crate::number::f64_overflow_threshold() > 1_000_000_000_000_000_000);
    assert(crate::number::number_finite(n));
}

/// A decimal byte at `p`, followed by `,` or `)` or the end, reads as itself;
/// the number ends where the digits do.
proof fn lemma_parse_decimal_byte(t: Seq<u8>, p: int, v: u8)
    requires
        0 <= p,
        p + decimal_bytes(v as nat).len() <= t.len(),
        t.subrange(p, p + decimal_bytes(v as nat).len()) == decimal_bytes(v as nat),
        p + decimal_bytes(v as nat).len() < t.len() ==> (t[p + decimal_bytes(v as nat).len()]
            == 0x2c || t[p + decimal_bytes(v as nat).len()] == 0x29),
    ensures
        parse_number_spec(t, p).0 matches Ok(n) && scaled_channel(n, 1, 1) == v
            && scaled_channel(n, 255, 1) == (if v == 0 {
            0int
        } else {
            255int
        }),
        parse_number_spec(t, p).1 == p + decimal_bytes(v as nat).len(),
{
    let d = decimal_bytes(v as nat);
    lemma_decimal_bytes(v as nat);
    assert forall|i: int| p <= i < p + d.len() implies is_digit(#[trigger] t[i]) by {
        assert(t[i] == t.subrange(p, p + d.len())[i - p]);
    }
    lemma_parse_decimal(t, p, d.len() as int);
    reveal_with_fuel(pow10, 1);
}

/// What `rgb_notation` lays out: `rgb(`, the red digits, `,`, the green
/// digits, `,`, the blue digits and `)`.
spec fn rgb_layout(t: Seq<u8>, c: Color) -> bool {
    let m1 = decimal_bytes(c.red as nat).len() as int;
    let m2 = decimal_bytes(c.green as nat).len() as int;
    let m3 = decimal_bytes(c.blue as nat).len() as int;
    &&& t.len() == 7 + m1 + m2 + m3
    &&& t[0] == 0x72 && t[1] == 0x67 && t[2] == 0x62 && t[3] == 0x28
    &&& t.subrange(4, 4 + m1) == decimal_bytes(c.red as nat)
    &&& t[4 + m1] == 0x2c
    &&& t.subrange(5 + m1, 5 + m1 + m2) == decimal_bytes(c.green as nat)
    &&& t[5 + m1 + m2] == 0x2c
    &&& t.subrange(6 + m1 + m2, 6 + m1 + m2 + m3) == decimal_bytes(c.blue as nat)
    &&& t[6 + m1 + m2 + m3] == 0x29
}

proof fn lemma_rgb_layout(c: Color)
    ensures
        rgb_layout(rgb_notation(c), c),
{
    let t = rgb_notation(c);
    let d1 = decimal_bytes(c.red as nat);
    let d2 = decimal_bytes(c.green as nat);
    let d3 = decimal_bytes(c.blue as nat);
    let (m1, m2, m3) = (d1.len() as int, d2.len() as int, d3.len() as int);
    assert(t.subrange(4, 4 + m1) =~= d1);
    assert(t.subrange(5 + m1, 5 + m1 + m2) =~= d2);
    assert(t.subrange(6 + m1 + m2, 6 + m1 + m2 + m3) =~= d3);
}

proof fn lemma_rgb_layout_rest(t: Seq<u8>, c: Color)
    requires
        rgb_layout(t, c),
    ensures
        rgb_rest_spec(t, 5 + decimal_bytes(c.red as nat).len() as int, c.red, false) == (
            Ok::<Color, Error>(Color { alpha: 255, ..c }),
            t.len() as int,
        ),
{
    lemma_decimal_bytes(c.red as nat);
    lemma_decimal_bytes(c.green as nat);
    lemma_decimal_bytes(c.blue as nat);
    let m1 = decimal_bytes(c.red as nat).len() as int;
    let m2 = decimal_bytes(c.green as nat).len() as int;
    let m3 = decimal_bytes(c.blue as nat).len() as int;
    let p2 = 5 + m1;
    let p3 = 6 + m1 + m2;
    let close = 6 + m1 + m2 + m3;
    lemma_parse_decimal_byte(t, p2, c.green);
    lemma_skip_run(t, p2 + m2, p2 + m2, ByteClass::Space);
    lemma_parse_decimal_byte(t, p3, c.blue);
    lemma_skip_run(t, close, close, ByteClass::Space);
    assert(parse_list_number_spec(t, p2).1 == p3);
    assert(parse_list_number_spec(t, p3).1 == close);
    assert(alpha_and_close_spec(t, close) == (Ok::<u8, Error>(255), close + 1));
}

proof fn lemma_rgb_layout_args(t: Seq<u8>, c: Color)
    requires
        rgb_layout(t, c),
    ensures
        rgb_args_spec(t, 3) == (Ok::<Color, Error>(Color { alpha: 255, ..c }), t.len() as int),
{
    reveal(rgb_args_spec);
    lemma_decimal_bytes(c.red as nat);
    let m1 = decimal_bytes(c.red as nat).len() as int;
    lemma_parse_decimal_byte(t, 4, c.red);
    lemma_skip_run(t, 4 + m1, 4 + m1, ByteClass::Space);
    lemma_rgb_layout_rest(t, c);
}

#[verifier::rlimit(50)]
proof fn lemma_rgb_layout_text(t: Seq<u8>, c: Color, mixes: Seq<Color>)
    requires
        rgb_layout(t, c),
    ensures
        color_from_text(t, mixes) == Ok::<Color, Error>(Color { alpha: 255, ..c }),
{
    lemma_skip_run(t, 0, 0, ByteClass::Space);
    lemma_skip_run(t, 0, 3, ByteClass::Ident);
    assert(lower(t.subrange(0, 3)) =~= kw_rgb());
    lemma_rgb_layout_args(t, c);
    lemma_skip_run(t, t.len() as int, t.len() as int, ByteClass::Space);
    assert(parse_color_spec(t, mixes, 0, 0) == (
        Ok::<Color, Error>(Color { alpha: 255, ..c }),
        t.len() as int,
        0int,
    ));
}

/// Every color written in decimal functional notation, `rgb(r,g,b)`, is read
/// back with its channels and full opacity.
pub proof fn lemma_rgb_notation_round_trip(c: Color, mixes: Seq<Color>)
    ensures
        color_from_text(rgb_notation(c), mixes) == Ok::<Color, Error>(Color { alpha: 255, ..c }),
{
    lemma_rgb_layout(c);
    lemma_rgb_layout_text(rgb_notation(c), c, mixes);
}

// ---------------------------------------------------------------------------
// Short hex notation
// ---------------------------------------------------------------------------

/// `#rgb` read back: for hex digits `r`, `g`, `b` (values `0..16`), the
/// text reads as the color whose channels are `17 * r`, `17 * g`, `17 * b`
/// (each digit doubled), fully opaque, in that order.
pub proof fn lemma_short_hex_round_trip(r: int, g: int, b: int, mixes: Seq<Color>)
    requires
        0 <= r < 16,
        0 <= g < 16,
        0 <= b < 16,
    ensures
        color_from_text(
            seq![0x23u8, hex_digit_byte(r), hex_digit_byte(g), hex_digit_byte(b)],
            mixes,
        ) == Ok::<Color, Error>(
            Color { red: (17 * r) as u8, green: (17 * g) as u8, blue: (17 * b) as u8, alpha: 255 },
        ),
{
    let t = seq![0x23u8, hex_digit_byte(r), hex_digit_byte(g), hex_digit_byte(b)];
    lemma_hex_digit_byte(r);
    lemma_hex_digit_byte(g);
    lemma_hex_digit_byte(b);
    assert(t.len() == 4 && t[0] == 0x23);
    assert(t[1] == hex_digit_byte(r) && t[2] == hex_digit_byte(g) && t[3] == hex_digit_byte(b));
    lemma_skip_run(t, 0, 0, ByteClass::Space);
    lemma_skip_run(t, 1, 4, ByteClass::HexDigit);
    lemma_skip_run(t, 4, 4, ByteClass::Space);
    assert(parse_hex_spec(t, 1).0 == Ok::<Color, Error>(
        Color { red: (17 * r) as u8, green: (17 * g) as u8, blue: (17 * b) as u8, alpha: 255 },
    ));
    assert(parse_color_spec(t, mixes, 0, 0).1 == 4);
}

/// `#rgba` read back: for hex digits `r`, `g`, `b`, `a`, the text reads as
/// the color with channels `17 * r`, `17 * g`, `17 * b` and alpha `17 * a`.
pub proof fn lemma_short_hex_alpha_round_trip(r: int, g: int, b: int, a: int, mixes: Seq<Color>)
    requires
        0 <= r < 16,
        0 <= g < 16,
        0 <= b < 16,
        0 <= a < 16,
    ensures
        color_from_text(
            seq![0x23u8, hex_digit_byte(r), hex_digit_byte(g), hex_digit_byte(b), hex_digit_byte(a)],
            mixes,
        ) == Ok::<Color, Error>(
            Color {
                red: (17 * r) as u8,
                green: (17 * g) as u8,
                blue: (17 * b) as u8,
                alpha: (17 * a) as u8,
            },
        ),
{
    let t = seq![0x23u8, hex_digit_byte(r), hex_digit_byte(g), hex_digit_byte(b), hex_digit_byte(a)];
    lemma_hex_digit_byte(r);
    lemma_hex_digit_byte(g);
    lemma_hex_digit_byte(b);
    lemma_hex_digit_byte(a);
    assert(t.len() == 5 && t[0] == 0x23);
    assert(t[1] == hex_digit_byte(r) && t[2] == hex_digit_byte(g) && t[3] == hex_digit_byte(b)
        && t[4] == hex_digit_byte(a));
    lemma_skip_run(t, 0, 0, ByteClass::Space);
    lemma_skip_run(t, 1, 5, ByteClass::HexDigit);
    lemma_skip_run(t, 5, 5, ByteClass::Space);
    assert(parse_hex_spec(t, 1).0 == Ok::<Color, Error>(
        Color {
            red: (17 * r) as u8,
            green: (17 * g) as u8,
            blue: (17 * b) as u8,
            alpha: (17 * a) as u8,
        },
    ));
    assert(parse_color_spec(t, mixes, 0, 0).1 == 5);
}

// ---------------------------------------------------------------------------
// Mixes in other color spaces
// ---------------------------------------------------------------------------

/// A `color-mix()` in any space but sRGB with weight on a visible color is
/// never evaluated by sRGB arithmetic: the library leaves it open
/// (`mix_result` is `None`), and its red, green and blue are those of the
/// next supplied mixed color, with the alpha of the mix; without one the
/// reading stops with `UnresolvedColorMix`.
pub proof fn lemma_other_spaces_take_supplied(req: MixRequest, mixes: Seq<Color>, used: int)
    requires
        req.space != ColorSpace::Srgb,
        has_visible_weight(
            req.first,
            mix_weights(req.first_weight, req.second_weight).0,
            req.second,
            mix_weights(req.first_weight, req.second_weight).1,
        ),
    ensures
        mix_result(req) is None,
        0 <= used < mixes.len() ==> resolve_mix(req, mixes, used) == (
            Ok::<Color, Error>(
                Color {
                    red: mixes[used].red,
                    green: mixes[used].green,
                    blue: mixes[used].blue,
                    alpha: request_alpha(req),
                },
            ),
            used + 1,
        ),
        !(0 <= used < mixes.len()) ==> resolve_mix(req, mixes, used) == (
            Err::<Color, Error>(Error::UnresolvedColorMix(req)),
            used,
        ),
{
}

// ---------------------------------------------------------------------------
// The alpha of rgb()
// ---------------------------------------------------------------------------

proof fn lemma_skip_spaces_idempotent(t: Seq<u8>, p: int)
    requires
        0 <= p <= t.len(),
    ensures
        skip_spaces_from(t, skip_spaces_from(t, p)) == skip_spaces_from(t, p),
{
    lemma_skip_class(t, p, ByteClass::Space);
}

/// Where a `%` stands, no number, list number or alpha can be read.
proof fn lemma_nothing_at_percent(t: Seq<u8>, q: int)
    requires
        0 <= q < t.len(),
        t[q] == 0x25,
    ensures
        parse_number_spec(t, q).0 is Err,
        parse_list_number_spec(t, q).0 is Err,
        alpha_and_close_spec(t, q).0 is Err,
{
    lemma_skip_run(t, q, q, ByteClass::Space);
}

/// A list number not followed by `%` reads the same as a number that may be
/// a percentage: the same value, marked as no percentage, up to the same
/// position.
proof fn lemma_list_number_plain(t: Seq<u8>, p: int)
    requires
        0 <= p <= t.len(),
        parse_list_number_spec(t, p).0 is Ok,
        !(parse_number_spec(t, p).1 < t.len() && t[parse_number_spec(t, p).1] == 0x25),
    ensures
        parse_list_number_or_percent_spec(t, p) == (
            Ok::<(Number, bool), Error>((parse_list_number_spec(t, p).0->Ok_0, false)),
            parse_list_number_spec(t, p).1,
        ),
{
    lemma_skip_spaces_idempotent(t, p);
    lemma_skip_class(t, p, ByteClass::Space);
    assert(parse_number_spec(t, skip_spaces_from(t, p)) == parse_number_spec(t, p));
}

/// The alpha of `rgb()`/`rgba()` does not depend on whether the channels are
/// percentages: where the channels read as numbers, reading them as
/// percentages (a bare number is then a fraction of 255) succeeds too, up
/// to the same position, with the same alpha.
pub proof fn lemma_rgb_alpha_independent_of_units(t: Seq<u8>, p: int, red1: u8, red2: u8)
    requires
        0 <= p <= t.len(),
        rgb_rest_spec(t, p, red1, false).0 is Ok,
    ensures
        rgb_rest_spec(t, p, red2, true).0 is Ok,
        rgb_rest_spec(t, p, red2, true).0->Ok_0.alpha == rgb_rest_spec(t, p, red1, false).0->Ok_0.alpha,
        rgb_rest_spec(t, p, red2, true).1 == rgb_rest_spec(t, p, red1, false).1,
{
    assert(same_from(t, t, 0));
    lemma_parse_list_number_from(t, t, 0, p);
    let p1 = parse_list_number_spec(t, p).1;
    lemma_parse_list_number_from(t, t, 0, p1);
    let p2 = parse_list_number_spec(t, p1).1;
    let q0 = parse_number_spec(t, p).1;
    let q1 = parse_number_spec(t, p1).1;
    lemma_parse_number_bounds(t, p);
    lemma_parse_number_bounds(t, p1);
    if q0 < t.len() && t[q0] == 0x25 {
        lemma_skip_run(t, q0, q0, ByteClass::Space);
        assert(p1 == q0);
        lemma_nothing_at_percent(t, q0);
    }
    if q1 < t.len() && t[q1] == 0x25 {
        lemma_skip_run(t, q1, q1, ByteClass::Space);
        assert(p2 == q1);
        lemma_nothing_at_percent(t, q1);
    }
    lemma_list_number_plain(t, p);
    lemma_list_number_plain(t, p1);
}

/// `rgb(r,g,b,a)`: the channels of a color and a whole-number alpha `a`,
/// in decimal functional notation.
pub open spec fn rgba_notation(c: Color, a: u8) -> Seq<u8> {
    seq![0x72u8, 0x67, 0x62, 0x28] + decimal_bytes(c.red as nat) + seq![0x2cu8] + decimal_bytes(
        c.green as nat,
    ) + seq![0x2cu8] + decimal_bytes(c.blue as nat) + seq![0x2cu8] + decimal_bytes(a as nat)
        + seq![0x29u8]
}

spec fn rgba_layout(t: Seq<u8>, c: Color, a: u8) -> bool {
    let m1 = decimal_bytes(c.red as nat).len() as int;
    let m2 = decimal_bytes(c.green as nat).len() as int;
    let m3 = decimal_bytes(c.blue as nat).len() as int;
    let m4 = decimal_bytes(a as nat).len() as int;
    &&& t.len() == 8 + m1 + m2 + m3 + m4
    &&& t[0] == 0x72 && t[1] == 0x67 && t[2] == 0x62 && t[3] == 0x28
    &&& t.subrange(4, 4 + m1) == decimal_bytes(c.red as nat)
    &&& t[4 + m1] == 0x2c
    &&& t.subrange(5 + m1, 5 + m1 + m2) == decimal_bytes(c.green as nat)
    &&& t[5 + m1 + m2] == 0x2c
    &&& t.subrange(6 + m1 + m2, 6 + m1 + m2 + m3) == decimal_bytes(c.blue as nat)
    &&& t[6 + m1 + m2 + m3] == 0x2c
    &&& t.subrange(7 + m1 + m2 + m3, 7 + m1 + m2 + m3 + m4) == decimal_bytes(a as nat)
    &&& t[7 + m1 + m2 + m3 + m4] == 0x29
}

proof fn lemma_rgba_layout(c: Color, a: u8)
    ensures
        rgba_layout(rgba_notation(c, a), c, a),
{
    let t = rgba_notation(c, a);
    let d1 = decimal_bytes(c.red as nat);
    let d2 = decimal_bytes(c.green as nat);
    let d3 = decimal_bytes(c.blue as nat);
    let d4 = decimal_bytes(a as nat);
    let (m1, m2, m3, m4) = (d1.len() as int, d2.len() as int, d3.len() as int, d4.len() as int);
    assert(t.subrange(4, 4 + m1) =~= d1);
    assert(t.subrange(5 + m1, 5 + m1 + m2) =~= d2);
    assert(t.subrange(6 + m1 + m2, 6 + m1 + m2 + m3) =~= d3);
    assert(t.subrange(7 + m1 + m2 + m3, 7 + m1 + m2 + m3 + m4) =~= d4);
}

proof fn lemma_rgba_layout_rest(t: Seq<u8>, c: Color, a: u8)
    requires
        rgba_layout(t, c, a),
    ensures
        rgb_rest_spec(t, 5 + decimal_bytes(c.red as nat).len() as int, c.red, false) == (
            Ok::<Color, Error>(
                Color {
                    alpha: if a == 0 {
                        0u8
                    } else {
                        255u8
                    },
                    ..c
                },
            ),
            t.len() as int,
        ),
{
    lemma_decimal_bytes(c.red as nat);
    lemma_decimal_bytes(c.green as nat);
    lemma_decimal_bytes(c.blue as nat);
    lemma_decimal_bytes(a as nat);
    let m1 = decimal_bytes(c.red as nat).len() as int;
    let m2 = decimal_bytes(c.green as nat).len() as int;
    let m3 = decimal_bytes(c.blue as nat).len() as int;
    let m4 = decimal_bytes(a as nat).len() as int;
    let p2 = 5 + m1;
    let p3 = 6 + m1 + m2;
    let p4 = 7 + m1 + m2 + m3;
    let close = p4 + m4;
    lemma_parse_decimal_byte(t, p2, c.green);
    lemma_skip_run(t, p2 + m2, p2 + m2, ByteClass::Space);
    lemma_parse_decimal_byte(t, p3, c.blue);
    lemma_skip_run(t, p3 + m3, p3 + m3, ByteClass::Space);
    assert(t[p4] == decimal_bytes(a as nat)[0]);
    lemma_skip_run(t, p4, p4, ByteClass::Space);
    lemma_parse_decimal_byte(t, p4, a);
    lemma_skip_run(t, close, close, ByteClass::Space);
    assert(parse_list_number_spec(t, p2).1 == p3);
    assert(parse_list_number_spec(t, p3).1 == p4);
    assert(parse_list_number_spec(t, p4).1 == close);
    assert(alpha_and_close_spec(t, p4).0 == Ok::<u8, Error>(
        if a == 0 {
            0u8
        } else {
            255u8
        },
    ));
    assert(alpha_and_close_spec(t, p4).1 == close + 1);
}

proof fn lemma_rgba_layout_args(t: Seq<u8>, c: Color, a: u8)
    requires
        rgba_layout(t, c, a),
    ensures
        rgb_args_spec(t, 3) == (
            Ok::<Color, Error>(
                Color {
                    alpha: if a == 0 {
                        0u8
                    } else {
                        255u8
                    },
                    ..c
                },
            ),
            t.len() as int,
        ),
{
    reveal(rgb_args_spec);
    lemma_decimal_bytes(c.red as nat);
    let m1 = decimal_bytes(c.red as nat).len() as int;
    lemma_parse_decimal_byte(t, 4, c.red);
    lemma_skip_run(t, 4 + m1, 4 + m1, ByteClass::Space);
    lemma_rgba_layout_rest(t, c, a);
}

#[verifier::rlimit(50)]
proof fn lemma_rgba_layout_text(t: Seq<u8>, c: Color, a: u8, mixes: Seq<Color>)
    requires
        rgba_layout(t, c, a),
    ensures
        color_from_text(t, mixes) == Ok::<Color, Error>(
            Color {
                alpha: if a == 0 {
                    0u8
                } else {
                    255u8
                },
                ..c
            },
        ),
{
    lemma_skip_run(t, 0, 0, ByteClass::Space);
    lemma_skip_run(t, 0, 3, ByteClass::Ident);
    assert(lower(t.subrange(0, 3)) =~= kw_rgb());
    lemma_rgba_layout_args(t, c, a);
    lemma_skip_run(t, t.len() as int, t.len() as int, ByteClass::Space);
    assert(parse_color_spec(t, mixes, 0, 0).1 == t.len() as int);
}

/// The fourth argument of `rgb()` is its alpha, as a fraction of one scaled
/// to 255 and clamped: `rgb(r,g,b,0)` is transparent and `rgb(r,g,b,a)` with
/// a whole number `a >= 1` is opaque, whatever the channels.
pub proof fn lemma_rgba_notation_alpha(c: Color, a: u8, mixes: Seq<Color>)
    ensures
        color_from_text(rgba_notation(c, a), mixes) == Ok::<Color, Error>(
            Color {
                alpha: if a == 0 {
                    0u8
                } else {
                    255u8
                },
                ..c
            },
        ),
{
    lemma_rgba_layout(c, a);
    lemma_rgba_layout_text(rgba_notation(c, a), c, a, mixes);
}

} // verus!
