//! Whitespace before a text moves every reading step by its length and
//! changes nothing else but the positions that errors report.
use vstd::prelude::*;

use crate::color::Color;
use crate::color_mix::{ColorSpace, HueInterpolation, MixRequest};
use crate::error::Error;
use crate::keywords::{kw_color_mix, kw_hsl, kw_hsla, kw_rgb, kw_rgba};
use crate::locality::{
    lemma_alpha_and_close_from, lemma_color_mix_from, lemma_consume_byte_from,
    lemma_hsl_args_from, lemma_parse_color_from, lemma_parse_interpolation_from,
    lemma_parse_list_number_from, lemma_parse_list_number_or_percent_from,
    lemma_parse_number_from, lemma_rgb_args_from, lemma_rgb_rest_from,
    lemma_try_hue_interpolation_from, lemma_try_percentage_from, same_from,
};
use crate::parser::{
    color_from_text, alpha_and_close_spec, mix_end_spec, color_mix_spec, hsl_args_spec, ident_at, mix_tail_spec,
    parse_color_space_spec, parse_color_spec, parse_hex_spec, parse_interpolation_spec,
    resolve_mix, rgb_args_spec, rgb_rest_spec, try_hue_interpolation_spec, try_percentage_spec,
};
use crate::number::{
    lemma_number_scan_bounds, lemma_number_scan_digits, list_separator_end, number_scan, NumberScan,
    parse_list_number_or_percent_spec, parse_list_number_spec, parse_number_or_percent_spec,
    parse_number_spec, scan_value, is_sign,
};
use crate::stream::{
    char_count, char_pos, consume_byte_result, is_digit, is_space, lemma_char_count_bounds,
    lemma_skip_class, skip_class, skip_spaces_from, ByteClass,
};

verus! {

/// `t2` is `t1` with `k` whitespace bytes in front, and short enough for its
/// positions to be counted in `usize`.
pub open spec fn spaces_before(t1: Seq<u8>, t2: Seq<u8>, k: int) -> bool {
    &&& 0 <= k
    &&& t2.len() == t1.len() + k
    &&& t2.len() < usize::MAX
    &&& forall|i: int| 0 <= i < k ==> is_space(#[trigger] t2[i])
    &&& forall|i: int| 0 <= i < t1.len() ==> t2[i + k] == #[trigger] t1[i]
}

/// An error with its reported position moved by `k`.
pub open spec fn shift_error(e: Error, k: int) -> Error {
    match e {
        Error::UnexpectedData(n) => Error::UnexpectedData((n + k) as usize),
        Error::InvalidChar(found, expected, n) => Error::InvalidChar(found, expected, (n + k) as usize),
        Error::InvalidNumber(n) => Error::InvalidNumber((n + k) as usize),
        _ => e,
    }
}

/// A result whose error, if any, has its position moved by `k`.
pub open spec fn shift_result<T>(r: Result<T, Error>, k: int) -> Result<T, Error> {
    match r {
        Ok(v) => Ok(v),
        Err(e) => Err(shift_error(e, k)),
    }
}

proof fn lemma_char_count_spaces(t2: Seq<u8>, p: int)
    requires
        0 <= p <= t2.len(),
        forall|i: int| 0 <= i < p ==> is_space(#[trigger] t2[i]),
    ensures
        char_count(t2, p) == p,
    decreases p,
{
    if p > 0 {
        assert(is_space(t2[p - 1]));
        lemma_char_count_spaces(t2, p - 1);
    }
}

proof fn lemma_char_count_shift(t1: Seq<u8>, t2: Seq<u8>, k: int, p: int)
    requires
        spaces_before(t1, t2, k),
        0 <= p <= t1.len(),
    ensures
        char_count(t2, p + k) == char_count(t1, p) + k,
    decreases p,
{
    if p == 0 {
        lemma_char_count_spaces(t2, k);
    } else {
        assert(t2[p - 1 + k] == t1[p - 1]);
        lemma_char_count_shift(t1, t2, k, p - 1);
    }
}

/// Error positions: character positions move by `k`, and fit in `usize`.
pub proof fn lemma_char_pos_shift(t1: Seq<u8>, t2: Seq<u8>, k: int, p: int)
    requires
        spaces_before(t1, t2, k),
        0 <= p <= t1.len(),
    ensures
        char_pos(t2, p + k) == char_pos(t1, p) + k,
        (char_pos(t2, p + k) as usize) as int == char_pos(t2, p + k),
        (char_pos(t1, p) as usize) as int == char_pos(t1, p),
{
    lemma_char_count_shift(t1, t2, k, p);
    lemma_char_count_bounds(t1, p);
}

pub proof fn lemma_skip_class_shift(t1: Seq<u8>, t2: Seq<u8>, k: int, p: int, c: ByteClass)
    requires
        spaces_before(t1, t2, k),
        0 <= p <= t1.len(),
    ensures
        skip_class(t2, p + k, c) == skip_class(t1, p, c) + k,
        p <= skip_class(t1, p, c) <= t1.len(),
    decreases t1.len() - p,
{
    lemma_skip_class(t1, p, c);
    if p < t1.len() {
        assert(t2[p + k] == t1[p]);
        lemma_skip_class_shift(t1, t2, k, p + 1, c);
    }
}

pub proof fn lemma_consume_byte_shift(t1: Seq<u8>, t2: Seq<u8>, k: int, p: int, c: u8)
    requires
        spaces_before(t1, t2, k),
        0 <= p <= t1.len(),
    ensures
        consume_byte_result(t2, p + k, c) == (
            shift_result(consume_byte_result(t1, p, c).0, k),
            consume_byte_result(t1, p, c).1 + k,
        ),
        p <= consume_byte_result(t1, p, c).1 <= t1.len(),
{
    lemma_char_pos_shift(t1, t2, k, p);
    if p < t1.len() {
        assert(t2[p + k] == t1[p]);
    }
}

/// A successful number scan with every position moved by `k`.
pub open spec fn shift_scan(sc: NumberScan, k: int) -> NumberScan {
    NumberScan {
        end: sc.end + k,
        int_start: sc.int_start + k,
        int_end: sc.int_end + k,
        frac_start: sc.frac_start + k,
        frac_end: sc.frac_end + k,
        exp_start: sc.exp_start + k,
        exp_end: sc.exp_end + k,
        ..sc
    }
}

proof fn lemma_number_scan_shape_shift(t1: Seq<u8>, t2: Seq<u8>, k: int, q: int)
    requires
        spaces_before(t1, t2, k),
        0 <= q < t1.len(),
    ensures
        number_scan(t1, q).ok ==> number_scan(t2, q + k) == shift_scan(number_scan(t1, q), k),
        !number_scan(t1, q).ok ==> !number_scan(t2, q + k).ok && number_scan(t2, q + k).end
            == number_scan(t1, q).end + k,
{
    assert(t2[q + k] == t1[q]);
    let p1 = if is_sign(t1[q]) {
        q + 1
    } else {
        q
    };
    if p1 < t1.len() {
        assert(t2[p1 + k] == t1[p1]);
        lemma_skip_class_shift(t1, t2, k, p1, ByteClass::Digit);
        let p2 = if is_digit(t1[p1]) {
            skip_class(t1, p1, ByteClass::Digit)
        } else {
            p1
        };
        let p2b = if is_digit(t2[p1 + k]) {
            skip_class(t2, p1 + k, ByteClass::Digit)
        } else {
            p1 + k
        };
        assert(p2b == p2 + k);
        if p2 < t1.len() {
            assert(t2[p2 + k] == t1[p2]);
            lemma_skip_class_shift(t1, t2, k, p2 + 1, ByteClass::Digit);
        }
        let has_dot = p2 < t1.len() && t1[p2] == 0x2e;
        let has_dot_b = p2b < t2.len() && t2[p2b] == 0x2e;
        assert(has_dot == has_dot_b);
        let p3 = if has_dot {
            skip_class(t1, p2 + 1, ByteClass::Digit)
        } else {
            p2
        };
        let p3b = if has_dot_b {
            skip_class(t2, p2b + 1, ByteClass::Digit)
        } else {
            p2b
        };
        assert(p3b == p3 + k);
        if p3 < t1.len() {
            assert(t2[p3 + k] == t1[p3]);
        }
        if p3 + 1 < t1.len() {
            assert(t2[p3 + 1 + k] == t1[p3 + 1]);
        }
        if p3 + 2 <= t1.len() {
            lemma_skip_class_shift(t1, t2, k, p3 + 2, ByteClass::Digit);
        }
        if p3 + 1 <= t1.len() {
            lemma_skip_class_shift(t1, t2, k, p3 + 1, ByteClass::Digit);
        }
    }
}

pub proof fn lemma_number_scan_shift(t1: Seq<u8>, t2: Seq<u8>, k: int, q: int)
    requires
        spaces_before(t1, t2, k),
        0 <= q < t1.len(),
    ensures
        number_scan(t2, q + k).ok == number_scan(t1, q).ok,
        number_scan(t2, q + k).end == number_scan(t1, q).end + k,
        q <= number_scan(t1, q).end <= t1.len(),
        number_scan(t1, q).ok ==> scan_value(t2, number_scan(t2, q + k)) == scan_value(
            t1,
            number_scan(t1, q),
        ),
{
    lemma_number_scan_bounds(t1, q);
    lemma_number_scan_shape_shift(t1, t2, k, q);
    let sc = number_scan(t1, q);
    let sc2 = number_scan(t2, q + k);
    if sc.ok {
        lemma_number_scan_digits(t1, q);
        assert(t2.subrange(sc2.int_start, sc2.int_end) =~= t1.subrange(sc.int_start, sc.int_end));
        assert(t2.subrange(sc2.frac_start, sc2.frac_end) =~= t1.subrange(
            sc.frac_start,
            sc.frac_end,
        ));
        if sc.has_exp {
            lemma_number_scan_exp_bounds(t1, q);
            assert(t2.subrange(sc2.exp_start, sc2.exp_end) =~= t1.subrange(
                sc.exp_start,
                sc.exp_end,
            ));
        }
    }
}

proof fn lemma_number_scan_exp_bounds(t1: Seq<u8>, q: int)
    requires
        0 <= q < t1.len(),
        number_scan(t1, q).ok,
        number_scan(t1, q).has_exp,
    ensures
        q <= number_scan(t1, q).exp_start <= number_scan(t1, q).exp_end <= t1.len(),
{
    lemma_number_scan_digits(t1, q);
    let sc = number_scan(t1, q);
    let p3 = sc.frac_end;
    if p3 + 2 <= t1.len() {
        lemma_skip_class(t1, p3 + 2, ByteClass::Digit);
    }
    if p3 + 1 <= t1.len() {
        lemma_skip_class(t1, p3 + 1, ByteClass::Digit);
    }
}

pub proof fn lemma_parse_number_shift(t1: Seq<u8>, t2: Seq<u8>, k: int, p: int)
    requires
        spaces_before(t1, t2, k),
        0 <= p <= t1.len(),
    ensures
        parse_number_spec(t2, p + k) == (
            shift_result(parse_number_spec(t1, p).0, k),
            parse_number_spec(t1, p).1 + k,
        ),
        p <= parse_number_spec(t1, p).1 <= t1.len(),
{
    lemma_skip_class_shift(t1, t2, k, p, ByteClass::Space);
    let q = skip_spaces_from(t1, p);
    lemma_char_pos_shift(t1, t2, k, q);
    if q < t1.len() {
        lemma_number_scan_shift(t1, t2, k, q);
    }
}

pub proof fn lemma_list_separator_shift(t1: Seq<u8>, t2: Seq<u8>, k: int, p: int)
    requires
        spaces_before(t1, t2, k),
        0 <= p <= t1.len(),
    ensures
        list_separator_end(t2, skip_spaces_from(t2, p + k)) == list_separator_end(
            t1,
            skip_spaces_from(t1, p),
        ) + k,
        p <= list_separator_end(t1, skip_spaces_from(t1, p)) <= t1.len(),
{
    lemma_skip_class_shift(t1, t2, k, p, ByteClass::Space);
    let q = skip_spaces_from(t1, p);
    if q < t1.len() {
        assert(t2[q + k] == t1[q]);
    }
}

pub proof fn lemma_parse_list_number_shift(t1: Seq<u8>, t2: Seq<u8>, k: int, p: int)
    requires
        spaces_before(t1, t2, k),
        0 <= p <= t1.len(),
    ensures
        parse_list_number_spec(t2, p + k) == (
            shift_result(parse_list_number_spec(t1, p).0, k),
            parse_list_number_spec(t1, p).1 + k,
        ),
        p <= parse_list_number_spec(t1, p).1 <= t1.len(),
{
    if p < t1.len() {
        lemma_parse_number_shift(t1, t2, k, p);
        lemma_list_separator_shift(t1, t2, k, parse_number_spec(t1, p).1);
    }
}

pub proof fn lemma_parse_number_or_percent_shift(t1: Seq<u8>, t2: Seq<u8>, k: int, p: int)
    requires
        spaces_before(t1, t2, k),
        0 <= p <= t1.len(),
    ensures
        parse_number_or_percent_spec(t2, p + k) == (
            shift_result(parse_number_or_percent_spec(t1, p).0, k),
            parse_number_or_percent_spec(t1, p).1 + k,
        ),
        p <= parse_number_or_percent_spec(t1, p).1 <= t1.len(),
{
    lemma_skip_class_shift(t1, t2, k, p, ByteClass::Space);
    let q0 = skip_spaces_from(t1, p);
    lemma_parse_number_shift(t1, t2, k, q0);
    let q = parse_number_spec(t1, q0).1;
    if q < t1.len() {
        assert(t2[q + k] == t1[q]);
    }
}

pub proof fn lemma_parse_list_number_or_percent_shift(t1: Seq<u8>, t2: Seq<u8>, k: int, p: int)
    requires
        spaces_before(t1, t2, k),
        0 <= p <= t1.len(),
    ensures
        parse_list_number_or_percent_spec(t2, p + k) == (
            shift_result(parse_list_number_or_percent_spec(t1, p).0, k),
            parse_list_number_or_percent_spec(t1, p).1 + k,
        ),
        p <= parse_list_number_or_percent_spec(t1, p).1 <= t1.len(),
{
    if p < t1.len() {
        lemma_parse_number_or_percent_shift(t1, t2, k, p);
        lemma_list_separator_shift(t1, t2, k, parse_number_or_percent_spec(t1, p).1);
    }
}

pub proof fn lemma_ident_at_shift(t1: Seq<u8>, t2: Seq<u8>, k: int, p: int)
    requires
        spaces_before(t1, t2, k),
        0 <= p <= t1.len(),
    ensures
        ident_at(t2, p + k) == (ident_at(t1, p).0, ident_at(t1, p).1 + k),
        p <= ident_at(t1, p).1 <= t1.len(),
{
    lemma_skip_class_shift(t1, t2, k, p, ByteClass::Ident);
    let end = skip_class(t1, p, ByteClass::Ident);
    assert(t2.subrange(p + k, end + k) =~= t1.subrange(p, end));
}

pub proof fn lemma_parse_hex_shift(t1: Seq<u8>, t2: Seq<u8>, k: int, p: int)
    requires
        spaces_before(t1, t2, k),
        0 <= p <= t1.len(),
    ensures
        parse_hex_spec(t2, p + k) == (
            shift_result(parse_hex_spec(t1, p).0, k),
            parse_hex_spec(t1, p).1 + k,
        ),
        p <= parse_hex_spec(t1, p).1 <= t1.len(),
{
    lemma_skip_class_shift(t1, t2, k, p, ByteClass::HexDigit);
    let end = skip_class(t1, p, ByteClass::HexDigit);
    assert forall|i: int| p <= i < end implies t2[i + k] == t1[i] by {}
}

pub proof fn lemma_alpha_and_close_shift(t1: Seq<u8>, t2: Seq<u8>, k: int, p: int)
    requires
        spaces_before(t1, t2, k),
        0 <= p <= t1.len(),
    ensures
        alpha_and_close_spec(t2, p + k) == (
            shift_result(alpha_and_close_spec(t1, p).0, k),
            alpha_and_close_spec(t1, p).1 + k,
        ),
        p <= alpha_and_close_spec(t1, p).1 <= t1.len(),
{
    lemma_skip_class_shift(t1, t2, k, p, ByteClass::Space);
    let q = skip_spaces_from(t1, p);
    if q < t1.len() {
        assert(t2[q + k] == t1[q]);
    }
    lemma_parse_list_number_shift(t1, t2, k, q);
    let q2 = if 0 <= q < t1.len() && t1[q] == 0x29 {
        q
    } else {
        parse_list_number_spec(t1, q).1
    };
    lemma_skip_class_shift(t1, t2, k, q2, ByteClass::Space);
    lemma_consume_byte_shift(t1, t2, k, skip_spaces_from(t1, q2), 0x29);
}

pub proof fn lemma_rgb_rest_shift(t1: Seq<u8>, t2: Seq<u8>, k: int, p: int, red: u8, percent: bool)
    requires
        spaces_before(t1, t2, k),
        0 <= p <= t1.len(),
    ensures
        rgb_rest_spec(t2, p + k, red, percent) == (
            shift_result(rgb_rest_spec(t1, p, red, percent).0, k),
            rgb_rest_spec(t1, p, red, percent).1 + k,
        ),
        p <= rgb_rest_spec(t1, p, red, percent).1 <= t1.len(),
{
    if percent {
        lemma_parse_list_number_or_percent_shift(t1, t2, k, p);
        let p1 = parse_list_number_or_percent_spec(t1, p).1;
        lemma_parse_list_number_or_percent_shift(t1, t2, k, p1);
        let p2 = parse_list_number_or_percent_spec(t1, p1).1;
        lemma_alpha_and_close_shift(t1, t2, k, p2);
    } else {
        lemma_parse_list_number_shift(t1, t2, k, p);
        let p1 = parse_list_number_spec(t1, p).1;
        lemma_parse_list_number_shift(t1, t2, k, p1);
        let p2 = parse_list_number_spec(t1, p1).1;
        lemma_alpha_and_close_shift(t1, t2, k, p2);
    }
}

#[verifier::rlimit(50)]
pub proof fn lemma_rgb_args_shift(t1: Seq<u8>, t2: Seq<u8>, k: int, p: int)
    requires
        spaces_before(t1, t2, k),
        0 <= p <= t1.len(),
    ensures
        rgb_args_spec(t2, p + k) == (
            shift_result(rgb_args_spec(t1, p).0, k),
            rgb_args_spec(t1, p).1 + k,
        ),
        p <= rgb_args_spec(t1, p).1 <= t1.len(),
{
    reveal(rgb_args_spec);
    lemma_consume_byte_shift(t1, t2, k, p, 0x28);
    let p1 = consume_byte_result(t1, p, 0x28).1;
    lemma_parse_number_shift(t1, t2, k, p1);
    let p2 = parse_number_spec(t1, p1).1;
    if p2 < t1.len() {
        assert(t2[p2 + k] == t1[p2]);
    }
    let percent = 0 <= p2 < t1.len() && t1[p2] == 0x25;
    let p3 = if percent {
        p2 + 1
    } else {
        p2
    };
    lemma_list_separator_shift(t1, t2, k, p3);
    let p4 = list_separator_end(t1, skip_spaces_from(t1, p3));
    if let Ok(v) = parse_number_spec(t1, p1).0 {
        let red = if percent {
            crate::arith::scaled_channel(v, 255, 100) as u8
        } else {
            crate::arith::scaled_channel(v, 1, 1) as u8
        };
        lemma_rgb_rest_shift(t1, t2, k, p4, red, percent);
    }
}

pub proof fn lemma_hsl_args_shift(t1: Seq<u8>, t2: Seq<u8>, k: int, p: int)
    requires
        spaces_before(t1, t2, k),
        0 <= p <= t1.len(),
    ensures
        hsl_args_spec(t2, p + k) == (
            shift_result(hsl_args_spec(t1, p).0, k),
            hsl_args_spec(t1, p).1 + k,
        ),
        p <= hsl_args_spec(t1, p).1 <= t1.len(),
{
    reveal(hsl_args_spec);
    lemma_consume_byte_shift(t1, t2, k, p, 0x28);
    let p1 = consume_byte_result(t1, p, 0x28).1;
    lemma_parse_list_number_shift(t1, t2, k, p1);
    let p2 = parse_list_number_spec(t1, p1).1;
    lemma_parse_list_number_or_percent_shift(t1, t2, k, p2);
    let p3 = parse_list_number_or_percent_spec(t1, p2).1;
    lemma_parse_list_number_or_percent_shift(t1, t2, k, p3);
    let p4 = parse_list_number_or_percent_spec(t1, p3).1;
    lemma_alpha_and_close_shift(t1, t2, k, p4);
}

pub proof fn lemma_try_hue_interpolation_shift(t1: Seq<u8>, t2: Seq<u8>, k: int, p: int)
    requires
        spaces_before(t1, t2, k),
        0 <= p <= t1.len(),
    ensures
        try_hue_interpolation_spec(t2, p + k) == (
            shift_result(try_hue_interpolation_spec(t1, p).0, k),
            try_hue_interpolation_spec(t1, p).1 + k,
        ),
        p <= try_hue_interpolation_spec(t1, p).1 <= t1.len(),
{
    lemma_ident_at_shift(t1, t2, k, p);
    let e1 = ident_at(t1, p).1;
    lemma_skip_class_shift(t1, t2, k, e1, ByteClass::Space);
    lemma_ident_at_shift(t1, t2, k, skip_spaces_from(t1, e1));
}

pub proof fn lemma_parse_interpolation_shift(t1: Seq<u8>, t2: Seq<u8>, k: int, p: int)
    requires
        spaces_before(t1, t2, k),
        0 <= p <= t1.len(),
    ensures
        parse_interpolation_spec(t2, p + k) == (
            shift_result(parse_interpolation_spec(t1, p).0, k),
            parse_interpolation_spec(t1, p).1 + k,
        ),
        p <= parse_interpolation_spec(t1, p).1 <= t1.len(),
{
    lemma_ident_at_shift(t1, t2, k, p);
    let e1 = ident_at(t1, p).1;
    lemma_skip_class_shift(t1, t2, k, e1, ByteClass::Space);
    let s1 = skip_spaces_from(t1, e1);
    lemma_ident_at_shift(t1, t2, k, s1);
    assert(parse_color_space_spec(t2, s1 + k).1 == parse_color_space_spec(t1, s1).1 + k);
    let e2 = parse_color_space_spec(t1, s1).1;
    lemma_skip_class_shift(t1, t2, k, e2, ByteClass::Space);
    let q = skip_spaces_from(t1, e2);
    if q < t1.len() {
        assert(t2[q + k] == t1[q]);
    }
    lemma_try_hue_interpolation_shift(t1, t2, k, q);
}

pub proof fn lemma_try_percentage_shift(t1: Seq<u8>, t2: Seq<u8>, k: int, p: int)
    requires
        spaces_before(t1, t2, k),
        0 <= p <= t1.len(),
    ensures
        try_percentage_spec(t2, p + k) == (
            shift_result(try_percentage_spec(t1, p).0, k),
            try_percentage_spec(t1, p).1 + k,
        ),
        p <= try_percentage_spec(t1, p).1 <= t1.len(),
{
    lemma_skip_class_shift(t1, t2, k, p, ByteClass::Space);
    let q = skip_spaces_from(t1, p);
    if q < t1.len() {
        assert(t2[q + k] == t1[q]);
        lemma_parse_number_shift(t1, t2, k, q);
        let q1 = parse_number_spec(t1, q).1;
        lemma_skip_class_shift(t1, t2, k, q1, ByteClass::Space);
        let q2 = skip_spaces_from(t1, q1);
        if q2 < t1.len() {
            assert(t2[q2 + k] == t1[q2]);
        }
    }
}

#[verifier::rlimit(50)]
pub proof fn lemma_parse_color_shift(
    t1: Seq<u8>,
    t2: Seq<u8>,
    a: Seq<Color>,
    k: int,
    p: int,
    u: int,
)
    requires
        spaces_before(t1, t2, k),
        0 <= p <= t1.len(),
    ensures
        parse_color_spec(t2, a, p + k, u) == (
            shift_result(parse_color_spec(t1, a, p, u).0, k),
            parse_color_spec(t1, a, p, u).1 + k,
            parse_color_spec(t1, a, p, u).2,
        ),
        p <= parse_color_spec(t1, a, p, u).1 <= t1.len(),
    decreases t1.len() - p, 2int,
{
    lemma_skip_class_shift(t1, t2, k, p, ByteClass::Space);
    let q = skip_spaces_from(t1, p);
    let r = parse_color_spec(t1, a, p, u);
    if q < t1.len() {
        assert(t2[q + k] == t1[q]);
        if t1[q] == 0x23 {
            lemma_parse_hex_shift(t1, t2, k, q + 1);
            let h = parse_hex_spec(t1, q + 1);
            assert(r == (h.0, h.1, u));
            assert(parse_color_spec(t2, a, p + k, u) == (shift_result(h.0, k), h.1 + k, u));
        } else {
            lemma_ident_at_shift(t1, t2, k, q);
            let (name, end) = ident_at(t1, q);
            if name == kw_rgb() || name == kw_rgba() {
                lemma_rgb_args_shift(t1, t2, k, end);
                let g = rgb_args_spec(t1, end);
                assert(r == (g.0, g.1, u));
                assert(parse_color_spec(t2, a, p + k, u) == (shift_result(g.0, k), g.1 + k, u));
            } else if name == kw_hsl() || name == kw_hsla() {
                lemma_hsl_args_shift(t1, t2, k, end);
                let g = hsl_args_spec(t1, end);
                assert(r == (g.0, g.1, u));
                assert(parse_color_spec(t2, a, p + k, u) == (shift_result(g.0, k), g.1 + k, u));
            } else if name == kw_color_mix() {
                if p < end <= t1.len() {
                    lemma_color_mix_shift(t1, t2, a, k, end, u);
                    assert(r == color_mix_spec(t1, a, end, u));
                    assert(parse_color_spec(t2, a, p + k, u) == color_mix_spec(
                        t2,
                        a,
                        end + k,
                        u,
                    ));
                } else {
                    assert(r == (Err::<Color, Error>(Error::InvalidValue), end, u));
                }
            } else {
                assert(parse_color_spec(t2, a, p + k, u) == (
                    shift_result(r.0, k),
                    r.1 + k,
                    r.2,
                ));
            }
        }
    }
}

pub proof fn lemma_color_mix_shift(t1: Seq<u8>, t2: Seq<u8>, a: Seq<Color>, k: int, p: int, u: int)
    requires
        spaces_before(t1, t2, k),
        0 <= p <= t1.len(),
    ensures
        color_mix_spec(t2, a, p + k, u) == (
            shift_result(color_mix_spec(t1, a, p, u).0, k),
            color_mix_spec(t1, a, p, u).1 + k,
            color_mix_spec(t1, a, p, u).2,
        ),
        p <= color_mix_spec(t1, a, p, u).1 <= t1.len(),
    decreases t1.len() - p, 1int,
{
    lemma_consume_byte_shift(t1, t2, k, p, 0x28);
    let p1 = consume_byte_result(t1, p, 0x28).1;
    lemma_skip_class_shift(t1, t2, k, p1, ByteClass::Space);
    lemma_parse_interpolation_shift(t1, t2, k, skip_spaces_from(t1, p1));
    let p2 = parse_interpolation_spec(t1, skip_spaces_from(t1, p1)).1;
    lemma_skip_class_shift(t1, t2, k, p2, ByteClass::Space);
    lemma_consume_byte_shift(t1, t2, k, skip_spaces_from(t1, p2), 0x2c);
    let p3 = consume_byte_result(t1, skip_spaces_from(t1, p2), 0x2c).1;
    lemma_skip_class_shift(t1, t2, k, p3, ByteClass::Space);
    let p4 = skip_spaces_from(t1, p3);
    if p < p4 <= t1.len() {
        lemma_parse_color_shift(t1, t2, a, k, p4, u);
        let (r1, p5, u1) = parse_color_spec(t1, a, p4, u);
        let rm = parse_interpolation_spec(t1, skip_spaces_from(t1, p1)).0;
        if r1 is Ok && rm is Ok {
            lemma_mix_tail_shift(t1, t2, a, k, p5, u1, rm->Ok_0, r1->Ok_0, p);
        }
    }
}

#[verifier::spinoff_prover]
#[verifier::rlimit(100)]
pub proof fn lemma_mix_tail_shift(
    t1: Seq<u8>,
    t2: Seq<u8>,
    a: Seq<Color>,
    k: int,
    p: int,
    u: int,
    method: (ColorSpace, HueInterpolation),
    c1: Color,
    start: int,
)
    requires
        spaces_before(t1, t2, k),
        0 <= start <= p <= t1.len(),
    ensures
        mix_tail_spec(t2, a, p + k, u, method, c1, start + k) == (
            shift_result(mix_tail_spec(t1, a, p, u, method, c1, start).0, k),
            mix_tail_spec(t1, a, p, u, method, c1, start).1 + k,
            mix_tail_spec(t1, a, p, u, method, c1, start).2,
        ),
        p <= mix_tail_spec(t1, a, p, u, method, c1, start).1 <= t1.len(),
    decreases t1.len() - start, 0int,
{
    let r = mix_tail_spec(t1, a, p, u, method, c1, start);
    let r2t = mix_tail_spec(t2, a, p + k, u, method, c1, start + k);
    lemma_skip_class_shift(t1, t2, k, p, ByteClass::Space);
    lemma_try_percentage_shift(t1, t2, k, skip_spaces_from(t1, p));
    let (rp1, p1) = try_percentage_spec(t1, skip_spaces_from(t1, p));
    lemma_skip_class_shift(t1, t2, k, p1, ByteClass::Space);
    lemma_consume_byte_shift(t1, t2, k, skip_spaces_from(t1, p1), 0x2c);
    let (rc, p2) = consume_byte_result(t1, skip_spaces_from(t1, p1), 0x2c);
    lemma_skip_class_shift(t1, t2, k, p2, ByteClass::Space);
    let p3 = skip_spaces_from(t1, p2);
    if rp1 is Ok && rc is Ok && start < p3 <= t1.len() {
        let pct1 = rp1->Ok_0;
        lemma_parse_color_shift(t1, t2, a, k, p3, u);
        let (r2, p4, u2) = parse_color_spec(t1, a, p3, u);
        if r2 is Ok {
            let c2 = r2->Ok_0;
            lemma_mix_end_shift(t1, t2, a, k, p4, u2, method, c1, pct1, c2);
            assert(r == mix_end_spec(t1, a, p4, u2, method, c1, pct1, c2));
            assert(r2t == mix_end_spec(t2, a, p4 + k, u2, method, c1, pct1, c2));
        } else {
            assert(r == (r2, p4, u2));
            assert(r2t == (shift_result(r2, k), p4 + k, u2));
        }
    } else {
        lemma_mix_tail_shift_fail(t1, t2, a, k, p, u, method, c1, start);
    }
}

/// The cases where the tail of a `color-mix()` fails before its second color.
proof fn lemma_mix_tail_shift_fail(
    t1: Seq<u8>,
    t2: Seq<u8>,
    a: Seq<Color>,
    k: int,
    p: int,
    u: int,
    method: (ColorSpace, HueInterpolation),
    c1: Color,
    start: int,
)
    requires
        spaces_before(t1, t2, k),
        0 <= start <= p <= t1.len(),
        ({
            let (rp1, p1) = try_percentage_spec(t1, skip_spaces_from(t1, p));
            let (rc, p2) = consume_byte_result(t1, skip_spaces_from(t1, p1), 0x2c);
            !(rp1 is Ok && rc is Ok && start < skip_spaces_from(t1, p2) <= t1.len())
        }),
    ensures
        mix_tail_spec(t2, a, p + k, u, method, c1, start + k) == (
            shift_result(mix_tail_spec(t1, a, p, u, method, c1, start).0, k),
            mix_tail_spec(t1, a, p, u, method, c1, start).1 + k,
            mix_tail_spec(t1, a, p, u, method, c1, start).2,
        ),
        p <= mix_tail_spec(t1, a, p, u, method, c1, start).1 <= t1.len(),
{
    lemma_skip_class_shift(t1, t2, k, p, ByteClass::Space);
    lemma_try_percentage_shift(t1, t2, k, skip_spaces_from(t1, p));
    let (rp1, p1) = try_percentage_spec(t1, skip_spaces_from(t1, p));
    lemma_skip_class_shift(t1, t2, k, p1, ByteClass::Space);
    lemma_consume_byte_shift(t1, t2, k, skip_spaces_from(t1, p1), 0x2c);
    let (rc, p2) = consume_byte_result(t1, skip_spaces_from(t1, p1), 0x2c);
    lemma_skip_class_shift(t1, t2, k, p2, ByteClass::Space);
}

proof fn lemma_mix_end_shift(
    t1: Seq<u8>,
    t2: Seq<u8>,
    a: Seq<Color>,
    k: int,
    p: int,
    u: int,
    method: (ColorSpace, HueInterpolation),
    c1: Color,
    pct1: Option<u64>,
    c2: Color,
)
    requires
        spaces_before(t1, t2, k),
        0 <= p <= t1.len(),
    ensures
        mix_end_spec(t2, a, p + k, u, method, c1, pct1, c2) == (
            shift_result(mix_end_spec(t1, a, p, u, method, c1, pct1, c2).0, k),
            mix_end_spec(t1, a, p, u, method, c1, pct1, c2).1 + k,
            mix_end_spec(t1, a, p, u, method, c1, pct1, c2).2,
        ),
        p <= mix_end_spec(t1, a, p, u, method, c1, pct1, c2).1 <= t1.len(),
{
    lemma_skip_class_shift(t1, t2, k, p, ByteClass::Space);
    lemma_try_percentage_shift(t1, t2, k, skip_spaces_from(t1, p));
    let p5 = try_percentage_spec(t1, skip_spaces_from(t1, p)).1;
    lemma_skip_class_shift(t1, t2, k, p5, ByteClass::Space);
    lemma_consume_byte_shift(t1, t2, k, skip_spaces_from(t1, p5), 0x29);
}

proof fn lemma_skip_spaces_over(t: Seq<u8>, p: int)
    requires
        0 <= p <= t.len(),
        forall|i: int| 0 <= i < p ==> is_space(#[trigger] t[i]),
    ensures
        skip_spaces_from(t, 0) == skip_spaces_from(t, p),
    decreases p,
{
    if p > 0 {
        assert(is_space(t[p - 1]));
        lemma_skip_spaces_over(t, p - 1);
        assert(skip_class(t, p - 1, ByteClass::Space) == skip_class(t, p, ByteClass::Space));
    }
}

/// Reading a color from the start of a text or from the end of the
/// whitespace that begins it is the same.
#[verifier::spinoff_prover]
#[verifier::rlimit(100)]
proof fn lemma_parse_color_after_spaces(t: Seq<u8>, a: Seq<Color>, p: int, u: int)
    requires
        0 <= p <= t.len(),
        forall|i: int| 0 <= i < p ==> is_space(#[trigger] t[i]),
    ensures
        parse_color_spec(t, a, 0, u) == parse_color_spec(t, a, p, u),
{
    lemma_skip_spaces_over(t, p);
    lemma_skip_class(t, p, ByteClass::Space);
    let q = skip_spaces_from(t, p);
    if q < t.len() && t[q] != 0x23 {
        let (name, e) = ident_at(t, q);
        lemma_skip_class(t, q, ByteClass::Ident);
        if !(name == kw_rgb() || name == kw_rgba()) && !(name == kw_hsl() || name == kw_hsla())
            && name == kw_color_mix() {
            assert(kw_color_mix().len() == 9);
            assert(name.len() == e - q);
            assert(0 < e && p < e);
            assert(parse_color_spec(t, a, 0, u) == color_mix_spec(t, a, e, u));
            assert(parse_color_spec(t, a, p, u) == color_mix_spec(t, a, e, u));
        }
    }
}

/// Whitespace before a color changes nothing but the positions that errors
/// report, which move by the length of the whitespace.
pub proof fn lemma_leading_whitespace(w: Seq<u8>, t: Seq<u8>, mixes: Seq<Color>)
    requires
        forall|i: int| 0 <= i < w.len() ==> is_space(#[trigger] w[i]),
        w.len() + t.len() < usize::MAX,
    ensures
        color_from_text(w + t, mixes) == shift_result(color_from_text(t, mixes), w.len() as int),
{
    let t2 = w + t;
    let k = w.len() as int;
    assert forall|i: int| 0 <= i < k implies is_space(#[trigger] t2[i]) by {
        assert(t2[i] == w[i]);
    }
    assert forall|i: int| 0 <= i < t.len() implies t2[i + k] == #[trigger] t[i] by {}
    assert(spaces_before(t, t2, k));
    lemma_parse_color_after_spaces(t2, mixes, k, 0);
    lemma_parse_color_shift(t, t2, mixes, k, 0, 0);
    let (r, pe, ue) = parse_color_spec(t, mixes, 0, 0);
    lemma_skip_class_shift(t, t2, k, pe, ByteClass::Space);
    let q = skip_spaces_from(t, pe);
    lemma_char_pos_shift(t, t2, k, q);
}

// ---------------------------------------------------------------------------
// Whitespace after the text
// ---------------------------------------------------------------------------

/// `t2` is `t1` followed by whitespace.
pub open spec fn spaces_after(t1: Seq<u8>, t2: Seq<u8>) -> bool {
    &&& t1.len() <= t2.len()
    &&& forall|i: int| #![trigger t1[i]] #![trigger t2[i]] 0 <= i < t1.len() ==> t2[i] == t1[i]
    &&& forall|i: int| t1.len() <= i < t2.len() ==> is_space(#[trigger] t2[i])
}

proof fn lemma_ext_skip_class(t1: Seq<u8>, t2: Seq<u8>, p: int, c: ByteClass)
    requires
        spaces_after(t1, t2),
        0 <= p <= t1.len(),
        c != ByteClass::Space,
    ensures
        skip_class(t2, p, c) == skip_class(t1, p, c),
        p <= skip_class(t1, p, c) <= t1.len(),
    decreases t1.len() - p,
{
    lemma_skip_class(t1, p, c);
    if p < t1.len() {
        assert(t2[p] == t1[p]);
        lemma_ext_skip_class(t1, t2, p + 1, c);
    } else if p < t2.len() {
        assert(is_space(t2[p]));
    }
}

proof fn lemma_ext_skip_spaces(t1: Seq<u8>, t2: Seq<u8>, p: int)
    requires
        spaces_after(t1, t2),
        0 <= p <= t1.len(),
    ensures
        p <= skip_spaces_from(t1, p) <= t1.len(),
        skip_spaces_from(t1, p) < t1.len() ==> skip_spaces_from(t2, p) == skip_spaces_from(t1, p),
        skip_spaces_from(t1, p) == t1.len() ==> skip_spaces_from(t2, p) == t2.len(),
    decreases t1.len() - p,
{
    lemma_skip_class(t1, p, ByteClass::Space);
    if p < t1.len() {
        assert(t2[p] == t1[p]);
        lemma_ext_skip_spaces(t1, t2, p + 1);
    } else {
        lemma_skip_run_spaces(t2, p);
    }
}

proof fn lemma_skip_run_spaces(t2: Seq<u8>, p: int)
    requires
        0 <= p <= t2.len(),
        forall|i: int| p <= i < t2.len() ==> is_space(#[trigger] t2[i]),
    ensures
        skip_spaces_from(t2, p) == t2.len(),
    decreases t2.len() - p,
{
    if p < t2.len() {
        assert(is_space(t2[p]));
        lemma_skip_run_spaces(t2, p + 1);
    }
}

proof fn lemma_ext_char_count(t1: Seq<u8>, t2: Seq<u8>, p: int)
    requires
        spaces_after(t1, t2),
        0 <= p <= t1.len(),
    ensures
        char_count(t2, p) == char_count(t1, p),
    decreases p,
{
    if p > 0 {
        assert(t2[p - 1] == t1[p - 1]);
        lemma_ext_char_count(t1, t2, p - 1);
    }
}

proof fn lemma_ext_consume_byte(t1: Seq<u8>, t2: Seq<u8>, p: int, c: u8)
    requires
        spaces_after(t1, t2),
        0 <= p <= t1.len(),
        consume_byte_result(t1, p, c).0 is Ok,
    ensures
        consume_byte_result(t2, p, c) == consume_byte_result(t1, p, c),
        p < t1.len(),
{
    assert(t2[p] == t1[p]);
}

proof fn lemma_ext_number_scan(t1: Seq<u8>, t2: Seq<u8>, q: int)
    requires
        spaces_after(t1, t2),
        0 <= q < t1.len(),
        number_scan(t1, q).ok || (number_scan(t1, q).end < t1.len() && t1[number_scan(
            t1,
            q,
        ).end] != 0x65 && t1[number_scan(t1, q).end] != 0x45),
    ensures
        number_scan(t2, q) == number_scan(t1, q),
        number_scan(t1, q).ok ==> scan_value(t2, number_scan(t2, q)) == scan_value(
            t1,
            number_scan(t1, q),
        ),
{
    lemma_number_scan_bounds(t1, q);
    assert(t2[q] == t1[q]);
    let p1 = if is_sign(t1[q]) {
        q + 1
    } else {
        q
    };
    if p1 < t1.len() {
        assert(t2[p1] == t1[p1]);
        lemma_ext_skip_class(t1, t2, p1, ByteClass::Digit);
        let p2 = if is_digit(t1[p1]) {
            skip_class(t1, p1, ByteClass::Digit)
        } else {
            p1
        };
        if p2 < t1.len() {
            assert(t2[p2] == t1[p2]);
            lemma_ext_skip_class(t1, t2, p2 + 1, ByteClass::Digit);
        } else if p2 < t2.len() {
            assert(is_space(t2[p2]));
        }
        let has_dot = p2 < t1.len() && t1[p2] == 0x2e;
        let p3 = if has_dot {
            skip_class(t1, p2 + 1, ByteClass::Digit)
        } else {
            p2
        };
        if p3 < t1.len() {
            assert(t2[p3] == t1[p3]);
        } else if p3 < t2.len() {
            assert(is_space(t2[p3]));
        }
        if p3 + 1 < t1.len() {
            assert(t2[p3 + 1] == t1[p3 + 1]);
        } else if p3 + 1 < t2.len() {
            assert(is_space(t2[p3 + 1]));
        }
        if p3 + 2 <= t1.len() {
            lemma_ext_skip_class(t1, t2, p3 + 2, ByteClass::Digit);
        }
        if p3 + 1 <= t1.len() {
            lemma_ext_skip_class(t1, t2, p3 + 1, ByteClass::Digit);
        }
        let sc = number_scan(t1, q);
        if sc.ok {
            lemma_number_scan_digits(t1, q);
            assert(t2.subrange(sc.int_start, sc.int_end) =~= t1.subrange(sc.int_start, sc.int_end));
            assert(t2.subrange(sc.frac_start, sc.frac_end) =~= t1.subrange(
                sc.frac_start,
                sc.frac_end,
            ));
            if sc.has_exp {
                lemma_number_scan_exp_bounds(t1, q);
                assert(t2.subrange(sc.exp_start, sc.exp_end) =~= t1.subrange(
                    sc.exp_start,
                    sc.exp_end,
                ));
            }
        }
    } else if p1 < t2.len() {
        assert(is_space(t2[p1]));
    }
}

proof fn lemma_ext_parse_number(t1: Seq<u8>, t2: Seq<u8>, p: int)
    requires
        spaces_after(t1, t2),
        0 <= p <= t1.len(),
        parse_number_spec(t1, p).0 is Ok || (parse_number_spec(t1, p).1 < t1.len() && t1[parse_number_spec(
            t1,
            p,
        ).1] != 0x65 && t1[parse_number_spec(t1, p).1] != 0x45),
    ensures
        parse_number_spec(t2, p) == parse_number_spec(t1, p),
        p <= parse_number_spec(t1, p).1 <= t1.len(),
{
    lemma_ext_skip_spaces(t1, t2, p);
    let q = skip_spaces_from(t1, p);
    if q < t1.len() {
        lemma_number_scan_bounds(t1, q);
        lemma_ext_number_scan(t1, t2, q);
        lemma_ext_char_count(t1, t2, q);
    }
}

/// At the end of the text, a number cannot be read.
proof fn lemma_number_at_end(t: Seq<u8>, p: int)
    requires
        p >= t.len(),
    ensures
        parse_number_spec(t, p).0 is Err,
        parse_list_number_spec(t, p).0 is Err,
        parse_list_number_or_percent_spec(t, p).0 is Err,
        parse_number_or_percent_spec(t, p).0 is Err,
        alpha_and_close_spec(t, p).0 is Err,
{
}

proof fn lemma_ext_parse_list_number(t1: Seq<u8>, t2: Seq<u8>, p: int)
    requires
        spaces_after(t1, t2),
        0 <= p <= t1.len(),
        parse_list_number_spec(t1, p).0 is Ok,
        parse_list_number_spec(t1, p).1 < t1.len(),
    ensures
        parse_list_number_spec(t2, p) == parse_list_number_spec(t1, p),
{
    lemma_ext_parse_number(t1, t2, p);
    let q = parse_number_spec(t1, p).1;
    lemma_ext_skip_spaces(t1, t2, q);
    let s = skip_spaces_from(t1, q);
    if s < t1.len() {
        assert(t2[s] == t1[s]);
    }
}

proof fn lemma_ext_parse_number_or_percent(t1: Seq<u8>, t2: Seq<u8>, p: int)
    requires
        spaces_after(t1, t2),
        0 <= p <= t1.len(),
        parse_number_or_percent_spec(t1, p).0 is Ok,
    ensures
        parse_number_or_percent_spec(t2, p) == parse_number_or_percent_spec(t1, p),
        p <= parse_number_or_percent_spec(t1, p).1 <= t1.len(),
{
    lemma_ext_skip_spaces(t1, t2, p);
    let s = skip_spaces_from(t1, p);
    if s == t1.len() {
        lemma_number_at_end(t1, s);
    }
    lemma_ext_parse_number(t1, t2, s);
    let q = parse_number_spec(t1, s).1;
    if q < t1.len() {
        assert(t2[q] == t1[q]);
    } else if q < t2.len() {
        assert(is_space(t2[q]));
    }
}

proof fn lemma_ext_parse_list_number_or_percent(t1: Seq<u8>, t2: Seq<u8>, p: int)
    requires
        spaces_after(t1, t2),
        0 <= p <= t1.len(),
        parse_list_number_or_percent_spec(t1, p).0 is Ok,
        parse_list_number_or_percent_spec(t1, p).1 < t1.len(),
    ensures
        parse_list_number_or_percent_spec(t2, p) == parse_list_number_or_percent_spec(t1, p),
{
    lemma_ext_parse_number_or_percent(t1, t2, p);
    let q = parse_number_or_percent_spec(t1, p).1;
    lemma_ext_skip_spaces(t1, t2, q);
    let s = skip_spaces_from(t1, q);
    if s < t1.len() {
        assert(t2[s] == t1[s]);
    }
}

proof fn lemma_ext_ident_at(t1: Seq<u8>, t2: Seq<u8>, p: int)
    requires
        spaces_after(t1, t2),
        0 <= p <= t1.len(),
    ensures
        ident_at(t2, p) == ident_at(t1, p),
        p <= ident_at(t1, p).1 <= t1.len(),
{
    lemma_ext_skip_class(t1, t2, p, ByteClass::Ident);
    let end = skip_class(t1, p, ByteClass::Ident);
    assert(t2.subrange(p, end) =~= t1.subrange(p, end));
}

proof fn lemma_ext_parse_hex(t1: Seq<u8>, t2: Seq<u8>, p: int)
    requires
        spaces_after(t1, t2),
        0 <= p <= t1.len(),
    ensures
        parse_hex_spec(t2, p) == parse_hex_spec(t1, p),
{
    lemma_ext_skip_class(t1, t2, p, ByteClass::HexDigit);
    let end = skip_class(t1, p, ByteClass::HexDigit);
    assert forall|i: int| p <= i < end implies t2[i] == t1[i] by {}
}

proof fn lemma_ext_alpha_and_close(t1: Seq<u8>, t2: Seq<u8>, p: int)
    requires
        spaces_after(t1, t2),
        0 <= p <= t1.len(),
        alpha_and_close_spec(t1, p).0 is Ok,
    ensures
        alpha_and_close_spec(t2, p) == alpha_and_close_spec(t1, p),
{
    lemma_ext_skip_spaces(t1, t2, p);
    let q = skip_spaces_from(t1, p);
    if q == t1.len() {
        lemma_number_at_end(t1, q);
    }
    assert(q < t1.len());
    assert(t2[q] == t1[q]);
    let q2 = if t1[q] == 0x29 {
        q
    } else {
        parse_list_number_spec(t1, q).1
    };
    if t1[q] != 0x29 {
        lemma_ext_parse_number(t1, t2, q);
        lemma_ext_skip_spaces(t1, t2, parse_number_spec(t1, q).1);
    }
    lemma_ext_skip_spaces(t1, t2, q2);
    lemma_ext_consume_byte(t1, t2, skip_spaces_from(t1, q2), 0x29);
    if t1[q] != 0x29 {
        lemma_ext_parse_list_number(t1, t2, q);
    }
}

proof fn lemma_ext_rgb_rest(t1: Seq<u8>, t2: Seq<u8>, p: int, red: u8, percent: bool)
    requires
        spaces_after(t1, t2),
        0 <= p <= t1.len(),
        rgb_rest_spec(t1, p, red, percent).0 is Ok,
    ensures
        rgb_rest_spec(t2, p, red, percent) == rgb_rest_spec(t1, p, red, percent),
{
    assert(same_from(t1, t1, 0));
    if percent {
        let p1 = parse_list_number_or_percent_spec(t1, p).1;
        let p2 = parse_list_number_or_percent_spec(t1, p1).1;
        lemma_parse_list_number_or_percent_from(t1, t1, 0, p);
        lemma_parse_list_number_or_percent_from(t1, t1, 0, p1);
        if p1 >= t1.len() {
            lemma_number_at_end(t1, p1);
        }
        if p2 >= t1.len() {
            lemma_number_at_end(t1, p2);
        }
        lemma_ext_parse_list_number_or_percent(t1, t2, p);
        lemma_ext_parse_list_number_or_percent(t1, t2, p1);
        lemma_ext_alpha_and_close(t1, t2, p2);
    } else {
        let p1 = parse_list_number_spec(t1, p).1;
        let p2 = parse_list_number_spec(t1, p1).1;
        lemma_parse_list_number_from(t1, t1, 0, p);
        lemma_parse_list_number_from(t1, t1, 0, p1);
        if p1 >= t1.len() {
            lemma_number_at_end(t1, p1);
        }
        if p2 >= t1.len() {
            lemma_number_at_end(t1, p2);
        }
        lemma_ext_parse_list_number(t1, t2, p);
        lemma_ext_parse_list_number(t1, t2, p1);
        lemma_ext_alpha_and_close(t1, t2, p2);
    }
}

proof fn lemma_ext_rgb_args(t1: Seq<u8>, t2: Seq<u8>, p: int)
    requires
        spaces_after(t1, t2),
        0 <= p <= t1.len(),
        rgb_args_spec(t1, p).0 is Ok,
    ensures
        rgb_args_spec(t2, p) == rgb_args_spec(t1, p),
{
    reveal(rgb_args_spec);
    assert(same_from(t1, t1, 0));
    lemma_ext_consume_byte(t1, t2, p, 0x28);
    let p1 = p + 1;
    lemma_ext_parse_number(t1, t2, p1);
    let p2 = parse_number_spec(t1, p1).1;
    if p2 < t1.len() {
        assert(t2[p2] == t1[p2]);
    } else if p2 < t2.len() {
        assert(is_space(t2[p2]));
    }
    let percent = 0 <= p2 < t1.len() && t1[p2] == 0x25;
    let p3 = if percent {
        p2 + 1
    } else {
        p2
    };
    lemma_ext_skip_spaces(t1, t2, p3);
    let s3 = skip_spaces_from(t1, p3);
    if s3 < t1.len() {
        assert(t2[s3] == t1[s3]);
    }
    let p4 = list_separator_end(t1, s3);
    let v = parse_number_spec(t1, p1).0->Ok_0;
    let red = if percent {
        crate::arith::scaled_channel(v, 255, 100) as u8
    } else {
        crate::arith::scaled_channel(v, 1, 1) as u8
    };
    lemma_rgb_rest_from(t1, t1, 0, p4, red, percent);
    if p4 >= t1.len() {
        lemma_number_at_end(t1, p4);
    }
    lemma_ext_rgb_rest(t1, t2, p4, red, percent);
}

proof fn lemma_ext_hsl_args(t1: Seq<u8>, t2: Seq<u8>, p: int)
    requires
        spaces_after(t1, t2),
        0 <= p <= t1.len(),
        hsl_args_spec(t1, p).0 is Ok,
    ensures
        hsl_args_spec(t2, p) == hsl_args_spec(t1, p),
{
    reveal(hsl_args_spec);
    assert(same_from(t1, t1, 0));
    lemma_ext_consume_byte(t1, t2, p, 0x28);
    let p1 = p + 1;
    let p2 = parse_list_number_spec(t1, p1).1;
    let p3 = parse_list_number_or_percent_spec(t1, p2).1;
    let p4 = parse_list_number_or_percent_spec(t1, p3).1;
    lemma_parse_list_number_from(t1, t1, 0, p1);
    lemma_parse_list_number_or_percent_from(t1, t1, 0, p2);
    lemma_parse_list_number_or_percent_from(t1, t1, 0, p3);
    if p2 >= t1.len() {
        lemma_number_at_end(t1, p2);
    }
    if p3 >= t1.len() {
        lemma_number_at_end(t1, p3);
    }
    if p4 >= t1.len() {
        lemma_number_at_end(t1, p4);
    }
    lemma_ext_parse_list_number(t1, t2, p1);
    lemma_ext_parse_list_number_or_percent(t1, t2, p2);
    lemma_ext_parse_list_number_or_percent(t1, t2, p3);
    lemma_ext_alpha_and_close(t1, t2, p4);
}

proof fn lemma_ext_try_hue_interpolation(t1: Seq<u8>, t2: Seq<u8>, p: int)
    requires
        spaces_after(t1, t2),
        0 <= p <= t1.len(),
        try_hue_interpolation_spec(t1, p).1 < t1.len(),
    ensures
        try_hue_interpolation_spec(t2, p) == try_hue_interpolation_spec(t1, p),
{
    lemma_ext_ident_at(t1, t2, p);
    let e1 = ident_at(t1, p).1;
    lemma_ext_skip_spaces(t1, t2, e1);
    let s1 = skip_spaces_from(t1, e1);
    lemma_ext_ident_at(t1, t2, s1);
}

proof fn lemma_ext_parse_interpolation(t1: Seq<u8>, t2: Seq<u8>, p: int)
    requires
        spaces_after(t1, t2),
        0 <= p <= t1.len(),
        parse_interpolation_spec(t1, p).0 is Ok,
        parse_interpolation_spec(t1, p).1 < t1.len(),
    ensures
        parse_interpolation_spec(t2, p) == parse_interpolation_spec(t1, p),
{
    lemma_ext_ident_at(t1, t2, p);
    let e1 = ident_at(t1, p).1;
    lemma_ext_skip_spaces(t1, t2, e1);
    let s1 = skip_spaces_from(t1, e1);
    if s1 < t1.len() {
        lemma_ext_ident_at(t1, t2, s1);
    } else {
        assert(ident_at(t1, s1).0 =~= Seq::<u8>::empty());
    }
    let e2 = parse_color_space_spec(t1, s1).1;
    lemma_ext_skip_spaces(t1, t2, e2);
    let q = skip_spaces_from(t1, e2);
    if q < t1.len() {
        assert(t2[q] == t1[q]);
        assert(same_from(t1, t1, 0));
        lemma_try_hue_interpolation_from(t1, t1, 0, q);
        let space = parse_color_space_spec(t1, s1).0->Ok_0;
        if space.polar() && t1[q] != 0x2c {
            lemma_ext_try_hue_interpolation(t1, t2, q);
        }
    }
}

proof fn lemma_ext_try_percentage(t1: Seq<u8>, t2: Seq<u8>, p: int, c: u8)
    requires
        spaces_after(t1, t2),
        0 <= p <= t1.len(),
        c == 0x2c || c == 0x29,
        try_percentage_spec(t1, p).0 is Ok,
        consume_byte_result(
            t1,
            skip_spaces_from(t1, try_percentage_spec(t1, p).1),
            c,
        ).0 is Ok,
    ensures
        try_percentage_spec(t2, p) == try_percentage_spec(t1, p),
{
    assert(same_from(t1, t1, 0));
    lemma_try_percentage_from(t1, t1, 0, p);
    let pos = try_percentage_spec(t1, p).1;
    lemma_ext_skip_spaces(t1, t2, pos);
    assert(pos < t1.len());
    assert(t1[pos] != 0x65 && t1[pos] != 0x45);
    lemma_ext_skip_spaces(t1, t2, p);
    let q = skip_spaces_from(t1, p);
    if q < t1.len() {
        assert(t2[q] == t1[q]);
        if is_digit(t1[q]) || t1[q] == 0x2b || t1[q] == 0x2d || t1[q] == 0x2e {
            lemma_parse_number_from(t1, t1, 0, q);
            lemma_ext_parse_number(t1, t2, q);
            let q1 = parse_number_spec(t1, q).1;
            lemma_ext_skip_spaces(t1, t2, q1);
            let q2 = skip_spaces_from(t1, q1);
            if q2 < t1.len() {
                assert(t2[q2] == t1[q2]);
            }
        }
    }
}

/// At the end of the text no color can be read.
proof fn lemma_color_at_end(t: Seq<u8>, a: Seq<Color>, p: int, u: int)
    requires
        p >= t.len(),
    ensures
        parse_color_spec(t, a, p, u).0 is Err,
{
}

#[verifier::rlimit(40)]
proof fn lemma_ext_parse_color(t1: Seq<u8>, t2: Seq<u8>, a: Seq<Color>, p: int, u: int)
    requires
        spaces_after(t1, t2),
        0 <= p <= t1.len(),
        parse_color_spec(t1, a, p, u).0 is Ok,
    ensures
        parse_color_spec(t2, a, p, u) == parse_color_spec(t1, a, p, u),
    decreases t1.len() - p, 2int,
{
    lemma_ext_skip_spaces(t1, t2, p);
    let q = skip_spaces_from(t1, p);
    assert(q < t1.len());
    assert(t2[q] == t1[q]);
    if t1[q] == 0x23 {
        lemma_ext_parse_hex(t1, t2, q + 1);
    } else {
        lemma_ext_ident_at(t1, t2, q);
        let (name, end) = ident_at(t1, q);
        if name == kw_rgb() || name == kw_rgba() {
            lemma_ext_rgb_args(t1, t2, end);
        } else if name == kw_hsl() || name == kw_hsla() {
            lemma_ext_hsl_args(t1, t2, end);
        } else if name == kw_color_mix() {
            assert(p < end <= t1.len());
            lemma_ext_color_mix(t1, t2, a, end, u);
            assert(parse_color_spec(t1, a, p, u) == color_mix_spec(t1, a, end, u));
            assert(parse_color_spec(t2, a, p, u) == color_mix_spec(t2, a, end, u));
        }
    }
}

#[verifier::rlimit(40)]
proof fn lemma_ext_color_mix(t1: Seq<u8>, t2: Seq<u8>, a: Seq<Color>, p: int, u: int)
    requires
        spaces_after(t1, t2),
        0 <= p <= t1.len(),
        color_mix_spec(t1, a, p, u).0 is Ok,
    ensures
        color_mix_spec(t2, a, p, u) == color_mix_spec(t1, a, p, u),
    decreases t1.len() - p, 1int,
{
    assert(same_from(t1, t1, 0));
    lemma_ext_consume_byte(t1, t2, p, 0x28);
    let p1 = p + 1;
    lemma_ext_skip_spaces(t1, t2, p1);
    let s1 = skip_spaces_from(t1, p1);
    if s1 == t1.len() {
        assert(ident_at(t1, s1).0 =~= Seq::<u8>::empty());
    }
    assert(s1 < t1.len());
    lemma_parse_interpolation_from(t1, t1, 0, s1);
    let (rm, p2) = parse_interpolation_spec(t1, s1);
    lemma_ext_skip_spaces(t1, t2, p2);
    let s2 = skip_spaces_from(t1, p2);
    lemma_ext_consume_byte(t1, t2, s2, 0x2c);
    lemma_ext_parse_interpolation(t1, t2, s1);
    let p3 = s2 + 1;
    lemma_ext_skip_spaces(t1, t2, p3);
    let p4 = skip_spaces_from(t1, p3);
    if p4 >= t1.len() {
        lemma_color_at_end(t1, a, p4, u);
    }
    assert(p < p4 < t1.len());
    lemma_parse_color_from(t1, t1, a, 0, p4, u);
    lemma_ext_parse_color(t1, t2, a, p4, u);
    let (r1, p5, u1) = parse_color_spec(t1, a, p4, u);
    let method = rm->Ok_0;
    let c1 = r1->Ok_0;
    assert(color_mix_spec(t1, a, p, u) == mix_tail_spec(t1, a, p5, u1, method, c1, p));
    assert(color_mix_spec(t2, a, p, u) == mix_tail_spec(t2, a, p5, u1, method, c1, p));
    lemma_ext_mix_tail(t1, t2, a, p5, u1, method, c1, p);
}

#[verifier::rlimit(40)]
proof fn lemma_ext_mix_tail(
    t1: Seq<u8>,
    t2: Seq<u8>,
    a: Seq<Color>,
    p: int,
    u: int,
    method: (ColorSpace, HueInterpolation),
    c1: Color,
    start: int,
)
    requires
        spaces_after(t1, t2),
        0 <= start <= p <= t1.len(),
        mix_tail_spec(t1, a, p, u, method, c1, start).0 is Ok,
    ensures
        mix_tail_spec(t2, a, p, u, method, c1, start) == mix_tail_spec(
            t1,
            a,
            p,
            u,
            method,
            c1,
            start,
        ),
    decreases t1.len() - start, 0int,
{
    assert(same_from(t1, t1, 0));
    lemma_ext_skip_spaces(t1, t2, p);
    let s0 = skip_spaces_from(t1, p);
    lemma_try_percentage_from(t1, t1, 0, s0);
    let (pct1, p1) = try_percentage_spec(t1, s0);
    lemma_ext_skip_spaces(t1, t2, p1);
    let s1 = skip_spaces_from(t1, p1);
    lemma_ext_consume_byte(t1, t2, s1, 0x2c);
    if s0 == t1.len() {
        assert(p1 == t1.len());
    }
    assert(s0 < t1.len());
    lemma_ext_try_percentage(t1, t2, s0, 0x2c);
    let p2 = s1 + 1;
    lemma_ext_skip_spaces(t1, t2, p2);
    let p3 = skip_spaces_from(t1, p2);
    if p3 >= t1.len() {
        lemma_color_at_end(t1, a, p3, u);
    }
    assert(start < p3 < t1.len());
    lemma_parse_color_from(t1, t1, a, 0, p3, u);
    lemma_ext_parse_color(t1, t2, a, p3, u);
    let (r2, p4, u2) = parse_color_spec(t1, a, p3, u);
    lemma_ext_skip_spaces(t1, t2, p4);
    let s4 = skip_spaces_from(t1, p4);
    lemma_try_percentage_from(t1, t1, 0, s4);
    let (pct2, p5) = try_percentage_spec(t1, s4);
    lemma_ext_skip_spaces(t1, t2, p5);
    let s5 = skip_spaces_from(t1, p5);
    lemma_ext_consume_byte(t1, t2, s5, 0x29);
    if s4 == t1.len() {
        assert(p5 == t1.len());
    }
    assert(s4 < t1.len());
    lemma_ext_try_percentage(t1, t2, s4, 0x29);
}

/// Whitespace after a color does not change the color it reads as.
pub proof fn lemma_trailing_whitespace(t: Seq<u8>, w: Seq<u8>, mixes: Seq<Color>)
    requires
        forall|i: int| 0 <= i < w.len() ==> is_space(#[trigger] w[i]),
        color_from_text(t, mixes) is Ok,
    ensures
        color_from_text(t + w, mixes) == color_from_text(t, mixes),
{
    let t2 = t + w;
    assert forall|i: int| t.len() <= i < t2.len() implies is_space(#[trigger] t2[i]) by {
        assert(t2[i] == w[i - t.len()]);
    }
    assert(spaces_after(t, t2));
    assert(same_from(t, t, 0));
    lemma_parse_color_from(t, t, mixes, 0, 0, 0);
    lemma_ext_parse_color(t, t2, mixes, 0, 0);
    let pe = parse_color_spec(t, mixes, 0, 0).1;
    lemma_ext_skip_spaces(t, t2, pe);
}

} // verus!
