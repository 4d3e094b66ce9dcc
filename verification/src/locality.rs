//! Each reading step depends only on the bytes from its start position on
//! (and, for error positions, on how many characters come before it).
use vstd::prelude::*;

use crate::color::Color;
use crate::color_mix::{ColorSpace, HueInterpolation};
use crate::parser::{
    alpha_and_close_spec, color_mix_spec, hsl_args_spec, ident_at, mix_tail_spec,
    parse_color_space_spec, parse_color_spec, parse_hex_spec, parse_interpolation_spec,
    rgb_args_spec, rgb_rest_spec, try_hue_interpolation_spec, try_percentage_spec,
};
use crate::number::{
    lemma_number_scan_bounds, lemma_number_scan_digits, list_separator_end, number_scan,
    parse_list_number_or_percent_spec, parse_list_number_spec, parse_number_or_percent_spec,
    parse_number_spec, scan_value, is_sign,
};
use crate::stream::{
    char_count, char_pos, consume_byte_result, is_digit, lemma_skip_class, skip_class,
    skip_spaces_from, ByteClass,
};

verus! {

/// `t1` and `t2` have the same length and the same bytes from `e` on, and
/// as many characters before `e`.
pub open spec fn same_from(t1: Seq<u8>, t2: Seq<u8>, e: int) -> bool {
    &&& t1.len() == t2.len()
    &&& 0 <= e <= t1.len()
    &&& forall|i: int| #![trigger t1[i]] #![trigger t2[i]] e <= i < t1.len() ==> t1[i] == t2[i]
    &&& char_count(t1, e) == char_count(t2, e)
}

pub proof fn lemma_same_from_later(t1: Seq<u8>, t2: Seq<u8>, e: int, p: int)
    requires
        same_from(t1, t2, e),
        e <= p <= t1.len(),
    ensures
        same_from(t1, t2, p),
    decreases p - e,
{
    if p > e {
        lemma_same_from_later(t1, t2, e, p - 1);
        assert(t1[p - 1] == t2[p - 1]);
    }
}

pub proof fn lemma_skip_class_from(t1: Seq<u8>, t2: Seq<u8>, e: int, p: int, c: ByteClass)
    requires
        same_from(t1, t2, e),
        e <= p <= t1.len(),
    ensures
        skip_class(t1, p, c) == skip_class(t2, p, c),
        p <= skip_class(t1, p, c) <= t1.len(),
    decreases t1.len() - p,
{
    lemma_skip_class(t1, p, c);
    if p < t1.len() {
        assert(t1[p] == t2[p]);
        lemma_skip_class_from(t1, t2, e, p + 1, c);
    }
}

pub proof fn lemma_char_pos_from(t1: Seq<u8>, t2: Seq<u8>, e: int, p: int)
    requires
        same_from(t1, t2, e),
        e <= p <= t1.len(),
    ensures
        char_pos(t1, p) == char_pos(t2, p),
{
    lemma_same_from_later(t1, t2, e, p);
}

pub proof fn lemma_consume_byte_from(t1: Seq<u8>, t2: Seq<u8>, e: int, p: int, c: u8)
    requires
        same_from(t1, t2, e),
        e <= p <= t1.len(),
    ensures
        consume_byte_result(t1, p, c) == consume_byte_result(t2, p, c),
        p <= consume_byte_result(t1, p, c).1 <= t1.len(),
{
    lemma_char_pos_from(t1, t2, e, p);
    if p < t1.len() {
        assert(t1[p] == t2[p]);
    }
}

pub proof fn lemma_number_scan_from(t1: Seq<u8>, t2: Seq<u8>, e: int, q: int)
    requires
        same_from(t1, t2, e),
        e <= q < t1.len(),
    ensures
        number_scan(t1, q) == number_scan(t2, q),
        q <= number_scan(t1, q).end <= t1.len(),
        number_scan(t1, q).ok ==> scan_value(t1, number_scan(t1, q)) == scan_value(
            t2,
            number_scan(t2, q),
        ),
{
    lemma_number_scan_bounds(t1, q);
    assert(t1[q] == t2[q]);
    let p1 = if is_sign(t1[q]) {
        q + 1
    } else {
        q
    };
    if p1 < t1.len() {
        assert(t1[p1] == t2[p1]);
        lemma_skip_class_from(t1, t2, e, p1, ByteClass::Digit);
        let p2 = if is_digit(t1[p1]) {
            skip_class(t1, p1, ByteClass::Digit)
        } else {
            p1
        };
        if p2 < t1.len() {
            assert(t1[p2] == t2[p2]);
            lemma_skip_class_from(t1, t2, e, p2 + 1, ByteClass::Digit);
        }
        let has_dot = p2 < t1.len() && t1[p2] == 0x2e;
        let p3 = if has_dot {
            skip_class(t1, p2 + 1, ByteClass::Digit)
        } else {
            p2
        };
        if p3 < t1.len() {
            assert(t1[p3] == t2[p3]);
        }
        if p3 + 1 < t1.len() {
            assert(t1[p3 + 1] == t2[p3 + 1]);
        }
        if p3 + 2 <= t1.len() {
            lemma_skip_class_from(t1, t2, e, p3 + 2, ByteClass::Digit);
        }
        if p3 + 1 <= t1.len() {
            lemma_skip_class_from(t1, t2, e, p3 + 1, ByteClass::Digit);
        }
        let sc = number_scan(t1, q);
        if sc.ok {
            lemma_number_scan_digits(t1, q);
            assert(t1.subrange(sc.int_start, sc.int_end) =~= t2.subrange(sc.int_start, sc.int_end));
            assert(t1.subrange(sc.frac_start, sc.frac_end) =~= t2.subrange(
                sc.frac_start,
                sc.frac_end,
            ));
            if sc.has_exp {
                assert(t1.subrange(sc.exp_start, sc.exp_end) =~= t2.subrange(
                    sc.exp_start,
                    sc.exp_end,
                ));
            }
        }
    }
}

pub proof fn lemma_parse_number_from(t1: Seq<u8>, t2: Seq<u8>, e: int, p: int)
    requires
        same_from(t1, t2, e),
        e <= p <= t1.len(),
    ensures
        parse_number_spec(t1, p) == parse_number_spec(t2, p),
        p <= parse_number_spec(t1, p).1 <= t1.len(),
{
    lemma_skip_class_from(t1, t2, e, p, ByteClass::Space);
    let q = skip_spaces_from(t1, p);
    lemma_char_pos_from(t1, t2, e, q);
    if q < t1.len() {
        lemma_number_scan_from(t1, t2, e, q);
    }
}

pub proof fn lemma_list_separator_from(t1: Seq<u8>, t2: Seq<u8>, e: int, p: int)
    requires
        same_from(t1, t2, e),
        e <= p <= t1.len(),
    ensures
        list_separator_end(t1, skip_spaces_from(t1, p)) == list_separator_end(
            t2,
            skip_spaces_from(t2, p),
        ),
        p <= list_separator_end(t1, skip_spaces_from(t1, p)) <= t1.len(),
{
    lemma_skip_class_from(t1, t2, e, p, ByteClass::Space);
    let q = skip_spaces_from(t1, p);
    if q < t1.len() {
        assert(t1[q] == t2[q]);
    }
}

pub proof fn lemma_parse_list_number_from(t1: Seq<u8>, t2: Seq<u8>, e: int, p: int)
    requires
        same_from(t1, t2, e),
        e <= p <= t1.len(),
    ensures
        parse_list_number_spec(t1, p) == parse_list_number_spec(t2, p),
        p <= parse_list_number_spec(t1, p).1 <= t1.len(),
{
    if p < t1.len() {
        lemma_parse_number_from(t1, t2, e, p);
        lemma_list_separator_from(t1, t2, e, parse_number_spec(t1, p).1);
    }
}

pub proof fn lemma_parse_number_or_percent_from(t1: Seq<u8>, t2: Seq<u8>, e: int, p: int)
    requires
        same_from(t1, t2, e),
        e <= p <= t1.len(),
    ensures
        parse_number_or_percent_spec(t1, p) == parse_number_or_percent_spec(t2, p),
        p <= parse_number_or_percent_spec(t1, p).1 <= t1.len(),
{
    lemma_skip_class_from(t1, t2, e, p, ByteClass::Space);
    let q0 = skip_spaces_from(t1, p);
    lemma_parse_number_from(t1, t2, e, q0);
    let q = parse_number_spec(t1, q0).1;
    if q < t1.len() {
        assert(t1[q] == t2[q]);
    }
}

pub proof fn lemma_parse_list_number_or_percent_from(t1: Seq<u8>, t2: Seq<u8>, e: int, p: int)
    requires
        same_from(t1, t2, e),
        e <= p <= t1.len(),
    ensures
        parse_list_number_or_percent_spec(t1, p) == parse_list_number_or_percent_spec(t2, p),
        p <= parse_list_number_or_percent_spec(t1, p).1 <= t1.len(),
{
    if p < t1.len() {
        lemma_parse_number_or_percent_from(t1, t2, e, p);
        lemma_list_separator_from(t1, t2, e, parse_number_or_percent_spec(t1, p).1);
    }
}

pub proof fn lemma_ident_at_from(t1: Seq<u8>, t2: Seq<u8>, e: int, p: int)
    requires
        same_from(t1, t2, e),
        e <= p <= t1.len(),
    ensures
        ident_at(t1, p) == ident_at(t2, p),
        p <= ident_at(t1, p).1 <= t1.len(),
{
    lemma_skip_class_from(t1, t2, e, p, ByteClass::Ident);
    let end = skip_class(t1, p, ByteClass::Ident);
    assert(t1.subrange(p, end) =~= t2.subrange(p, end));
}

pub proof fn lemma_parse_hex_from(t1: Seq<u8>, t2: Seq<u8>, e: int, p: int)
    requires
        same_from(t1, t2, e),
        e <= p <= t1.len(),
    ensures
        parse_hex_spec(t1, p) == parse_hex_spec(t2, p),
        p <= parse_hex_spec(t1, p).1 <= t1.len(),
{
    lemma_skip_class_from(t1, t2, e, p, ByteClass::HexDigit);
    let end = skip_class(t1, p, ByteClass::HexDigit);
    assert(forall|i: int| p <= i < end ==> t1[i] == t2[i]);
}

pub proof fn lemma_alpha_and_close_from(t1: Seq<u8>, t2: Seq<u8>, e: int, p: int)
    requires
        same_from(t1, t2, e),
        e <= p <= t1.len(),
    ensures
        alpha_and_close_spec(t1, p) == alpha_and_close_spec(t2, p),
        p <= alpha_and_close_spec(t1, p).1 <= t1.len(),
{
    lemma_skip_class_from(t1, t2, e, p, ByteClass::Space);
    let q = skip_spaces_from(t1, p);
    if q < t1.len() {
        assert(t1[q] == t2[q]);
    }
    lemma_parse_list_number_from(t1, t2, e, q);
    let q2 = if 0 <= q < t1.len() && t1[q] == 0x29 {
        q
    } else {
        parse_list_number_spec(t1, q).1
    };
    lemma_skip_class_from(t1, t2, e, q2, ByteClass::Space);
    lemma_consume_byte_from(t1, t2, e, skip_spaces_from(t1, q2), 0x29);
}

pub proof fn lemma_rgb_rest_from(t1: Seq<u8>, t2: Seq<u8>, e: int, p: int, red: u8, percent: bool)
    requires
        same_from(t1, t2, e),
        e <= p <= t1.len(),
    ensures
        rgb_rest_spec(t1, p, red, percent) == rgb_rest_spec(t2, p, red, percent),
        p <= rgb_rest_spec(t1, p, red, percent).1 <= t1.len(),
{
    if percent {
        lemma_parse_list_number_or_percent_from(t1, t2, e, p);
        let p1 = parse_list_number_or_percent_spec(t1, p).1;
        lemma_parse_list_number_or_percent_from(t1, t2, e, p1);
        let p2 = parse_list_number_or_percent_spec(t1, p1).1;
        lemma_alpha_and_close_from(t1, t2, e, p2);
    } else {
        lemma_parse_list_number_from(t1, t2, e, p);
        let p1 = parse_list_number_spec(t1, p).1;
        lemma_parse_list_number_from(t1, t2, e, p1);
        let p2 = parse_list_number_spec(t1, p1).1;
        lemma_alpha_and_close_from(t1, t2, e, p2);
    }
}

pub proof fn lemma_rgb_args_from(t1: Seq<u8>, t2: Seq<u8>, e: int, p: int)
    requires
        same_from(t1, t2, e),
        e <= p <= t1.len(),
    ensures
        rgb_args_spec(t1, p) == rgb_args_spec(t2, p),
        p <= rgb_args_spec(t1, p).1 <= t1.len(),
{
    reveal(rgb_args_spec);
    lemma_consume_byte_from(t1, t2, e, p, 0x28);
    let p1 = consume_byte_result(t1, p, 0x28).1;
    lemma_parse_number_from(t1, t2, e, p1);
    let p2 = parse_number_spec(t1, p1).1;
    if p2 < t1.len() {
        assert(t1[p2] == t2[p2]);
    }
    let percent = 0 <= p2 < t1.len() && t1[p2] == 0x25;
    let p3 = if percent {
        p2 + 1
    } else {
        p2
    };
    lemma_list_separator_from(t1, t2, e, p3);
    let p4 = list_separator_end(t1, skip_spaces_from(t1, p3));
    if let Ok(v) = parse_number_spec(t1, p1).0 {
        let red = if percent {
            crate::arith::scaled_channel(v, 255, 100) as u8
        } else {
            crate::arith::scaled_channel(v, 1, 1) as u8
        };
        lemma_rgb_rest_from(t1, t2, e, p4, red, percent);
    }
}

pub proof fn lemma_hsl_args_from(t1: Seq<u8>, t2: Seq<u8>, e: int, p: int)
    requires
        same_from(t1, t2, e),
        e <= p <= t1.len(),
    ensures
        hsl_args_spec(t1, p) == hsl_args_spec(t2, p),
        p <= hsl_args_spec(t1, p).1 <= t1.len(),
{
    reveal(hsl_args_spec);
    lemma_consume_byte_from(t1, t2, e, p, 0x28);
    let p1 = consume_byte_result(t1, p, 0x28).1;
    lemma_parse_list_number_from(t1, t2, e, p1);
    let p2 = parse_list_number_spec(t1, p1).1;
    lemma_parse_list_number_or_percent_from(t1, t2, e, p2);
    let p3 = parse_list_number_or_percent_spec(t1, p2).1;
    lemma_parse_list_number_or_percent_from(t1, t2, e, p3);
    let p4 = parse_list_number_or_percent_spec(t1, p3).1;
    lemma_alpha_and_close_from(t1, t2, e, p4);
}

pub proof fn lemma_parse_color_space_from(t1: Seq<u8>, t2: Seq<u8>, e: int, p: int)
    requires
        same_from(t1, t2, e),
        e <= p <= t1.len(),
    ensures
        parse_color_space_spec(t1, p) == parse_color_space_spec(t2, p),
        p <= parse_color_space_spec(t1, p).1 <= t1.len(),
{
    lemma_ident_at_from(t1, t2, e, p);
}

pub proof fn lemma_try_hue_interpolation_from(t1: Seq<u8>, t2: Seq<u8>, e: int, p: int)
    requires
        same_from(t1, t2, e),
        e <= p <= t1.len(),
    ensures
        try_hue_interpolation_spec(t1, p) == try_hue_interpolation_spec(t2, p),
        p <= try_hue_interpolation_spec(t1, p).1 <= t1.len(),
{
    lemma_ident_at_from(t1, t2, e, p);
    let e1 = ident_at(t1, p).1;
    lemma_skip_class_from(t1, t2, e, e1, ByteClass::Space);
    lemma_ident_at_from(t1, t2, e, skip_spaces_from(t1, e1));
}

pub proof fn lemma_parse_interpolation_from(t1: Seq<u8>, t2: Seq<u8>, e: int, p: int)
    requires
        same_from(t1, t2, e),
        e <= p <= t1.len(),
    ensures
        parse_interpolation_spec(t1, p) == parse_interpolation_spec(t2, p),
        p <= parse_interpolation_spec(t1, p).1 <= t1.len(),
{
    lemma_ident_at_from(t1, t2, e, p);
    let e1 = ident_at(t1, p).1;
    lemma_skip_class_from(t1, t2, e, e1, ByteClass::Space);
    lemma_parse_color_space_from(t1, t2, e, skip_spaces_from(t1, e1));
    let e2 = parse_color_space_spec(t1, skip_spaces_from(t1, e1)).1;
    lemma_skip_class_from(t1, t2, e, e2, ByteClass::Space);
    let q = skip_spaces_from(t1, e2);
    if q < t1.len() {
        assert(t1[q] == t2[q]);
    }
    lemma_try_hue_interpolation_from(t1, t2, e, q);
}

pub proof fn lemma_try_percentage_from(t1: Seq<u8>, t2: Seq<u8>, e: int, p: int)
    requires
        same_from(t1, t2, e),
        e <= p <= t1.len(),
    ensures
        try_percentage_spec(t1, p) == try_percentage_spec(t2, p),
        p <= try_percentage_spec(t1, p).1 <= t1.len(),
{
    lemma_skip_class_from(t1, t2, e, p, ByteClass::Space);
    let q = skip_spaces_from(t1, p);
    if q < t1.len() {
        assert(t1[q] == t2[q]);
        lemma_parse_number_from(t1, t2, e, q);
        let q1 = parse_number_spec(t1, q).1;
        lemma_skip_class_from(t1, t2, e, q1, ByteClass::Space);
        let q2 = skip_spaces_from(t1, q1);
        if q2 < t1.len() {
            assert(t1[q2] == t2[q2]);
        }
    }
}

pub proof fn lemma_parse_color_from(t1: Seq<u8>, t2: Seq<u8>, a: Seq<Color>, e: int, p: int, u: int)
    requires
        same_from(t1, t2, e),
        e <= p <= t1.len(),
    ensures
        parse_color_spec(t1, a, p, u) == parse_color_spec(t2, a, p, u),
        p <= parse_color_spec(t1, a, p, u).1 <= t1.len(),
    decreases t1.len() - p, 2int,
{
    lemma_skip_class_from(t1, t2, e, p, ByteClass::Space);
    let q = skip_spaces_from(t1, p);
    if q < t1.len() {
        assert(t1[q] == t2[q]);
        if t1[q] == 0x23 {
            lemma_parse_hex_from(t1, t2, e, q + 1);
        } else {
            lemma_ident_at_from(t1, t2, e, q);
            let end = ident_at(t1, q).1;
            lemma_rgb_args_from(t1, t2, e, end);
            lemma_hsl_args_from(t1, t2, e, end);
            if p < end <= t1.len() {
                lemma_color_mix_from(t1, t2, a, e, end, u);
            }
        }
    }
}

pub proof fn lemma_color_mix_from(t1: Seq<u8>, t2: Seq<u8>, a: Seq<Color>, e: int, p: int, u: int)
    requires
        same_from(t1, t2, e),
        e <= p <= t1.len(),
    ensures
        color_mix_spec(t1, a, p, u) == color_mix_spec(t2, a, p, u),
        p <= color_mix_spec(t1, a, p, u).1 <= t1.len(),
    decreases t1.len() - p, 1int,
{
    lemma_consume_byte_from(t1, t2, e, p, 0x28);
    let p1 = consume_byte_result(t1, p, 0x28).1;
    lemma_skip_class_from(t1, t2, e, p1, ByteClass::Space);
    lemma_parse_interpolation_from(t1, t2, e, skip_spaces_from(t1, p1));
    let p2 = parse_interpolation_spec(t1, skip_spaces_from(t1, p1)).1;
    lemma_skip_class_from(t1, t2, e, p2, ByteClass::Space);
    lemma_consume_byte_from(t1, t2, e, skip_spaces_from(t1, p2), 0x2c);
    let p3 = consume_byte_result(t1, skip_spaces_from(t1, p2), 0x2c).1;
    lemma_skip_class_from(t1, t2, e, p3, ByteClass::Space);
    let p4 = skip_spaces_from(t1, p3);
    if p < p4 <= t1.len() {
        lemma_parse_color_from(t1, t2, a, e, p4, u);
        let (r1, p5, u1) = parse_color_spec(t1, a, p4, u);
        let rm = parse_interpolation_spec(t1, skip_spaces_from(t1, p1)).0;
        if r1 is Ok && rm is Ok {
            lemma_mix_tail_from(t1, t2, a, e, p5, u1, rm->Ok_0, r1->Ok_0, p);
        }
    }
}

pub proof fn lemma_mix_tail_from(
    t1: Seq<u8>,
    t2: Seq<u8>,
    a: Seq<Color>,
    e: int,
    p: int,
    u: int,
    method: (ColorSpace, HueInterpolation),
    c1: Color,
    start: int,
)
    requires
        same_from(t1, t2, e),
        e <= start <= p <= t1.len(),
    ensures
        mix_tail_spec(t1, a, p, u, method, c1, start) == mix_tail_spec(
            t2,
            a,
            p,
            u,
            method,
            c1,
            start,
        ),
        p <= mix_tail_spec(t1, a, p, u, method, c1, start).1 <= t1.len(),
    decreases t1.len() - start, 0int,
{
    lemma_skip_class_from(t1, t2, e, p, ByteClass::Space);
    lemma_try_percentage_from(t1, t2, e, skip_spaces_from(t1, p));
    let p1 = try_percentage_spec(t1, skip_spaces_from(t1, p)).1;
    lemma_skip_class_from(t1, t2, e, p1, ByteClass::Space);
    lemma_consume_byte_from(t1, t2, e, skip_spaces_from(t1, p1), 0x2c);
    let p2 = consume_byte_result(t1, skip_spaces_from(t1, p1), 0x2c).1;
    lemma_skip_class_from(t1, t2, e, p2, ByteClass::Space);
    let p3 = skip_spaces_from(t1, p2);
    if start < p3 <= t1.len() {
        lemma_parse_color_from(t1, t2, a, e, p3, u);
        let p4 = parse_color_spec(t1, a, p3, u).1;
        lemma_skip_class_from(t1, t2, e, p4, ByteClass::Space);
        lemma_try_percentage_from(t1, t2, e, skip_spaces_from(t1, p4));
        let p5 = try_percentage_spec(t1, skip_spaces_from(t1, p4)).1;
        lemma_skip_class_from(t1, t2, e, p5, ByteClass::Space);
        lemma_consume_byte_from(t1, t2, e, skip_spaces_from(t1, p5), 0x29);
    }
}

} // verus!
