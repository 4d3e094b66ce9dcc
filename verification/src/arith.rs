//! Exact arithmetic on parsed numbers: rounding to 8-bit channels, fixed-point
//! fractions and hue reduction.
use vstd::prelude::*;
use vstd::arithmetic::div_mod::{
    lemma_fundamental_div_mod, lemma_fundamental_div_mod_converse, lemma_mod_multiples_vanish,
    lemma_mul_mod_noop,
};

use crate::number::{
    lemma_pow10_add, lemma_pow10_monotonic, lemma_pow10_positive, pow10, Number,
};

verus! {

/// `num / den` rounded half away from zero, for `num >= 0` and `den > 0`.
pub open spec fn round_ratio(num: int, den: int) -> int {
    (2 * num + den) / (2 * den)
}

/// Saturation into `0..=255` from above (the arguments here are never negative).
pub open spec fn saturate_u8(x: int) -> int {
    if x > 255 {
        255
    } else {
        x
    }
}

/// `(v * k / d).round() as u8` for the value `v` of `n`: rounding half away
/// from zero, then saturating into `0..=255` (negative values give 0).
pub open spec fn scaled_channel(n: Number, k: int, d: int) -> int {
    if n.negative || n.mantissa == 0 {
        0
    } else if n.exponent >= 0 {
        saturate_u8(round_ratio(n.mantissa * k * pow10(n.exponent as nat), d))
    } else {
        saturate_u8(round_ratio(n.mantissa * k, d * pow10((-n.exponent) as nat)))
    }
}

/// The value of `n` times `10^shift`, clamped into `[0, one]` and rounded down.
pub open spec fn fraction_units(n: Number, shift: int, one: int) -> int {
    if n.negative || n.mantissa == 0 {
        0
    } else {
        let s = n.exponent + shift;
        let f = if s >= 0 {
            n.mantissa * pow10(s as nat)
        } else {
            (n.mantissa as int) / (pow10((-s) as nat) as int)
        };
        if f > one {
            one
        } else {
            f
        }
    }
}

/// The value of `n` as a fraction: signed numerator over `value_den`.
pub open spec fn value_num(n: Number) -> int {
    let m = if n.exponent >= 0 {
        n.mantissa * pow10(n.exponent as nat)
    } else {
        n.mantissa as int
    };
    if n.negative {
        -m
    } else {
        m
    }
}

pub open spec fn value_den(n: Number) -> int {
    if n.exponent >= 0 {
        1
    } else {
        pow10((-n.exponent) as nat) as int
    }
}

/// One in the fixed-point units of hue sixths (`10^9`).
pub const HUE_UNIT: u64 = 1_000_000_000;

/// A full turn of hue in `HUE_UNIT`s of sixths: 6 * 10^9.
pub const HUE_TURN: u64 = 6_000_000_000;

/// The hue `n` (in degrees), reduced into `[0, 360)`, divided by 60 and
/// expressed in units of `10^-9`, rounded down:
/// `floor(v * 10^9 / 60) mod 6*10^9`.
pub open spec fn hue_units(n: Number) -> int {
    ((value_num(n) * 1_000_000_000) / (60 * value_den(n))) % (HUE_TURN as int)
}

/// Equal ratios have equal floors: `a*d == c*b` gives `a / b == c / d`.
proof fn lemma_floor_equal_ratios(a: int, b: int, c: int, d: int)
    requires
        b > 0,
        d > 0,
        a * d == c * b,
    ensures
        a / b == c / d,
{
    lemma_fundamental_div_mod(a, b);
    let q = a / b;
    let r = a % b;
    let s = c - q * d;
    assert(s * b == r * d) by (nonlinear_arith)
        requires
            s == c - q * d,
            a * d == c * b,
            a == b * q + r,
    ;
    assert(0 <= s < d) by (nonlinear_arith)
        requires
            s * b == r * d,
            0 <= r < b,
            b > 0,
            d > 0,
    ;
    lemma_fundamental_div_mod_converse(c, d, q, s);
}

/// `hsl()` reads its hue modulo 360 degrees: two hues that differ by a whole
/// number `k` of turns give the same hue.
pub proof fn lemma_hue_units_period(n1: Number, n2: Number, k: int)
    requires
        value_num(n1) * value_den(n2) == (value_num(n2) + 360 * k * value_den(n2)) * value_den(n1),
    ensures
        hue_units(n1) == hue_units(n2),
{
    let d1 = value_den(n1);
    let d2 = value_den(n2);
    lemma_pow10_positive((-n1.exponent) as nat);
    lemma_pow10_positive((-n2.exponent) as nat);
    assert(d1 > 0 && d2 > 0);
    let a = value_num(n1) * 1_000_000_000;
    let b = 60 * d1;
    let c = value_num(n2) * 1_000_000_000 + 6_000_000_000 * k * (60 * d2);
    assert(a * (60 * d2) == c * b) by (nonlinear_arith)
        requires
            value_num(n1) * d2 == (value_num(n2) + 360 * k * d2) * d1,
            a == value_num(n1) * 1_000_000_000,
            b == 60 * d1,
            c == value_num(n2) * 1_000_000_000 + 6_000_000_000 * k * (60 * d2),
    ;
    lemma_floor_equal_ratios(a, b, c, 60 * d2);
    let x = value_num(n2) * 1_000_000_000;
    lemma_fundamental_div_mod(x, 60 * d2);
    let q = x / (60 * d2);
    let r = x % (60 * d2);
    assert(c == (q + 6_000_000_000 * k) * (60 * d2) + r) by (nonlinear_arith)
        requires
            x == (60 * d2) * q + r,
            c == x + 6_000_000_000 * k * (60 * d2),
    ;
    lemma_fundamental_div_mod_converse(c, 60 * d2, q + 6_000_000_000 * k, r);
    lemma_mod_multiples_vanish(k, q, 6_000_000_000);
    assert(6_000_000_000 * k + q == q + 6_000_000_000 * k);
}

/// `(x + d*D) / (2*d*D) == (x / D + d) / (2*d)`.
pub proof fn lemma_round_shift(x: int, big: int, d: int)
    requires
        x >= 0,
        big > 0,
        d > 0,
    ensures
        (2 * x + d * big) / (2 * d * big) == ((2 * x) / big + d) / (2 * d),
{
    let y = 2 * x;
    lemma_fundamental_div_mod(y, big);
    let q = y / big;
    let r = y % big;
    lemma_fundamental_div_mod(q + d, 2 * d);
    let qq = (q + d) / (2 * d);
    let rr = (q + d) % (2 * d);
    assert(0 <= rr < 2 * d);
    assert(0 <= r < big);
    assert(rr * big + r < 2 * d * big) by (nonlinear_arith)
        requires
            0 <= rr < 2 * d,
            0 <= r < big,
            d > 0,
    ;
    assert(rr * big + r >= 0) by (nonlinear_arith)
        requires
            0 <= rr,
            0 <= r,
            big > 0,
    ;
    assert(y + d * big == qq * (2 * d * big) + (rr * big + r)) by (nonlinear_arith)
        requires
            y == big * q + r,
            q + d == (2 * d) * qq + rr,
    ;
    lemma_fundamental_div_mod_converse(y + d * big, 2 * d * big, qq, rr * big + r);
}

/// `(x * c) / (b * c) == x / b`.
pub proof fn lemma_div_cancel(x: int, b: int, c: int)
    requires
        b > 0,
        c > 0,
    ensures
        (x * c) / (b * c) == x / b,
{
    lemma_fundamental_div_mod(x, b);
    let q = x / b;
    let r = x % b;
    assert(x * c == (b * c) * q + r * c) by (nonlinear_arith)
        requires
            x == b * q + r,
    ;
    assert(0 <= r * c < b * c) by (nonlinear_arith)
        requires
            0 <= r < b,
            c > 0,
    ;
    lemma_fundamental_div_mod_converse(x * c, b * c, q, r * c);
}

/// `(a / 6) % (6 * 10^9) == (a % (36 * 10^9)) / 6`.
pub proof fn lemma_sixths(a: int)
    ensures
        (a / 6) % 6_000_000_000 == (a % 36_000_000_000) / 6,
        0 <= (a % 36_000_000_000) / 6 < 6_000_000_000,
{
    lemma_fundamental_div_mod(a, 36_000_000_000);
    let q = a / 36_000_000_000;
    let r = a % 36_000_000_000;
    lemma_fundamental_div_mod(r, 6);
    let r6 = r / 6;
    assert(a == 6 * (6_000_000_000 * q + r6) + r % 6);
    lemma_fundamental_div_mod_converse(a, 6, 6_000_000_000 * q + r6, r % 6);
    assert(0 <= r6 < 6_000_000_000);
    lemma_fundamental_div_mod_converse(
        6_000_000_000 * q + r6,
        6_000_000_000,
        q,
        r6,
    );
}

/// `(-x) % m == (m - x % m) % m`.
pub proof fn lemma_neg_mod(x: int, m: int)
    requires
        m > 0,
    ensures
        (-x) % m == (m - x % m) % m,
{
    lemma_fundamental_div_mod(x, m);
    let q = x / m;
    let r = x % m;
    if r == 0 {
        assert(-x == (-q) * m + 0) by (nonlinear_arith)
            requires
                x == m * q + r,
                r == 0,
        ;
        lemma_fundamental_div_mod_converse(-x, m, -q, 0);
        assert(m - r == 1 * m + 0);
        lemma_fundamental_div_mod_converse(m - r, m, 1, 0);
    } else {
        assert(-x == (-q - 1) * m + (m - r)) by (nonlinear_arith)
            requires
                x == m * q + r,
        ;
        lemma_fundamental_div_mod_converse(-x, m, -q - 1, m - r);
        assert(m - r == 0 * m + (m - r));
        lemma_fundamental_div_mod_converse(m - r, m, 0, m - r);
    }
}

/// `(-x) / d == -((x + d - 1) / d)` for `x >= 0`.
pub proof fn lemma_neg_div(x: int, d: int)
    requires
        x >= 0,
        d > 0,
    ensures
        (-x) / d == -((x + d - 1) / d),
{
    lemma_fundamental_div_mod(x, d);
    let q = x / d;
    let r = x % d;
    if r == 0 {
        assert(-x == (-q) * d + 0) by (nonlinear_arith)
            requires
                x == d * q + r,
                r == 0,
        ;
        lemma_fundamental_div_mod_converse(-x, d, -q, 0);
        assert(x + d - 1 == q * d + (d - 1)) by (nonlinear_arith)
            requires
                x == d * q + r,
                r == 0,
        ;
        lemma_fundamental_div_mod_converse(x + d - 1, d, q, d - 1);
    } else {
        assert(-x == (-q - 1) * d + (d - r)) by (nonlinear_arith)
            requires
                x == d * q + r,
        ;
        lemma_fundamental_div_mod_converse(-x, d, -q - 1, d - r);
        assert(x + d - 1 == (q + 1) * d + (r - 1)) by (nonlinear_arith)
            requires
                x == d * q + r,
        ;
        lemma_fundamental_div_mod_converse(x + d - 1, d, q + 1, r - 1);
    }
}

/// `10^n mod 36*10^9 == 28*10^9` for `n >= 11`.
pub proof fn lemma_pow10_mod(n: nat)
    requires
        n >= 11,
    ensures
        pow10(n) % 36_000_000_000 == 28_000_000_000,
    decreases n,
{
    if n == 11 {
        reveal_with_fuel(pow10, 12);
        assert(pow10(11) == 100_000_000_000);
    } else {
        lemma_pow10_mod((n - 1) as nat);
        assert(pow10(n) == 10 * pow10((n - 1) as nat));
        lemma_mul_mod_noop(10, pow10((n - 1) as nat) as int, 36_000_000_000);
        assert(10int % 36_000_000_000 == 10);
    }
}

/// `10^k` as a `u128`, for `k <= 38`.
pub fn pow10_exec(k: u32) -> (r: u128)
    requires
        k <= 38,
    ensures
        r == pow10(k as nat),
        r >= 1,
{
    proof {
        lemma_pow10_positive(k as nat);
    }
    crate::number::pow10_u128(k)
}

/// `(v * k / d).round() as u8` for the value `v` of `n`.
pub fn scaled_channel_exec(n: &Number, k: u64, d: u64) -> (r: u8)
    requires
        n.wf(),
        1 <= d <= k <= 255,
    ensures
        r == scaled_channel(*n, k as int, d as int),
{
    if n.negative || n.mantissa == 0 {
        return 0;
    }
    proof {
        reveal_with_fuel(pow10, 20);
    }
    let m = n.mantissa as u128;
    let k128 = k as u128;
    let d128 = d as u128;
    if n.exponent >= 0 {
        let ghost e = n.exponent as nat;
        if n.exponent >= 3 {
            proof {
                lemma_pow10_monotonic(3, e);
                let num = n.mantissa * k * pow10(e);
                assert(num >= 1000 * d) by (nonlinear_arith)
                    requires
                        num == n.mantissa * k * pow10(e),
                        n.mantissa >= 1,
                        k >= d,
                        pow10(e) >= 1000,
                        d >= 1,
                ;
                assert((2 * num + d) / (2 * d) >= 256) by (nonlinear_arith)
                    requires
                        num >= 1000 * d,
                        d >= 1,
                ;
            }
            return 255;
        }
        let p = pow10_exec(n.exponent as u32);
        proof {
            lemma_pow10_monotonic(e, 2);
            assert(m * k128 <= 1_000_000_000_000_000_000 * 255) by (nonlinear_arith)
                requires
                    m < 1_000_000_000_000_000_000,
                    k128 <= 255,
            ;
            assert((m * k128) * p <= 1_000_000_000_000_000_000 * 255 * 100) by (nonlinear_arith)
                requires
                    m * k128 <= 1_000_000_000_000_000_000 * 255,
                    p <= 100,
            ;
        }
        let mk = m * k128;
        let num = mk * p;
        let r = (2 * num + d128) / (2 * d128);
        if r > 255 {
            255
        } else {
            r as u8
        }
    } else {
        let j = -n.exponent;
        proof {
            assert(2 * k128 * m <= 510 * 1_000_000_000_000_000_000) by (nonlinear_arith)
                requires
                    m < 1_000_000_000_000_000_000,
                    k128 <= 255,
            ;
        }
        let x = 2 * k128 * m;
        let f: u128 = if j > 38 {
            proof {
                lemma_pow10_monotonic(38, j as nat);
                reveal_with_fuel(pow10, 40);
                assert(x < pow10(j as nat));
                assert((x as int) / (pow10(j as nat) as int) == 0) by (nonlinear_arith)
                    requires
                        0 <= x < pow10(j as nat),
                ;
            }
            0
        } else {
            x / pow10_exec(j as u32)
        };
        proof {
            lemma_pow10_positive(j as nat);
            lemma_round_shift(m * k128, pow10(j as nat) as int, d as int);
            assert(2 * d * pow10(j as nat) == 2 * (d * pow10(j as nat))) by (nonlinear_arith);
            assert(x == 2 * (m * k128)) by (nonlinear_arith)
                requires x == 2 * k128 * m;
        }
        let r = (f + d128) / (2 * d128);
        if r > 255 {
            255
        } else {
            r as u8
        }
    }
}

/// The value of `n` times `10^shift`, clamped into `[0, one]`, rounded down.
pub fn fraction_units_exec(n: &Number, shift: i64, one: u128) -> (r: u128)
    requires
        n.wf(),
        0 <= shift <= 20,
        one <= 1_000_000_000_000_000_000,
    ensures
        r == fraction_units(*n, shift as int, one as int),
        r <= one,
{
    if n.negative || n.mantissa == 0 {
        return 0;
    }
    proof {
        reveal_with_fuel(pow10, 21);
    }
    let m = n.mantissa as u128;
    let s = n.exponent + shift;
    let f: u128 = if s >= 0 {
        if s > 19 {
            proof {
                lemma_pow10_monotonic(20, s as nat);
                assert(m * pow10(s as nat) >= pow10(20)) by (nonlinear_arith)
                    requires
                        m >= 1,
                        pow10(s as nat) >= pow10(20),
                ;
            }
            return one;
        }
        let p = pow10_exec(s as u32);
        proof {
            lemma_pow10_monotonic(s as nat, 19);
            assert(m * p <= 1_000_000_000_000_000_000 * 10_000_000_000_000_000_000) by (
            nonlinear_arith)
                requires
                    m < 1_000_000_000_000_000_000,
                    p <= 10_000_000_000_000_000_000,
            ;
        }
        m * p
    } else {
        let j = -s;
        if j > 38 {
            proof {
                lemma_pow10_monotonic(38, j as nat);
                reveal_with_fuel(pow10, 40);
                assert((m as int) / (pow10(j as nat) as int) == 0) by (nonlinear_arith)
                    requires
                        0 <= m < pow10(j as nat),
                ;
            }
            0
        } else {
            m / pow10_exec(j as u32)
        }
    };
    if f > one {
        one
    } else {
        f
    }
}

/// The hue `n` reduced into `[0, 360)` degrees, in units of `10^-9` sixths.
pub fn hue_units_exec(n: &Number) -> (r: u64)
    requires
        n.wf(),
    ensures
        r == hue_units(*n),
        r < HUE_TURN,
{
    let ghost num = value_num(*n);
    let ghost den = value_den(*n);
    proof {
        lemma_pow10_positive((-n.exponent) as nat);
        reveal_with_fuel(pow10, 20);
    }
    if n.mantissa == 0 {
        proof {
            assert(num == 0) by (nonlinear_arith)
                requires
                    num == value_num(*n),
                    n.mantissa == 0,
            ;
        }
        return 0;
    }
    let m = n.mantissa as u128;
    let modulus: u128 = 36_000_000_000;
    if n.exponent >= -8 {
        // a = |v| * 10^8 is an integer; the result is (±a mod 36*10^9) / 6.
        let s: i64 = n.exponent + 8;
        let ghost big_a = n.mantissa * pow10(s as nat);
        let a_mod: u128 = if s <= 10 {
            let p = pow10_exec(s as u32);
            proof {
                lemma_pow10_monotonic(s as nat, 10);
                assert(m * p <= 1_000_000_000_000_000_000 * 10_000_000_000) by (nonlinear_arith)
                    requires
                        m < 1_000_000_000_000_000_000,
                        p <= 10_000_000_000,
                ;
            }
            (m * p) % modulus
        } else {
            proof {
                lemma_pow10_mod(s as nat);
                lemma_mul_mod_noop(n.mantissa as int, pow10(s as nat) as int, 36_000_000_000);
                assert((m % modulus) * 28_000_000_000 <= 36_000_000_000 * 28_000_000_000) by (
                nonlinear_arith)
                    requires
                        m % modulus < 36_000_000_000,
                ;
            }
            ((m % modulus) * 28_000_000_000) % modulus
        };
        let signed_mod: u128 = if n.negative {
            proof {
                lemma_neg_mod(big_a, 36_000_000_000);
            }
            (modulus - a_mod) % modulus
        } else {
            a_mod
        };
        proof {
            let sa = if n.negative {
                -big_a
            } else {
                big_a
            };
            // num * 10^9 / (60 * den) == sa / 6
            if n.exponent >= 0 {
                lemma_pow10_add(n.exponent as nat, 8);
                assert(num * 1_000_000_000 == sa * 10) by (nonlinear_arith)
                    requires
                        num == (if n.negative {
                            -(n.mantissa * pow10(n.exponent as nat))
                        } else {
                            n.mantissa * pow10(n.exponent as nat)
                        }),
                        sa == (if n.negative {
                            -big_a
                        } else {
                            big_a
                        }),
                        big_a == n.mantissa * pow10(s as nat),
                        pow10(s as nat) == pow10(n.exponent as nat) * pow10(8),
                        pow10(8) == 100_000_000,
                ;
                assert(num * 1_000_000_000 == sa * 10);
                lemma_div_cancel(sa, 6, 10);
                assert(60 * den == 6 * 10);
            } else {
                let k = (-n.exponent) as nat;
                lemma_pow10_add(s as nat, k);
                assert(s + k == 8);
                assert(num * 1_000_000_000 == (sa * 10) * den) by (nonlinear_arith)
                    requires
                        num == (if n.negative {
                            -(n.mantissa as int)
                        } else {
                            n.mantissa as int
                        }),
                        sa == (if n.negative {
                            -big_a
                        } else {
                            big_a
                        }),
                        big_a == n.mantissa * pow10(s as nat),
                        pow10(8) == pow10(s as nat) * pow10(k),
                        pow10(8) == 100_000_000,
                        den == pow10(k),
                ;
                lemma_div_cancel(sa * 10, 60, den);
                lemma_div_cancel(sa, 6, 10);
                assert(60 * den == den * 60) by (nonlinear_arith);
                assert((sa * 10) * den == (sa * 10) * den);
            }
            lemma_sixths(sa);
        }
        (signed_mod / 6) as u64
    } else {
        // |v| * 10^8 = m / 10^j with j >= 1; the result is floor(±m / (6 * 10^j)) mod 6*10^9.
        let j: i64 = -n.exponent - 8;
        let ghost dd: int = 6 * (pow10(j as nat) as int);
        proof {
            lemma_pow10_positive(j as nat);
            let k = (-n.exponent) as nat;
            lemma_pow10_add(j as nat, 8);
            assert(j + 8 == k);
            assert(60 * den == dd * 1_000_000_000) by (nonlinear_arith)
                requires
                    den == pow10(k),
                    pow10(k) == pow10(j as nat) * pow10(8),
                    pow10(8) == 100_000_000,
                    dd == 6 * pow10(j as nat),
            ;
            lemma_div_cancel(num, dd, 1_000_000_000);
            assert(num * 1_000_000_000 == 1_000_000_000 * num);
        }
        let y_mod: u128 = if !n.negative {
            let q: u128 = if j >= 20 {
                proof {
                    lemma_pow10_monotonic(20, j as nat);
                    assert((m as int) / dd == 0) by (nonlinear_arith)
                        requires
                            0 <= m < 1_000_000_000_000_000_000,
                            dd >= 6 * pow10(20),
                            pow10(20) == 100_000_000_000_000_000_000,
                    ;
                }
                0
            } else {
                proof {
                    lemma_pow10_monotonic(j as nat, 19);
                }
                m / (6 * pow10_exec(j as u32))
            };
            proof {
                assert(num == m);
                assert(0 <= q <= m);
            }
            q % (HUE_TURN as u128)
        } else {
            let c: u128 = if j >= 20 {
                proof {
                    lemma_pow10_monotonic(20, j as nat);
                    assert((m as int + dd - 1) / dd == 1) by (nonlinear_arith)
                        requires
                            1 <= m < 1_000_000_000_000_000_000,
                            dd >= 6 * pow10(20),
                            pow10(20) == 100_000_000_000_000_000_000,
                    ;
                }
                1
            } else {
                proof {
                    lemma_pow10_monotonic(j as nat, 19);
                }
                let dd_exec = 6 * pow10_exec(j as u32);
                (m + dd_exec - 1) / dd_exec
            };
            proof {
                assert(num == -m);
                lemma_neg_div(m as int, dd);
                lemma_neg_mod(c as int, HUE_TURN as int);
                assert(0 <= c <= m + dd);
            }
            ((HUE_TURN as u128) - c % (HUE_TURN as u128)) % (HUE_TURN as u128)
        };
        y_mod as u64
    }
}

} // verus!
