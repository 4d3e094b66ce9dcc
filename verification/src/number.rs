use vstd::prelude::*;

use crate::error::Error;
use crate::stream::{char_pos, is_digit, lemma_skip_class, skip_class, skip_spaces_from, ByteClass, Stream};

verus! {

/// A decimal number read from the text: `(-1)^negative * mantissa * 10^exponent`.
///
/// The mantissa holds the first `MANTISSA_DIGITS` significant digits of the
/// number's text; later digits are dropped (truncation toward zero). The
/// exponent is clamped to `[-EXPONENT_LIMIT, EXPONENT_LIMIT]`: beyond that
/// range every number is either too large to be finite or too small to change
/// any computed color.
#[derive(Clone, Copy, Debug, PartialEq, Eq, Structural)]
pub struct Number {
    pub negative: bool,
    pub mantissa: u64,
    pub exponent: i64,
}

impl Number {
    /// The mantissa has at most `MANTISSA_DIGITS` digits and the exponent
    /// lies within the clamp.
    pub open spec fn wf(&self) -> bool {
        &&& self.mantissa < pow10(MANTISSA_DIGITS as nat)
        &&& -EXPONENT_LIMIT <= self.exponent <= EXPONENT_LIMIT
    }
}

/// How many significant digits a number keeps.
pub const MANTISSA_DIGITS: u64 = 18;

/// The clamp applied to a number's decimal exponent.
pub const EXPONENT_LIMIT: i64 = 1_000_000_000_000_000;

/// Exponent digits are read saturating at this value (2^65).
pub const EXPONENT_TEXT_CAP: u128 = 0x2_0000_0000_0000_0000;

pub open spec fn pow10(n: nat) -> nat
    decreases n,
{
    if n == 0 {
        1
    } else {
        10 * pow10((n - 1) as nat)
    }
}

/// The value of an ASCII digit.
pub open spec fn digit_of(b: u8) -> int {
    b as int - 0x30
}

/// Reading the significant digits of a digit string from the left: leading
/// zeros are skipped, the first `MANTISSA_DIGITS` significant digits are
/// accumulated, and the digits after them are counted.
/// The result is (mantissa, significant digits kept, digits dropped).
pub open spec fn sig_fold(s: Seq<u8>) -> (int, int, int)
    decreases s.len(),
{
    if s.len() == 0 {
        (0, 0, 0)
    } else {
        let prev = sig_fold(s.drop_last());
        let d = digit_of(s.last());
        if prev.1 == 0 && d == 0 {
            (0, 0, 0)
        } else if prev.1 < MANTISSA_DIGITS {
            (prev.0 * 10 + d, prev.1 + 1, prev.2)
        } else {
            (prev.0, prev.1, prev.2 + 1)
        }
    }
}

/// The value of the exponent's digits, read saturating at `EXPONENT_TEXT_CAP`.
pub open spec fn exp_fold(s: Seq<u8>) -> int
    decreases s.len(),
{
    if s.len() == 0 {
        0
    } else {
        let v = exp_fold(s.drop_last()) * 10 + digit_of(s.last());
        if v > EXPONENT_TEXT_CAP {
            EXPONENT_TEXT_CAP as int
        } else {
            v
        }
    }
}

/// Where the lexer finds the parts of a number that starts at byte `q`.
pub struct NumberScan {
    /// The text has the shape of a number.
    pub ok: bool,
    /// The position where scanning stopped.
    pub end: int,
    pub negative: bool,
    pub int_start: int,
    pub int_end: int,
    pub frac_start: int,
    pub frac_end: int,
    pub has_exp: bool,
    pub exp_negative: bool,
    pub exp_start: int,
    pub exp_end: int,
}

pub open spec fn scan_fail(end: int) -> NumberScan {
    NumberScan {
        ok: false,
        end,
        negative: false,
        int_start: 0,
        int_end: 0,
        frac_start: 0,
        frac_end: 0,
        has_exp: false,
        exp_negative: false,
        exp_start: 0,
        exp_end: 0,
    }
}

pub open spec fn is_sign(b: u8) -> bool {
    b == 0x2b || b == 0x2d
}

/// The lexer for numbers: an optional sign, digits and/or a fraction, and an
/// optional exponent (`e`/`E` not followed by `m` or `x`, which begin the
/// units `em` and `ex`).
pub open spec fn number_scan(t: Seq<u8>, q: int) -> NumberScan {
    let p1 = if is_sign(t[q]) {
        q + 1
    } else {
        q
    };
    if p1 >= t.len() {
        scan_fail(p1)
    } else if !(is_digit(t[p1]) || t[p1] == 0x2e) {
        scan_fail(p1)
    } else {
        let p2 = if is_digit(t[p1]) {
            skip_class(t, p1, ByteClass::Digit)
        } else {
            p1
        };
        let has_dot = p2 < t.len() && t[p2] == 0x2e;
        let frac_start = if has_dot {
            p2 + 1
        } else {
            p2
        };
        let p3 = if has_dot {
            skip_class(t, p2 + 1, ByteClass::Digit)
        } else {
            p2
        };
        let mantissa_ok = p2 > p1 || p3 > frac_start;
        if p3 < t.len() && (t[p3] == 0x65 || t[p3] == 0x45) {
            if p3 + 1 >= t.len() {
                scan_fail(p3)
            } else if t[p3 + 1] == 0x6d || t[p3 + 1] == 0x78 {
                NumberScan {
                    ok: mantissa_ok,
                    end: p3,
                    negative: t[q] == 0x2d,
                    int_start: p1,
                    int_end: p2,
                    frac_start,
                    frac_end: p3,
                    has_exp: false,
                    exp_negative: false,
                    exp_start: p3,
                    exp_end: p3,
                }
            } else if is_sign(t[p3 + 1]) {
                let p4 = skip_class(t, p3 + 2, ByteClass::Digit);
                NumberScan {
                    ok: mantissa_ok && p4 > p3 + 2,
                    end: p4,
                    negative: t[q] == 0x2d,
                    int_start: p1,
                    int_end: p2,
                    frac_start,
                    frac_end: p3,
                    has_exp: true,
                    exp_negative: t[p3 + 1] == 0x2d,
                    exp_start: p3 + 2,
                    exp_end: p4,
                }
            } else if is_digit(t[p3 + 1]) {
                let p4 = skip_class(t, p3 + 1, ByteClass::Digit);
                NumberScan {
                    ok: mantissa_ok,
                    end: p4,
                    negative: t[q] == 0x2d,
                    int_start: p1,
                    int_end: p2,
                    frac_start,
                    frac_end: p3,
                    has_exp: true,
                    exp_negative: false,
                    exp_start: p3 + 1,
                    exp_end: p4,
                }
            } else {
                scan_fail(p3 + 1)
            }
        } else {
            NumberScan {
                ok: mantissa_ok,
                end: p3,
                negative: t[q] == 0x2d,
                int_start: p1,
                int_end: p2,
                frac_start,
                frac_end: p3,
                has_exp: false,
                exp_negative: false,
                exp_start: p3,
                exp_end: p3,
            }
        }
    }
}

pub open spec fn clamp_exponent(e: int) -> int {
    if e > EXPONENT_LIMIT {
        EXPONENT_LIMIT as int
    } else if e < -EXPONENT_LIMIT {
        -EXPONENT_LIMIT
    } else {
        e
    }
}

/// The number that a successful scan denotes.
pub open spec fn scan_value(t: Seq<u8>, sc: NumberScan) -> Number {
    let digits = t.subrange(sc.int_start, sc.int_end) + t.subrange(sc.frac_start, sc.frac_end);
    let sig = sig_fold(digits);
    let e = if sc.has_exp {
        exp_fold(t.subrange(sc.exp_start, sc.exp_end))
    } else {
        0
    };
    let signed_e = if sc.exp_negative {
        -e
    } else {
        e
    };
    Number {
        negative: sc.negative,
        mantissa: sig.0 as u64,
        exponent: clamp_exponent(signed_e - (sc.frac_end - sc.frac_start) + sig.2) as i64,
    }
}

/// The smallest magnitude that a 64-bit float reading rounds to infinity:
/// 2^1024 - 2^970, halfway between the largest finite double and 2^1024.
pub open spec fn f64_overflow_threshold() -> int {
    179769313486231580793728971405303415079934132710037826936173778980444968292764750946649017977587207096330286416692887910946555547851940402630657488671505820681908902000708383676273854845817711531764475730270069855571366959622842914819860834936475292719074168444365510704342711559699508093042880177904174497792int
}

/// Whether a number is finite as a 64-bit float reading of its text.
pub open spec fn number_finite(n: Number) -> bool {
    n.mantissa == 0 || n.exponent < 0 || n.mantissa * pow10(n.exponent as nat)
        < f64_overflow_threshold()
}

/// Reading a number at `p`, after optional whitespace: the result and the
/// position where reading stopped.
pub open spec fn parse_number_spec(t: Seq<u8>, p: int) -> (Result<Number, Error>, int) {
    let q = skip_spaces_from(t, p);
    if q >= t.len() {
        (Err(Error::InvalidNumber(char_pos(t, q) as usize)), q)
    } else {
        let sc = number_scan(t, q);
        if sc.ok && number_finite(scan_value(t, sc)) {
            (Ok(scan_value(t, sc)), sc.end)
        } else {
            (Err(Error::InvalidNumber(char_pos(t, q) as usize)), sc.end)
        }
    }
}

pub proof fn lemma_pow10_positive(n: nat)
    ensures
        pow10(n) >= 1,
    decreases n,
{
    if n > 0 {
        lemma_pow10_positive((n - 1) as nat);
    }
}

pub proof fn lemma_pow10_monotonic(a: nat, b: nat)
    requires
        a <= b,
    ensures
        pow10(a) <= pow10(b),
    decreases b,
{
    if a < b {
        lemma_pow10_monotonic(a, (b - 1) as nat);
        lemma_pow10_positive((b - 1) as nat);
    }
}

pub proof fn lemma_pow10_add(a: nat, b: nat)
    ensures
        pow10(a + b) == pow10(a) * pow10(b),
    decreases b,
{
    if b == 0 {
        assert(pow10(0) == 1);
        assert(a + b == a);
    } else {
        let c = (b - 1) as nat;
        lemma_pow10_add(a, c);
        assert(a + b == (a + c) + 1);
        assert(pow10(a + b) == 10 * pow10(a + c));
        assert(pow10(b) == 10 * pow10(c));
        assert(pow10(a) * (10 * pow10(c)) == 10 * (pow10(a) * pow10(c))) by (nonlinear_arith);
    }
}

proof fn lemma_threshold_facts()
    ensures
        pow10(308) < f64_overflow_threshold(),
        f64_overflow_threshold() < pow10(309),
        (179769313486231581 - 1) * pow10(291) < f64_overflow_threshold(),
        f64_overflow_threshold() <= 179769313486231581 * pow10(291),
{
    reveal_with_fuel(pow10, 20);
    assert(pow10(19) == 10000000000000000000);
    assert(pow10(4) == 10000);
    assert(pow10(6) == 1000000);
    lemma_pow10_add(19, 19);
    assert(pow10(38) == 100000000000000000000000000000000000000);
    lemma_pow10_add(38, 38);
    assert(pow10(76) == 10000000000000000000000000000000000000000000000000000000000000000000000000000);
    lemma_pow10_add(76, 76);
    assert(pow10(152) == 100000000000000000000000000000000000000000000000000000000000000000000000000000000000000000000000000000000000000000000000000000000000000000000000000000000);
    lemma_pow10_add(152, 152);
    assert(pow10(304) == 10000000000000000000000000000000000000000000000000000000000000000000000000000000000000000000000000000000000000000000000000000000000000000000000000000000000000000000000000000000000000000000000000000000000000000000000000000000000000000000000000000000000000000000000000000000000000000000000000000000000000000);
    lemma_pow10_add(304, 4);
    assert(pow10(308) == 100000000000000000000000000000000000000000000000000000000000000000000000000000000000000000000000000000000000000000000000000000000000000000000000000000000000000000000000000000000000000000000000000000000000000000000000000000000000000000000000000000000000000000000000000000000000000000000000000000000000000000000);
    assert(pow10(1) == 10);
    lemma_pow10_add(308, 1);
    assert(pow10(309) == 1000000000000000000000000000000000000000000000000000000000000000000000000000000000000000000000000000000000000000000000000000000000000000000000000000000000000000000000000000000000000000000000000000000000000000000000000000000000000000000000000000000000000000000000000000000000000000000000000000000000000000000000);
    lemma_pow10_add(152, 76);
    assert(pow10(228) == 1000000000000000000000000000000000000000000000000000000000000000000000000000000000000000000000000000000000000000000000000000000000000000000000000000000000000000000000000000000000000000000000000000000000000000000000000000000000000);
    lemma_pow10_add(228, 38);
    assert(pow10(266) == 100000000000000000000000000000000000000000000000000000000000000000000000000000000000000000000000000000000000000000000000000000000000000000000000000000000000000000000000000000000000000000000000000000000000000000000000000000000000000000000000000000000000000000000000000);
    lemma_pow10_add(266, 19);
    assert(pow10(285) == 1000000000000000000000000000000000000000000000000000000000000000000000000000000000000000000000000000000000000000000000000000000000000000000000000000000000000000000000000000000000000000000000000000000000000000000000000000000000000000000000000000000000000000000000000000000000000000000000);
    lemma_pow10_add(285, 6);
    assert(pow10(291) == 1000000000000000000000000000000000000000000000000000000000000000000000000000000000000000000000000000000000000000000000000000000000000000000000000000000000000000000000000000000000000000000000000000000000000000000000000000000000000000000000000000000000000000000000000000000000000000000000000000);
}

/// `10^k` for `k <= 38`.
pub fn pow10_u128(k: u32) -> (r: u128)
    requires
        k <= 38,
    ensures
        r == pow10(k as nat),
{
    let mut r: u128 = 1;
    let mut i: u32 = 0;
    while i < k
        invariant
            i <= k <= 38,
            r == pow10(i as nat),
        decreases k - i,
    {
        proof {
            lemma_pow10_monotonic((i + 1) as nat, 38);
            reveal_with_fuel(pow10, 40);
        }
        r = r * 10;
        i = i + 1;
    }
    r
}

/// Whether `n` is finite as a 64-bit float reading of its text.
pub fn is_finite(n: &Number) -> (b: bool)
    requires
        n.wf(),
    ensures
        b == number_finite(*n),
{
    proof {
        lemma_threshold_facts();
    }
    if n.mantissa == 0 || n.exponent < 0 {
        return true;
    }
    let ghost e = n.exponent as nat;
    if n.exponent <= 290 {
        proof {
            lemma_pow10_monotonic(e, 290);
            lemma_pow10_add(18, 290);
            reveal_with_fuel(pow10, 20);
            lemma_pow10_positive(290);
            assert(n.mantissa * pow10(e) < pow10(18) * pow10(290)) by (nonlinear_arith)
                requires
                    pow10(e) <= pow10(290),
                    n.mantissa < pow10(18),
                    pow10(290) >= 1,
            ;
        }
        return true;
    }
    if n.exponent >= 309 {
        proof {
            lemma_pow10_monotonic(309, e);
            assert(n.mantissa * pow10(e) >= pow10(e)) by (nonlinear_arith)
                requires
                    n.mantissa >= 1,
            ;
        }
        return false;
    }
    let k = (n.exponent - 291) as u32;
    proof {
        lemma_pow10_monotonic(k as nat, 17);
        reveal_with_fuel(pow10, 20);
        assert((n.mantissa as int) * pow10(k as nat) < 100000000000000000000000000000000000) by (nonlinear_arith)
            requires
                pow10(k as nat) <= pow10(17),
                pow10(17) == 100000000000000000,
                n.mantissa < 1000000000000000000,
                pow10(k as nat) >= 1,
        ;
    }
    let scaled = (n.mantissa as u128) * pow10_u128(k);
    proof {
        lemma_pow10_add(k as nat, 291);
        assert(n.mantissa * pow10(e) == scaled * pow10(291)) by (nonlinear_arith)
            requires
                pow10(e) == pow10(k as nat) * pow10(291),
                scaled == n.mantissa * pow10(k as nat),
        ;
        if scaled < 179769313486231581 {
            assert(scaled * pow10(291) <= (179769313486231581 - 1) * pow10(291)) by (
            nonlinear_arith)
                requires
                    scaled <= 179769313486231581 - 1,
            ;
        } else {
            assert(scaled * pow10(291) >= 179769313486231581 * pow10(291)) by (nonlinear_arith)
                requires
                    scaled >= 179769313486231581,
            ;
        }
    }
    scaled < 179769313486231581
}


pub proof fn lemma_sig_fold_bounds(s: Seq<u8>)
    requires
        forall|i: int| 0 <= i < s.len() ==> is_digit(#[trigger] s[i]),
    ensures
        0 <= sig_fold(s).1 <= MANTISSA_DIGITS,
        0 <= sig_fold(s).0 < pow10(sig_fold(s).1 as nat),
        0 <= sig_fold(s).2 <= s.len(),
    decreases s.len(),
{
    if s.len() > 0 {
        let t = s.drop_last();
        assert forall|i: int| 0 <= i < t.len() implies is_digit(#[trigger] t[i]) by {
            assert(t[i] == s[i]);
        }
        lemma_sig_fold_bounds(t);
        let prev = sig_fold(t);
        let d = digit_of(s.last());
        assert(is_digit(s[s.len() - 1]));
        if !(prev.1 == 0 && d == 0) && prev.1 < MANTISSA_DIGITS {
            assert(pow10((prev.1 + 1) as nat) == 10 * pow10(prev.1 as nat));
        }
    }
}

pub proof fn lemma_exp_fold_bounds(s: Seq<u8>)
    requires
        forall|i: int| 0 <= i < s.len() ==> is_digit(#[trigger] s[i]),
    ensures
        0 <= exp_fold(s) <= EXPONENT_TEXT_CAP,
    decreases s.len(),
{
    if s.len() > 0 {
        let t = s.drop_last();
        assert forall|i: int| 0 <= i < t.len() implies is_digit(#[trigger] t[i]) by {
            assert(t[i] == s[i]);
        }
        lemma_exp_fold_bounds(t);
        assert(is_digit(s[s.len() - 1]));
    }
}

/// The parts of a number found by the lexer, as byte positions.
pub struct ScanParts {
    pub ok: bool,
    pub negative: bool,
    pub int_start: usize,
    pub int_end: usize,
    pub frac_start: usize,
    pub frac_end: usize,
    pub has_exp: bool,
    pub exp_negative: bool,
    pub exp_start: usize,
    pub exp_end: usize,
}

impl ScanParts {
    pub open spec fn matches(&self, sc: NumberScan) -> bool {
        &&& self.negative == sc.negative
        &&& self.int_start == sc.int_start
        &&& self.int_end == sc.int_end
        &&& self.frac_start == sc.frac_start
        &&& self.frac_end == sc.frac_end
        &&& self.has_exp == sc.has_exp
        &&& self.exp_negative == sc.exp_negative
        &&& self.exp_start == sc.exp_start
        &&& self.exp_end == sc.exp_end
    }

    pub open spec fn spec_scan(&self) -> NumberScan {
        NumberScan {
            ok: self.ok,
            end: 0,
            negative: self.negative,
            int_start: self.int_start as int,
            int_end: self.int_end as int,
            frac_start: self.frac_start as int,
            frac_end: self.frac_end as int,
            has_exp: self.has_exp,
            exp_negative: self.exp_negative,
            exp_start: self.exp_start as int,
            exp_end: self.exp_end as int,
        }
    }

    /// The parts lie in the text in order and hold digits.
    pub open spec fn digits_ok(&self, t: Seq<u8>) -> bool {
        &&& self.int_start <= self.int_end <= self.frac_start <= self.frac_end <= t.len()
        &&& self.exp_start <= self.exp_end <= t.len()
        &&& forall|i: int| self.int_start <= i < self.int_end ==> is_digit(#[trigger] t[i])
        &&& forall|i: int| self.frac_start <= i < self.frac_end ==> is_digit(#[trigger] t[i])
        &&& forall|i: int| self.exp_start <= i < self.exp_end ==> is_digit(#[trigger] t[i])
    }
}

impl Stream {
    /// Reads a number after optional whitespace.
    ///
    /// On success the number is finite as a 64-bit float reading of its
    /// text; otherwise the error names the position where the number began.
    pub fn parse_number(&mut self) -> (r: Result<Number, Error>)
        requires
            old(self).wf(),
        ensures
            final(self).wf(),
            final(self).same_input(old(self)),
            final(self).answers_used() == old(self).answers_used(),
            r == parse_number_spec(old(self).bytes(), old(self).position()).0,
            final(self).position() == parse_number_spec(
                old(self).bytes(),
                old(self).position(),
            ).1,
            r matches Ok(n) ==> n.wf(),
            old(self).position() <= final(self).position(),
    {
        proof {
            lemma_parse_number_bounds(self.bytes(), self.position());
        }
        self.skip_spaces();
        let start = self.pos();
        if self.at_end() {
            let p = self.calc_char_pos_at(start);
            return Err(Error::InvalidNumber(p));
        }
        let res = self.scan_number();
        match res {
            Some(n) => Ok(n),
            None => {
                let p = self.calc_char_pos_at(start);
                Err(Error::InvalidNumber(p))
            },
        }
    }

    /// Scans a number that starts at the current byte.
    fn scan_number(&mut self) -> (r: Option<Number>)
        requires
            old(self).wf(),
            old(self).position() < old(self).bytes().len(),
        ensures
            final(self).wf(),
            final(self).same_input(old(self)),
            final(self).answers_used() == old(self).answers_used(),
            final(self).position() == number_scan(old(self).bytes(), old(self).position()).end,
            r == (if number_scan(old(self).bytes(), old(self).position()).ok && number_finite(
                scan_value(old(self).bytes(), number_scan(old(self).bytes(), old(self).position())),
            ) {
                Some(scan_value(old(self).bytes(), number_scan(old(self).bytes(), old(self).position())))
            } else {
                None
            }),
            r matches Some(n) ==> n.wf(),
    {
        let ghost t = self.bytes();
        let ghost q = self.position();
        let sc = self.scan_parts();
        if !sc.ok {
            return None;
        }
        let n = self.value_of_parts(&sc);
        if is_finite(&n) {
            Some(n)
        } else {
            None
        }
    }

    /// The lexer for numbers, run from the current byte.
    fn scan_parts(&mut self) -> (sc: ScanParts)
        requires
            old(self).wf(),
            old(self).position() < old(self).bytes().len(),
        ensures
            final(self).wf(),
            final(self).same_input(old(self)),
            final(self).answers_used() == old(self).answers_used(),
            final(self).position() == number_scan(old(self).bytes(), old(self).position()).end,
            sc.ok == number_scan(old(self).bytes(), old(self).position()).ok,
            sc.ok ==> sc.matches(number_scan(old(self).bytes(), old(self).position())),
            sc.ok ==> sc.digits_ok(old(self).bytes()),
    {
        let ghost t = self.bytes();
        let q = self.pos();
        let first = self.byte_at(q);
        let negative = first == 0x2d;
        let mut sc = ScanParts {
            ok: false,
            negative,
            int_start: 0,
            int_end: 0,
            frac_start: 0,
            frac_end: 0,
            has_exp: false,
            exp_negative: false,
            exp_start: 0,
            exp_end: 0,
        };
        if first == 0x2b || first == 0x2d {
            self.advance(1);
        }
        if self.at_end() {
            return sc;
        }
        let p1 = self.pos();
        let c = self.byte_at(p1);
        let c_digit = 0x30 <= c && c <= 0x39;
        if !(c_digit || c == 0x2e) {
            return sc;
        }
        proof {
            lemma_skip_class(t, p1 as int, ByteClass::Digit);
        }
        if c_digit {
            self.skip_class(ByteClass::Digit);
        }
        let p2 = self.pos();
        let has_dot = self.is_curr_byte_eq(0x2e);
        if has_dot {
            self.advance(1);
        }
        let frac_start = self.pos();
        proof {
            lemma_skip_class(t, frac_start as int, ByteClass::Digit);
        }
        if has_dot {
            self.skip_class(ByteClass::Digit);
        }
        let p3 = self.pos();
        let mantissa_ok = p2 > p1 || p3 > frac_start;
        sc.int_start = p1;
        sc.int_end = p2;
        sc.frac_start = frac_start;
        sc.frac_end = p3;
        sc.exp_start = p3;
        sc.exp_end = p3;
        if self.is_curr_byte_eq(0x65) || self.is_curr_byte_eq(0x45) {
            if p3 + 1 >= self.len() {
                return sc;
            }
            let c2 = self.byte_at(p3 + 1);
            if c2 == 0x6d || c2 == 0x78 {
            } else if c2 == 0x2b || c2 == 0x2d {
                self.advance(2);
                let es = self.pos();
                proof {
                    lemma_skip_class(t, es as int, ByteClass::Digit);
                }
                self.skip_class(ByteClass::Digit);
                sc.exp_start = es;
                sc.exp_end = self.pos();
                sc.has_exp = true;
                sc.exp_negative = c2 == 0x2d;
            } else if 0x30 <= c2 && c2 <= 0x39 {
                self.advance(1);
                let es = self.pos();
                proof {
                    lemma_skip_class(t, es as int, ByteClass::Digit);
                }
                self.skip_class(ByteClass::Digit);
                sc.exp_start = es;
                sc.exp_end = self.pos();
                sc.has_exp = true;
            } else {
                self.advance(1);
                return sc;
            }
        }
        sc.ok = mantissa_ok && !(sc.has_exp && sc.exp_end == sc.exp_start);
        sc
    }

    /// The number that the parts of a successful scan denote.
    fn value_of_parts(&self, sc: &ScanParts) -> (n: Number)
        requires
            self.wf(),
            sc.digits_ok(self.bytes()),
        ensures
            n == scan_value(self.bytes(), sc.spec_scan()),
            n.wf(),
    {
        let ghost t = self.bytes();
        let ghost empty = Seq::<u8>::empty();
        proof {
            lemma_sig_fold_bounds(empty);
        }
        let acc = self.fold_significant(sc.int_start, sc.int_end, (0, 0, 0), Ghost(empty));
        let ghost int_digits = t.subrange(sc.int_start as int, sc.int_end as int);
        assert(empty + int_digits =~= int_digits);
        let acc = self.fold_significant(sc.frac_start, sc.frac_end, acc, Ghost(int_digits));
        let e: u128 = if sc.has_exp {
            self.fold_exponent(sc.exp_start, sc.exp_end)
        } else {
            0
        };
        let signed: i128 = if sc.exp_negative {
            -(e as i128)
        } else {
            e as i128
        };
        let raw: i128 = signed - ((sc.frac_end - sc.frac_start) as i128) + (acc.2 as i128);
        let exponent: i64 = if raw > EXPONENT_LIMIT as i128 {
            EXPONENT_LIMIT
        } else if raw < -(EXPONENT_LIMIT as i128) {
            -EXPONENT_LIMIT
        } else {
            raw as i64
        };
        let n = Number { negative: sc.negative, mantissa: acc.0, exponent };
        proof {
            let digits = t.subrange(sc.int_start as int, sc.int_end as int) + t.subrange(
                sc.frac_start as int,
                sc.frac_end as int,
            );
            assert forall|i: int| 0 <= i < digits.len() implies is_digit(#[trigger] digits[i]) by {
                if i < sc.int_end - sc.int_start {
                    assert(digits[i] == t[sc.int_start + i]);
                } else {
                    assert(digits[i] == t[sc.frac_start + i - (sc.int_end - sc.int_start)]);
                }
            }
            lemma_sig_fold_bounds(digits);
            lemma_pow10_monotonic(sig_fold(digits).1 as nat, MANTISSA_DIGITS as nat);
        }
        n
    }

    /// Continues `sig_fold` over the digits at positions `start..end`.
    fn fold_significant(
        &self,
        start: usize,
        end: usize,
        acc: (u64, u64, usize),
        Ghost(prefix): Ghost<Seq<u8>>,
    ) -> (r: (u64, u64, usize))
        requires
            self.wf(),
            start <= end <= self.bytes().len(),
            forall|i: int| start <= i < end ==> is_digit(#[trigger] self.bytes()[i]),
            forall|i: int| 0 <= i < prefix.len() ==> is_digit(#[trigger] prefix[i]),
            prefix.len() + (end - start) <= self.bytes().len(),
            (acc.0 as int, acc.1 as int, acc.2 as int) == sig_fold(prefix),
        ensures
            (r.0 as int, r.1 as int, r.2 as int) == sig_fold(
                prefix + self.bytes().subrange(start as int, end as int),
            ),
    {
        let mut m = acc.0;
        let mut k = acc.1;
        let mut dropped = acc.2;
        let mut i = start;
        let ghost t = self.bytes();
        while i < end
            invariant
                self.wf(),
                t == self.bytes(),
                start <= i <= end <= t.len(),
                forall|j: int| start <= j < end ==> is_digit(#[trigger] t[j]),
                forall|j: int| 0 <= j < prefix.len() ==> is_digit(#[trigger] prefix[j]),
                prefix.len() + (end - start) <= t.len(),
                (m as int, k as int, dropped as int) == sig_fold(
                    prefix + t.subrange(start as int, i as int),
                ),
            decreases end - i,
        {
            let ghost s = prefix + t.subrange(start as int, i as int);
            let ghost s2 = prefix + t.subrange(start as int, (i + 1) as int);
            proof {
                assert forall|j: int| 0 <= j < s.len() implies is_digit(#[trigger] s[j]) by {
                    if j < prefix.len() {
                        assert(s[j] == prefix[j]);
                    } else {
                        assert(s[j] == t[start + j - prefix.len()]);
                    }
                }
                lemma_sig_fold_bounds(s);
                assert(s2.drop_last() =~= s);
                assert(s2.last() == t[i as int]);
                reveal_with_fuel(pow10, 20);
                if k < MANTISSA_DIGITS {
                    lemma_pow10_monotonic(k as nat, 17);
                }
            }
            let d = (self.byte_at(i) - 0x30) as u64;
            if k == 0 && d == 0 {
                m = 0;
                dropped = 0;
            } else if k < MANTISSA_DIGITS {
                m = m * 10 + d;
                k = k + 1;
            } else {
                dropped = dropped + 1;
            }
            i = i + 1;
        }
        (m, k, dropped)
    }

    /// `exp_fold` over the digits at positions `start..end`.
    fn fold_exponent(&self, start: usize, end: usize) -> (r: u128)
        requires
            self.wf(),
            start <= end <= self.bytes().len(),
            forall|i: int| start <= i < end ==> is_digit(#[trigger] self.bytes()[i]),
        ensures
            r == exp_fold(self.bytes().subrange(start as int, end as int)),
    {
        let mut e: u128 = 0;
        let mut i = start;
        let ghost t = self.bytes();
        while i < end
            invariant
                self.wf(),
                t == self.bytes(),
                start <= i <= end <= t.len(),
                forall|j: int| start <= j < end ==> is_digit(#[trigger] t[j]),
                e == exp_fold(t.subrange(start as int, i as int)),
                e <= EXPONENT_TEXT_CAP,
            decreases end - i,
        {
            proof {
                assert(t.subrange(start as int, (i + 1) as int).drop_last() =~= t.subrange(
                    start as int,
                    i as int,
                ));
            }
            let d = (self.byte_at(i) - 0x30) as u128;
            let v = e * 10 + d;
            e = if v > EXPONENT_TEXT_CAP {
                EXPONENT_TEXT_CAP
            } else {
                v
            };
            i = i + 1;
        }
        e
    }
}


/// The position after an optional list separator `,` at `p`.
pub open spec fn list_separator_end(t: Seq<u8>, p: int) -> int {
    if 0 <= p < t.len() && t[p] == 0x2c {
        p + 1
    } else {
        p
    }
}

/// Reading a number of a list: a number, whitespace, an optional `,`.
pub open spec fn parse_list_number_spec(t: Seq<u8>, p: int) -> (Result<Number, Error>, int) {
    if p >= t.len() {
        (Err(Error::UnexpectedEndOfStream), p)
    } else {
        let (r, q) = parse_number_spec(t, p);
        match r {
            Ok(n) => (Ok(n), list_separator_end(t, skip_spaces_from(t, q))),
            Err(e) => (Err(e), q),
        }
    }
}

/// Reading a number that may be followed by `%`; the flag tells whether it was.
pub open spec fn parse_number_or_percent_spec(t: Seq<u8>, p: int) -> (
    Result<(Number, bool), Error>,
    int,
) {
    let (r, q) = parse_number_spec(t, skip_spaces_from(t, p));
    match r {
        Ok(n) => if 0 <= q < t.len() && t[q] == 0x25 {
            (Ok((n, true)), q + 1)
        } else {
            (Ok((n, false)), q)
        },
        Err(e) => (Err(e), q),
    }
}

/// Reading a number or percentage of a list.
pub open spec fn parse_list_number_or_percent_spec(t: Seq<u8>, p: int) -> (
    Result<(Number, bool), Error>,
    int,
) {
    if p >= t.len() {
        (Err(Error::UnexpectedEndOfStream), p)
    } else {
        let (r, q) = parse_number_or_percent_spec(t, p);
        match r {
            Ok(v) => (Ok(v), list_separator_end(t, skip_spaces_from(t, q))),
            Err(e) => (Err(e), q),
        }
    }
}

pub proof fn lemma_number_scan_bounds(t: Seq<u8>, q: int)
    requires
        0 <= q < t.len(),
    ensures
        q <= number_scan(t, q).end <= t.len(),
{
    let p1 = if is_sign(t[q]) {
        q + 1
    } else {
        q
    };
    if p1 < t.len() {
        lemma_skip_class(t, p1, ByteClass::Digit);
        let p2 = if is_digit(t[p1]) {
            skip_class(t, p1, ByteClass::Digit)
        } else {
            p1
        };
        if p2 < t.len() {
            lemma_skip_class(t, p2 + 1, ByteClass::Digit);
        }
        let has_dot = p2 < t.len() && t[p2] == 0x2e;
        let p3 = if has_dot {
            skip_class(t, p2 + 1, ByteClass::Digit)
        } else {
            p2
        };
        if p3 + 2 <= t.len() {
            lemma_skip_class(t, p3 + 2, ByteClass::Digit);
        }
        if p3 + 1 <= t.len() {
            lemma_skip_class(t, p3 + 1, ByteClass::Digit);
        }
    }
}

pub proof fn lemma_parse_number_bounds(t: Seq<u8>, p: int)
    requires
        0 <= p <= t.len(),
    ensures
        p <= parse_number_spec(t, p).1 <= t.len(),
        parse_number_spec(t, p).0 matches Ok(n) ==> n.wf(),
{
    lemma_skip_class(t, p, ByteClass::Space);
    let q = skip_spaces_from(t, p);
    if q < t.len() {
        lemma_number_scan_bounds(t, q);
        let sc = number_scan(t, q);
        if sc.ok {
            lemma_scan_value_wf(t, q);
        }
    }
}

pub proof fn lemma_scan_value_wf(t: Seq<u8>, q: int)
    requires
        0 <= q < t.len(),
        number_scan(t, q).ok,
    ensures
        scan_value(t, number_scan(t, q)).wf(),
{
    let sc = number_scan(t, q);
    lemma_number_scan_digits(t, q);
    let digits = t.subrange(sc.int_start, sc.int_end) + t.subrange(sc.frac_start, sc.frac_end);
    assert forall|i: int| 0 <= i < digits.len() implies is_digit(#[trigger] digits[i]) by {
        if i < sc.int_end - sc.int_start {
            assert(digits[i] == t[sc.int_start + i]);
        } else {
            assert(digits[i] == t[sc.frac_start + i - (sc.int_end - sc.int_start)]);
        }
    }
    lemma_sig_fold_bounds(digits);
    lemma_pow10_monotonic(sig_fold(digits).1 as nat, MANTISSA_DIGITS as nat);
}

pub proof fn lemma_number_scan_digits(t: Seq<u8>, q: int)
    requires
        0 <= q < t.len(),
        number_scan(t, q).ok,
    ensures
        ({
            let sc = number_scan(t, q);
            &&& q <= sc.int_start <= sc.int_end <= sc.frac_start <= sc.frac_end <= t.len()
            &&& forall|i: int| sc.int_start <= i < sc.int_end ==> is_digit(#[trigger] t[i])
            &&& forall|i: int| sc.frac_start <= i < sc.frac_end ==> is_digit(#[trigger] t[i])
        }),
{
    let p1 = if is_sign(t[q]) {
        q + 1
    } else {
        q
    };
    lemma_skip_class(t, p1, ByteClass::Digit);
    let p2 = if is_digit(t[p1]) {
        skip_class(t, p1, ByteClass::Digit)
    } else {
        p1
    };
    if p2 < t.len() {
        lemma_skip_class(t, p2 + 1, ByteClass::Digit);
    }
}

impl Stream {
    /// Moves past an optional list separator `,`.
    pub fn parse_list_separator(&mut self)
        requires
            old(self).wf(),
        ensures
            final(self).wf(),
            final(self).same_input(old(self)),
            final(self).answers_used() == old(self).answers_used(),
            final(self).position() == list_separator_end(old(self).bytes(), old(self).position()),
            old(self).position() <= final(self).position(),
    {
        if self.is_curr_byte_eq(0x2c) {
            self.advance(1);
        }
    }

    /// Reads a number of a list: the number, whitespace and an optional `,`.
    pub fn parse_list_number(&mut self) -> (r: Result<Number, Error>)
        requires
            old(self).wf(),
        ensures
            final(self).wf(),
            final(self).same_input(old(self)),
            final(self).answers_used() == old(self).answers_used(),
            r == parse_list_number_spec(old(self).bytes(), old(self).position()).0,
            final(self).position() == parse_list_number_spec(
                old(self).bytes(),
                old(self).position(),
            ).1,
            r matches Ok(n) ==> n.wf(),
            old(self).position() <= final(self).position(),
    {
        if self.at_end() {
            return Err(Error::UnexpectedEndOfStream);
        }
        let n = self.parse_number()?;
        self.skip_spaces();
        self.parse_list_separator();
        Ok(n)
    }

    /// Reads a number that may be followed by `%`; the flag tells whether it was.
    pub fn parse_number_or_percent(&mut self) -> (r: Result<(Number, bool), Error>)
        requires
            old(self).wf(),
        ensures
            final(self).wf(),
            final(self).same_input(old(self)),
            final(self).answers_used() == old(self).answers_used(),
            r == parse_number_or_percent_spec(old(self).bytes(), old(self).position()).0,
            final(self).position() == parse_number_or_percent_spec(
                old(self).bytes(),
                old(self).position(),
            ).1,
            r matches Ok(v) ==> v.0.wf(),
            old(self).position() <= final(self).position(),
    {
        self.skip_spaces();
        let n = self.parse_number()?;
        if self.starts_with_byte(0x25) {
            self.advance(1);
            Ok((n, true))
        } else {
            Ok((n, false))
        }
    }

    /// Reads a number or percentage of a list.
    pub fn parse_list_number_or_percent(&mut self) -> (r: Result<(Number, bool), Error>)
        requires
            old(self).wf(),
        ensures
            final(self).wf(),
            final(self).same_input(old(self)),
            final(self).answers_used() == old(self).answers_used(),
            r == parse_list_number_or_percent_spec(old(self).bytes(), old(self).position()).0,
            final(self).position() == parse_list_number_or_percent_spec(
                old(self).bytes(),
                old(self).position(),
            ).1,
            r matches Ok(v) ==> v.0.wf(),
            old(self).position() <= final(self).position(),
    {
        if self.at_end() {
            return Err(Error::UnexpectedEndOfStream);
        }
        let v = self.parse_number_or_percent()?;
        self.skip_spaces();
        self.parse_list_separator();
        Ok(v)
    }
}

} // verus!
