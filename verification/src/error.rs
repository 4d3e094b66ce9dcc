use vstd::prelude::*;
use vstd::arithmetic::div_mod::{lemma_div_denominator, lemma_fundamental_div_mod};
use vstd::string::StringExecFns;

use crate::color_mix::MixRequest;
use crate::number::{lemma_pow10_positive, pow10};

verus! {

/// The errors that color parsing can report.
///
/// Positions are 1-based character positions in the parsed text.
#[derive(Clone, Copy, PartialEq, Eq, Debug, Structural)]
pub enum Error {
    /// The text ended where more input was needed.
    UnexpectedEndOfStream,
    /// A color was followed by data that is not whitespace.
    UnexpectedData(usize),
    /// The text does not denote a supported color.
    InvalidValue,
    /// A byte other than the expected one was found: (found, expected, position).
    InvalidChar(u8, u8, usize),
    /// A number was expected and could not be read.
    InvalidNumber(usize),
    /// A `color-mix()` in a color space other than sRGB was met, with weight
    /// on a visible color, and no mixed color was supplied for it. Its red,
    /// green and blue go through conversions this library does not compute
    /// (roots and powers for Lab, Oklab, LCH, OkLCH and linear sRGB; the
    /// f32 conversions of palette for HSL and HWB).
    UnresolvedColorMix(MixRequest),
}


/// The character of an ASCII digit value.
pub open spec fn digit_char(d: nat) -> char {
    (48 + d) as char
}

/// The decimal representation of `n`, without leading zeros.
pub open spec fn decimal_chars(n: nat) -> Seq<char>
    decreases n,
{
    if n < 10 {
        seq![digit_char(n)]
    } else {
        decimal_chars(n / 10).push(digit_char(n % 10))
    }
}

/// The one-character string of a decimal digit.
fn digit_str(d: usize) -> (s: &'static str)
    requires
        d < 10,
    ensures
        s@ == seq![digit_char(d as nat)],
{
    match d {
        0 => {
            proof {
                reveal_strlit("0");
            }
            "0"
        },
        1 => {
            proof {
                reveal_strlit("1");
            }
            "1"
        },
        2 => {
            proof {
                reveal_strlit("2");
            }
            "2"
        },
        3 => {
            proof {
                reveal_strlit("3");
            }
            "3"
        },
        4 => {
            proof {
                reveal_strlit("4");
            }
            "4"
        },
        5 => {
            proof {
                reveal_strlit("5");
            }
            "5"
        },
        6 => {
            proof {
                reveal_strlit("6");
            }
            "6"
        },
        7 => {
            proof {
                reveal_strlit("7");
            }
            "7"
        },
        8 => {
            proof {
                reveal_strlit("8");
            }
            "8"
        },
        _ => {
            proof {
                reveal_strlit("9");
            }
            "9"
        },
    }
}

proof fn lemma_decimal_step(n: int, q: int)
    requires
        n >= 0,
        q >= 1,
        n / (q * 10) >= 1,
    ensures
        (n / q) / 10 == n / (q * 10),
        n / q >= 10,
{
    lemma_div_denominator(n, q, 10);
    lemma_fundamental_div_mod(n / q, 10);
}

/// The decimal digits of `n`, as `n.to_string()` writes them.
fn usize_to_string(n: usize) -> (s: String)
    ensures
        s@ == decimal_chars(n as nat),
{
    // The largest power of ten not above `n` (1 for `n < 10`).
    let mut p: usize = 1;
    let ghost mut k: nat = 0;
    while n / p >= 10
        invariant
            p == pow10(k),
            p >= 1,
            k == 0 || n / p >= 1,
        decreases n / p,
    {
        proof {
            lemma_fundamental_div_mod(n as int, p as int);
            assert(p * 10 <= n) by (nonlinear_arith)
                requires
                    n / p >= 10,
                    p >= 1,
                    n == p * (n / p) + n % p,
                    n % p >= 0,
            ;
            lemma_div_denominator(n as int, p as int, 10);
        }
        p = p * 10;
        proof {
            k = k + 1;
            assert(pow10(k) == 10 * pow10((k - 1) as nat));
        }
    }
    let mut s = String::new();
    let first = n / p;
    s.append(digit_str(first));
    proof {
        assert(s@ =~= decimal_chars(first as nat));
    }
    while p > 1
        invariant
            p == pow10(k),
            p >= 1,
            k == 0 || n / p >= 1,
            s@ == decimal_chars((n / p) as nat),
        decreases p,
    {
        proof {
            assert(k > 0);
            assert(p == 10 * pow10((k - 1) as nat));
            lemma_pow10_positive((k - 1) as nat);
            lemma_decimal_step(n as int, pow10((k - 1) as nat) as int);
        }
        p = p / 10;
        proof {
            k = (k - 1) as nat;
        }
        let q = n / p;
        let d = q % 10;
        s.append(digit_str(d));
        proof {
            assert(s@ =~= decimal_chars(q as nat));
        }
    }
    assert(p == 1);
    assert(n / p == n);
    s
}

/// `(b as char).to_string()` (std's `Display` for `char`): the one character
/// whose code is the byte.
#[verifier::external_body]
fn byte_char_to_string(b: u8) -> (s: String)
    ensures
        s@ == seq![b as char],
{
    (b as char).to_string()
}

impl Error {
    /// The text of the error.
    pub open spec fn message(&self) -> Seq<char> {
        match *self {
            Error::UnexpectedEndOfStream => "unexpected end of stream"@,
            Error::UnexpectedData(pos) => "unexpected data at position "@ + decimal_chars(
                pos as nat,
            ),
            Error::InvalidValue => "invalid value"@,
            Error::InvalidChar(found, expected, pos) => "expected '"@ + seq![expected as char]
                + "' not '"@ + seq![found as char] + "' at position "@ + decimal_chars(pos as nat),
            Error::InvalidNumber(pos) => "invalid number at position "@ + decimal_chars(pos as nat),
            Error::UnresolvedColorMix(_) => "no mixed color supplied for color-mix()"@,
        }
    }

    /// The text of the error.
    pub fn to_string(&self) -> (s: String)
        ensures
            s@ == self.message(),
    {
        match *self {
            Error::UnexpectedEndOfStream => String::from_str("unexpected end of stream"),
            Error::UnexpectedData(pos) => {
                let mut s = String::from_str("unexpected data at position ");
                let n = usize_to_string(pos);
                s.append(n.as_str());
                s
            },
            Error::InvalidValue => String::from_str("invalid value"),
            Error::InvalidChar(found, expected, pos) => {
                let mut s = String::from_str("expected '");
                let e = byte_char_to_string(expected);
                s.append(e.as_str());
                s.append("' not '");
                let f = byte_char_to_string(found);
                s.append(f.as_str());
                s.append("' at position ");
                let n = usize_to_string(pos);
                s.append(n.as_str());
                s
            },
            Error::InvalidNumber(pos) => {
                let mut s = String::from_str("invalid number at position ");
                let n = usize_to_string(pos);
                s.append(n.as_str());
                s
            },
            Error::UnresolvedColorMix(_) => String::from_str(
                "no mixed color supplied for color-mix()",
            ),
        }
    }
}

} // verus!
