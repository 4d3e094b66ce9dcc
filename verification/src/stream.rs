use vstd::prelude::*;
use vstd::string::StrSliceExecFns;
use vstd::string::StringSliceAdditionalSpecFns;

use crate::color::Color;
use crate::error::Error;

verus! {

/// Whitespace as SVG reads it: space, tab, line feed, carriage return.
pub open spec fn is_space(b: u8) -> bool {
    b == 0x20 || b == 0x09 || b == 0x0a || b == 0x0d
}

/// An ASCII decimal digit.
pub open spec fn is_digit(b: u8) -> bool {
    0x30 <= b <= 0x39
}

/// An ASCII hexadecimal digit, either case.
pub open spec fn is_hex_digit(b: u8) -> bool {
    is_digit(b) || (0x61 <= b <= 0x66) || (0x41 <= b <= 0x46)
}

/// A byte of an ASCII identifier: digit, letter, `-` or `_`.
pub open spec fn is_ident_byte(b: u8) -> bool {
    is_digit(b) || (0x41 <= b <= 0x5a) || (0x61 <= b <= 0x7a) || b == 0x2d || b == 0x5f
}

/// A UTF-8 continuation byte (it does not begin a character).
pub open spec fn is_continuation(b: u8) -> bool {
    0x80 <= b < 0xc0
}

/// ASCII lowercase of one byte.
pub open spec fn lower_byte(b: u8) -> u8 {
    if 0x41 <= b <= 0x5a {
        (b + 32) as u8
    } else {
        b
    }
}

/// ASCII lowercase of a byte string.
pub open spec fn lower(s: Seq<u8>) -> Seq<u8> {
    s.map_values(|b: u8| lower_byte(b))
}

/// The classes of bytes that the parser skips over in runs.
#[derive(Clone, Copy, Debug, PartialEq, Eq, Structural)]
pub enum ByteClass {
    Space,
    Digit,
    HexDigit,
    Ident,
}

pub open spec fn in_class(c: ByteClass, b: u8) -> bool {
    match c {
        ByteClass::Space => is_space(b),
        ByteClass::Digit => is_digit(b),
        ByteClass::HexDigit => is_hex_digit(b),
        ByteClass::Ident => is_ident_byte(b),
    }
}

/// The end of the run of bytes of class `c` that starts at `p`.
pub open spec fn skip_class(t: Seq<u8>, p: int, c: ByteClass) -> int
    decreases t.len() - p,
{
    if 0 <= p < t.len() && in_class(c, t[p]) {
        skip_class(t, p + 1, c)
    } else {
        p
    }
}

/// The first position at or after `p` that does not hold whitespace.
pub open spec fn skip_spaces_from(t: Seq<u8>, p: int) -> int {
    skip_class(t, p, ByteClass::Space)
}

/// The number of characters that begin before byte position `p`.
pub open spec fn char_count(t: Seq<u8>, p: int) -> int
    decreases p,
{
    if p <= 0 {
        0
    } else {
        char_count(t, p - 1) + if is_continuation(t[p - 1]) {
            0int
        } else {
            1int
        }
    }
}

/// The 1-based character position of byte position `p`.
pub open spec fn char_pos(t: Seq<u8>, p: int) -> int {
    1 + char_count(t, p)
}

pub proof fn lemma_skip_class(t: Seq<u8>, p: int, c: ByteClass)
    requires
        0 <= p <= t.len(),
    ensures
        p <= skip_class(t, p, c) <= t.len(),
        skip_class(t, p, c) == t.len() || !in_class(c, t[skip_class(t, p, c)]),
        forall|i: int| p <= i < skip_class(t, p, c) ==> in_class(c, #[trigger] t[i]),
    decreases t.len() - p,
{
    if p < t.len() && in_class(c, t[p]) {
        lemma_skip_class(t, p + 1, c);
    }
}

pub proof fn lemma_char_count_bounds(t: Seq<u8>, p: int)
    requires
        0 <= p,
    ensures
        0 <= char_count(t, p) <= p,
    decreases p,
{
    if p > 0 {
        lemma_char_count_bounds(t, p - 1);
    }
}

/// A cursor over the bytes of a text.
///
/// A stream also holds the mixed colors that a caller supplies for the
/// `color-mix()` expressions the library cannot evaluate exactly; they are
/// taken in the order the parser meets those expressions.
pub struct Stream {
    text: Vec<u8>,
    pos: usize,
    mixes: Vec<Color>,
    used: usize,
}

impl Stream {
    /// The bytes of the text.
    pub closed spec fn bytes(&self) -> Seq<u8> {
        self.text@
    }

    /// The current byte position.
    pub closed spec fn position(&self) -> int {
        self.pos as int
    }

    /// The supplied mixed colors.
    pub closed spec fn answers(&self) -> Seq<Color> {
        self.mixes@
    }

    /// How many supplied mixed colors have been taken.
    pub closed spec fn answers_used(&self) -> int {
        self.used as int
    }

    pub open spec fn wf(&self) -> bool {
        &&& 0 <= self.position() <= self.bytes().len()
        &&& self.bytes().len() < usize::MAX
        &&& 0 <= self.answers_used() <= self.answers().len()
    }

    /// Both streams read the same text with the same supplied colors.
    pub open spec fn same_input(&self, other: &Stream) -> bool {
        self.bytes() == other.bytes() && self.answers() == other.answers()
    }

    /// A stream at the start of `text` with no supplied mixed colors.
    pub fn from_text(text: &str) -> (s: Stream)
        requires
            text.spec_bytes().len() < usize::MAX,
        ensures
            s.wf(),
            s.bytes() == text.spec_bytes(),
            s.position() == 0,
            s.answers() == Seq::<Color>::empty(),
            s.answers_used() == 0,
    {
        Stream { text: text.as_bytes_vec(), pos: 0, mixes: Vec::new(), used: 0 }
    }

    /// A stream at the start of `text` that takes the colors of the
    /// `color-mix()` expressions it cannot evaluate from `answers`, in order.
    pub fn with_answers(text: &str, answers: Vec<Color>) -> (s: Stream)
        requires
            text.spec_bytes().len() < usize::MAX,
        ensures
            s.wf(),
            s.bytes() == text.spec_bytes(),
            s.position() == 0,
            s.answers() == answers@,
            s.answers_used() == 0,
    {
        Stream { text: text.as_bytes_vec(), pos: 0, mixes: answers, used: 0 }
    }

    /// A copy of the stream.
    pub fn copy(&self) -> (s: Stream)
        ensures
            s.bytes() == self.bytes(),
            s.position() == self.position(),
            s.answers() == self.answers(),
            s.answers_used() == self.answers_used(),
    {
        Stream {
            text: self.text.clone(),
            pos: self.pos,
            mixes: self.mixes.clone(),
            used: self.used,
        }
    }

    /// The current byte position.
    pub fn pos(&self) -> (p: usize)
        ensures
            p == self.position(),
    {
        self.pos
    }

    /// The length of the text in bytes.
    pub fn len(&self) -> (n: usize)
        ensures
            n == self.bytes().len(),
    {
        self.text.len()
    }

    /// Whether the stream is at the end of the text.
    pub fn at_end(&self) -> (b: bool)
        requires
            self.wf(),
        ensures
            b == (self.position() >= self.bytes().len()),
    {
        self.pos >= self.text.len()
    }

    /// The byte at position `i`.
    pub fn byte_at(&self, i: usize) -> (b: u8)
        requires
            i < self.bytes().len(),
        ensures
            b == self.bytes()[i as int],
    {
        self.text[i]
    }

    /// The current byte, or an error at the end of the text.
    pub fn curr_byte(&self) -> (r: Result<u8, Error>)
        requires
            self.wf(),
        ensures
            self.position() < self.bytes().len() ==> r == Ok::<u8, Error>(
                self.bytes()[self.position()],
            ),
            self.position() >= self.bytes().len() ==> r == Err::<u8, Error>(
                Error::UnexpectedEndOfStream,
            ),
    {
        if self.pos >= self.text.len() {
            Err(Error::UnexpectedEndOfStream)
        } else {
            Ok(self.text[self.pos])
        }
    }

    /// Whether the current byte is `c` (false at the end of the text).
    pub fn is_curr_byte_eq(&self, c: u8) -> (b: bool)
        requires
            self.wf(),
        ensures
            b == (self.position() < self.bytes().len() && self.bytes()[self.position()] == c),
    {
        self.pos < self.text.len() && self.text[self.pos] == c
    }

    /// Whether the rest of the text starts with the byte `c`.
    pub fn starts_with_byte(&self, c: u8) -> (b: bool)
        requires
            self.wf(),
        ensures
            b == (self.position() < self.bytes().len() && self.bytes()[self.position()] == c),
    {
        self.is_curr_byte_eq(c)
    }

    /// Moves forward by `n` bytes.
    pub fn advance(&mut self, n: usize)
        requires
            old(self).wf(),
            old(self).position() + n <= old(self).bytes().len(),
        ensures
            final(self).wf(),
            final(self).same_input(old(self)),
            final(self).answers_used() == old(self).answers_used(),
            final(self).position() == old(self).position() + n,
    {
        self.pos = self.pos + n;
    }

    /// Moves to the end of the run of bytes of class `c`.
    pub fn skip_class(&mut self, c: ByteClass)
        requires
            old(self).wf(),
        ensures
            final(self).wf(),
            final(self).same_input(old(self)),
            final(self).answers_used() == old(self).answers_used(),
            final(self).position() == skip_class(
                old(self).bytes(),
                old(self).position(),
                c,
            ),
            old(self).position() <= final(self).position(),
    {
        proof {
            lemma_skip_class(self.text@, self.pos as int, c);
        }
        while self.pos < self.text.len() && byte_in_class(c, self.text[self.pos])
            invariant
                self.wf(),
                self.text@ == old(self).text@,
                self.mixes@ == old(self).mixes@,
                self.used == old(self).used,
                old(self).pos <= self.pos,
                skip_class(self.text@, self.pos as int, c) == skip_class(
                    old(self).text@,
                    old(self).pos as int,
                    c,
                ),
            decreases self.text.len() - self.pos,
        {
            self.pos = self.pos + 1;
        }
    }

    /// Skips whitespace.
    pub fn skip_spaces(&mut self)
        requires
            old(self).wf(),
        ensures
            final(self).wf(),
            final(self).same_input(old(self)),
            final(self).answers_used() == old(self).answers_used(),
            final(self).position() == skip_spaces_from(old(self).bytes(), old(self).position()),
            old(self).position() <= final(self).position(),
    {
        self.skip_class(ByteClass::Space)
    }

    /// Consumes the byte `c`, or reports what stands in its place.
    pub fn consume_byte(&mut self, c: u8) -> (r: Result<(), Error>)
        requires
            old(self).wf(),
        ensures
            final(self).wf(),
            final(self).same_input(old(self)),
            final(self).answers_used() == old(self).answers_used(),
            r == consume_byte_result(old(self).bytes(), old(self).position(), c).0,
            final(self).position() == consume_byte_result(
                old(self).bytes(),
                old(self).position(),
                c,
            ).1,
            old(self).position() <= final(self).position(),
    {
        if self.pos >= self.text.len() {
            return Err(Error::UnexpectedEndOfStream);
        }
        let b = self.text[self.pos];
        if b != c {
            let p = self.calc_char_pos();
            return Err(Error::InvalidChar(b, c, p));
        }
        self.pos = self.pos + 1;
        Ok(())
    }

    /// The 1-based character position of the current byte.
    pub fn calc_char_pos(&self) -> (n: usize)
        requires
            self.wf(),
        ensures
            n == char_pos(self.bytes(), self.position()),
    {
        self.calc_char_pos_at(self.pos)
    }

    /// The 1-based character position of byte position `byte_pos`.
    pub fn calc_char_pos_at(&self, byte_pos: usize) -> (n: usize)
        requires
            self.wf(),
            byte_pos <= self.bytes().len(),
        ensures
            n == char_pos(self.bytes(), byte_pos as int),
    {
        let mut count: usize = 0;
        let mut i: usize = 0;
        while i < byte_pos
            invariant
                self.wf(),
                i <= byte_pos <= self.text.len(),
                count == char_count(self.text@, i as int),
            decreases byte_pos - i,
        {
            proof {
                lemma_char_count_bounds(self.text@, i as int);
            }
            if !(0x80 <= self.text[i] && self.text[i] < 0xc0) {
                count = count + 1;
            }
            i = i + 1;
        }
        proof {
            lemma_char_count_bounds(self.text@, byte_pos as int);
        }
        count + 1
    }

    /// Consumes the run of identifier bytes and returns it in ASCII lowercase.
    pub fn consume_ascii_ident_lowercase(&mut self) -> (name: Vec<u8>)
        requires
            old(self).wf(),
        ensures
            final(self).wf(),
            final(self).same_input(old(self)),
            final(self).answers_used() == old(self).answers_used(),
            final(self).position() == skip_class(
                old(self).bytes(),
                old(self).position(),
                ByteClass::Ident,
            ),
            name@ == lower(
                old(self).bytes().subrange(old(self).position(), final(self).position()),
            ),
    {
        let start = self.pos;
        proof {
            lemma_skip_class(self.text@, self.pos as int, ByteClass::Ident);
        }
        self.skip_class(ByteClass::Ident);
        let end = self.pos;
        let mut name: Vec<u8> = Vec::new();
        let mut i: usize = start;
        while i < end
            invariant
                start <= i <= end <= self.text.len(),
                name@ == lower(self.text@.subrange(start as int, i as int)),
            decreases end - i,
        {
            let b = self.text[i];
            let l = if 0x41 <= b && b <= 0x5a {
                b + 32
            } else {
                b
            };
            name.push(l);
            i = i + 1;
            assert(name@ =~= lower(self.text@.subrange(start as int, i as int)));
        }
        name
    }

    /// Takes the next supplied mixed color, if one is left.
    pub fn take_answer(&mut self) -> (r: Option<Color>)
        requires
            old(self).wf(),
        ensures
            final(self).wf(),
            final(self).same_input(old(self)),
            final(self).position() == old(self).position(),
            old(self).answers_used() < old(self).answers().len() ==> {
                &&& r == Some(old(self).answers()[old(self).answers_used()])
                &&& final(self).answers_used() == old(self).answers_used() + 1
            },
            old(self).answers_used() >= old(self).answers().len() ==> {
                &&& r == None::<Color>
                &&& final(self).answers_used() == old(self).answers_used()
            },
    {
        if self.used < self.mixes.len() {
            let c = self.mixes[self.used];
            self.used = self.used + 1;
            Some(c)
        } else {
            None
        }
    }
}

/// The outcome of consuming byte `c` at position `p`: the result and the
/// position after it.
pub open spec fn consume_byte_result(t: Seq<u8>, p: int, c: u8) -> (Result<(), Error>, int) {
    if p >= t.len() {
        (Err(Error::UnexpectedEndOfStream), p)
    } else if t[p] != c {
        (Err(Error::InvalidChar(t[p], c, char_pos(t, p) as usize)), p)
    } else {
        (Ok(()), p + 1)
    }
}

/// Whether `b` belongs to class `c`.
pub fn byte_in_class(c: ByteClass, b: u8) -> (r: bool)
    ensures
        r == in_class(c, b),
{
    let digit = 0x30 <= b && b <= 0x39;
    match c {
        ByteClass::Space => b == 0x20 || b == 0x09 || b == 0x0a || b == 0x0d,
        ByteClass::Digit => digit,
        ByteClass::HexDigit => digit || (0x61 <= b && b <= 0x66) || (0x41 <= b && b <= 0x46),
        ByteClass::Ident => digit || (0x41 <= b && b <= 0x5a) || (0x61 <= b && b <= 0x7a) || b
            == 0x2d || b == 0x5f,
    }
}

} // verus!
