//! The shapes of numbers in text: decimal literals of floating-point
//! numbers, small unsigned integers, and zero-padded rendering.
//!
//! This crate holds no floating-point value. It decides whether a text is a
//! well-formed literal and hands the text on; the caller turns it into a
//! number.

use crate::text::{is_whitespace, trimmed, trimmed_end, trimmed_start};
use vstd::prelude::*;

verus! {

/// An ASCII decimal digit.
pub open spec fn is_digit(c: char) -> bool {
    '0' <= c <= '9'
}

/// The value of an ASCII decimal digit.
pub open spec fn digit_value(c: char) -> int {
    c as int - '0' as int
}

/// A sign character.
pub open spec fn is_sign(c: char) -> bool {
    c == '+' || c == '-'
}

/// The number of digits at the start of `s`.
pub open spec fn leading_digits(s: Seq<char>) -> nat
    decreases s.len(),
{
    if s.len() > 0 && is_digit(s[0]) {
        1 + leading_digits(s.subrange(1, s.len() as int))
    } else {
        0
    }
}

/// An exponent: `e` or `E`, an optional sign, and one or more digits.
pub open spec fn is_exponent(s: Seq<char>) -> bool {
    &&& s.len() >= 2
    &&& (s[0] == 'e' || s[0] == 'E')
    &&& {
        let digits = if is_sign(s[1]) {
            s.subrange(2, s.len() as int)
        } else {
            s.subrange(1, s.len() as int)
        };
        digits.len() > 0 && leading_digits(digits) == digits.len()
    }
}

/// A decimal number: digits with an optional fraction, at least one digit on
/// either side of the point, and an optional exponent.
pub open spec fn is_decimal(s: Seq<char>) -> bool {
    let whole = leading_digits(s);
    let after_whole = s.subrange(whole as int, s.len() as int);
    let has_point = after_whole.len() > 0 && after_whole[0] == '.';
    let fraction: nat = if has_point {
        leading_digits(after_whole.subrange(1, after_whole.len() as int))
    } else {
        0
    };
    let rest = if has_point {
        after_whole.subrange(1 + fraction as int, after_whole.len() as int)
    } else {
        after_whole
    };
    whole + fraction > 0 && (rest.len() == 0 || is_exponent(rest))
}

/// The lowercase form of an ASCII letter; any other character is itself.
pub open spec fn ascii_lower(c: char) -> char {
    if 'A' <= c <= 'Z' {
        ((c as u8 + 32) as u8) as char
    } else {
        c
    }
}

/// Whether `s` and `word` agree when ASCII letters are compared without
/// regard to case.
pub open spec fn is_word(s: Seq<char>, word: Seq<char>) -> bool {
    s.len() == word.len() && forall|i: int|
        0 <= i < s.len() ==> ascii_lower(#[trigger] s[i]) == ascii_lower(word[i])
}

/// The words for infinity and not-a-number: `inf`, `infinity`, `nan`, in any
/// mix of upper and lower case.
pub open spec fn is_special(s: Seq<char>) -> bool {
    ||| is_word(s, seq!['i', 'n', 'f'])
    ||| is_word(s, seq!['i', 'n', 'f', 'i', 'n', 'i', 't', 'y'])
    ||| is_word(s, seq!['n', 'a', 'n'])
}

/// The literals of floating-point numbers: an optional sign, then a decimal
/// number or one of the special words. No whitespace, no underscores.
pub open spec fn is_float_literal(s: Seq<char>) -> bool {
    let body = if s.len() > 0 && is_sign(s[0]) {
        s.subrange(1, s.len() as int)
    } else {
        s
    };
    is_decimal(body) || is_special(body)
}

/// Tests whether `c` is an ASCII decimal digit.
pub fn char_is_digit(c: char) -> (b: bool)
    ensures
        b == is_digit(c),
{
    '0' <= c && c <= '9'
}

/// The lowercase form of `c` where it is an ASCII letter, else `c`.
pub fn char_ascii_lower(c: char) -> (r: char)
    ensures
        r == ascii_lower(c),
{
    if 'A' <= c && c <= 'Z' {
        let n: u8 = c as u8;
        (n + 32) as char
    } else {
        c
    }
}

/// Counts the digits at the start of `s[from..to]`.
pub fn count_digits(s: &Vec<char>, from: usize, to: usize) -> (n: usize)
    requires
        from <= to <= s.len(),
    ensures
        n == leading_digits(s@.subrange(from as int, to as int)),
        from + n <= to,
{
    let mut i: usize = from;
    while i < to && char_is_digit(s[i])
        invariant
            from <= i <= to <= s.len(),
            leading_digits(s@.subrange(from as int, to as int)) == (i - from) + leading_digits(
                s@.subrange(i as int, to as int),
            ),
        decreases to - i,
    {
        proof {
            let t = s@.subrange(i as int, to as int);
            assert(t.subrange(1, t.len() as int) =~= s@.subrange(i + 1, to as int));
        }
        i += 1;
    }
    i - from
}

/// Tests whether `s[from..to]` is an exponent.
pub fn check_exponent(s: &Vec<char>, from: usize, to: usize) -> (b: bool)
    requires
        from <= to <= s.len(),
    ensures
        b == is_exponent(s@.subrange(from as int, to as int)),
{
    let ghost t = s@.subrange(from as int, to as int);
    if to - from < 2 {
        return false;
    }
    if s[from] != 'e' && s[from] != 'E' {
        return false;
    }
    let c = s[from + 1];
    let start: usize = if c == '+' || c == '-' {
        from + 2
    } else {
        from + 1
    };
    proof {
        assert(t.subrange(start - from, t.len() as int) =~= s@.subrange(start as int, to as int));
    }
    let n = count_digits(s, start, to);
    start < to && n == to - start
}

/// Tests whether `s[from..to]` is a decimal number.
pub fn check_decimal(s: &Vec<char>, from: usize, to: usize) -> (b: bool)
    requires
        from <= to <= s.len(),
    ensures
        b == is_decimal(s@.subrange(from as int, to as int)),
{
    let ghost t = s@.subrange(from as int, to as int);
    let whole = count_digits(s, from, to);
    let mut at: usize = from + whole;
    let ghost after_whole = t.subrange(whole as int, t.len() as int);
    proof {
        assert(after_whole =~= s@.subrange(at as int, to as int));
    }
    let mut fraction: usize = 0;
    if at < to && s[at] == '.' {
        proof {
            assert(after_whole.subrange(1, after_whole.len() as int) =~= s@.subrange(
                at + 1,
                to as int,
            ));
        }
        fraction = count_digits(s, at + 1, to);
        proof {
            assert(after_whole.subrange(1 + fraction, after_whole.len() as int) =~= s@.subrange(
                at + 1 + fraction,
                to as int,
            ));
        }
        at = at + 1 + fraction;
    }
    if whole + fraction == 0 {
        return false;
    }
    if at == to {
        return true;
    }
    check_exponent(s, at, to)
}

/// Tests whether `s[from..to]` is one of the special words.
pub fn check_special(s: &Vec<char>, from: usize, to: usize) -> (b: bool)
    requires
        from <= to <= s.len(),
    ensures
        b == is_special(s@.subrange(from as int, to as int)),
{
    let ghost t = s@.subrange(from as int, to as int);
    let ghost inf = seq!['i', 'n', 'f'];
    let ghost infinity = seq!['i', 'n', 'f', 'i', 'n', 'i', 't', 'y'];
    let ghost nan = seq!['n', 'a', 'n'];
    let n = to - from;
    if n == 3 {
        let a = char_ascii_lower(s[from]);
        let b = char_ascii_lower(s[from + 1]);
        let c = char_ascii_lower(s[from + 2]);
        proof {
            assert(t[0] == s[from as int] && t[1] == s[from + 1] && t[2] == s[from + 2]);
            assert(!is_word(t, infinity));
            assert(is_word(t, inf) <==> (a == 'i' && b == 'n' && c == 'f'));
            assert(is_word(t, nan) <==> (a == 'n' && b == 'a' && c == 'n'));
        }
        (a == 'i' && b == 'n' && c == 'f') || (a == 'n' && b == 'a' && c == 'n')
    } else if n == 8 {
        let a = char_ascii_lower(s[from]);
        let b = char_ascii_lower(s[from + 1]);
        let c = char_ascii_lower(s[from + 2]);
        let d = char_ascii_lower(s[from + 3]);
        let e = char_ascii_lower(s[from + 4]);
        let f = char_ascii_lower(s[from + 5]);
        let g = char_ascii_lower(s[from + 6]);
        let h = char_ascii_lower(s[from + 7]);
        proof {
            assert(t[0] == s[from as int] && t[1] == s[from + 1] && t[2] == s[from + 2] && t[3]
                == s[from + 3]);
            assert(t[4] == s[from + 4] && t[5] == s[from + 5] && t[6] == s[from + 6] && t[7]
                == s[from + 7]);
            assert(!is_word(t, inf));
            assert(!is_word(t, nan));
            assert(is_word(t, infinity) <==> (a == 'i' && b == 'n' && c == 'f' && d == 'i' && e
                == 'n' && f == 'i' && g == 't' && h == 'y'));
        }
        a == 'i' && b == 'n' && c == 'f' && d == 'i' && e == 'n' && f == 'i' && g == 't' && h
            == 'y'
    } else {
        false
    }
}

/// Tests whether `s[from..to]` is the literal of a floating-point number.
pub fn check_float_literal(s: &Vec<char>, from: usize, to: usize) -> (b: bool)
    requires
        from <= to <= s.len(),
    ensures
        b == is_float_literal(s@.subrange(from as int, to as int)),
{
    let ghost t = s@.subrange(from as int, to as int);
    let start: usize = if from < to && (s[from] == '+' || s[from] == '-') {
        from + 1
    } else {
        from
    };
    proof {
        assert(t.subrange(start - from, t.len() as int) =~= s@.subrange(start as int, to as int));
        assert(t.subrange(0, t.len() as int) =~= t);
    }
    check_decimal(s, start, to) || check_special(s, start, to)
}

/// Why a text is not a small unsigned integer.
#[derive(Clone, Copy, Debug, PartialEq, Eq, Structural)]
pub enum IntegerError {
    /// The text is empty.
    Empty,
    /// A character is not a decimal digit, or a sign stands alone.
    InvalidDigit,
    /// The digits read so far exceed 255.
    PosOverflow,
}

impl IntegerError {
    /// The sentence that describes this error.
    pub open spec fn spec_message(self) -> Seq<char> {
        match self {
            IntegerError::Empty => "cannot parse integer from empty string"@,
            IntegerError::InvalidDigit => "invalid digit found in string"@,
            IntegerError::PosOverflow => "number too large to fit in target type"@,
        }
    }

    /// The sentence that describes this error.
    pub fn message(&self) -> (m: &'static str)
        ensures
            m@ == self.spec_message(),
    {
        match self {
            IntegerError::Empty => "cannot parse integer from empty string",
            IntegerError::InvalidDigit => "invalid digit found in string",
            IntegerError::PosOverflow => "number too large to fit in target type",
        }
    }
}

/// Reads the digits of `s` from left to right into the value `acc`. The
/// first character that is no digit, or the first digit that takes the value
/// above 255, ends the reading with its error.
pub open spec fn digits_value(s: Seq<char>, acc: int) -> Result<int, IntegerError>
    decreases s.len(),
{
    if s.len() == 0 {
        Ok(acc)
    } else if !is_digit(s[0]) {
        Err(IntegerError::InvalidDigit)
    } else if acc * 10 + digit_value(s[0]) > 255 {
        Err(IntegerError::PosOverflow)
    } else {
        digits_value(s.subrange(1, s.len() as int), acc * 10 + digit_value(s[0]))
    }
}

/// The value of `s` as an integer from 0 to 255: an optional `+`, then one
/// or more decimal digits.
pub open spec fn byte_value(s: Seq<char>) -> Result<u8, IntegerError> {
    if s.len() == 0 {
        Err(IntegerError::Empty)
    } else if s.len() == 1 && is_sign(s[0]) {
        Err(IntegerError::InvalidDigit)
    } else {
        let digits = if s[0] == '+' {
            s.subrange(1, s.len() as int)
        } else {
            s
        };
        match digits_value(digits, 0) {
            Ok(v) => Ok(v as u8),
            Err(e) => Err(e),
        }
    }
}

/// Reads `s[from..to]` as an integer from 0 to 255.
pub fn parse_byte(s: &Vec<char>, from: usize, to: usize) -> (r: Result<u8, IntegerError>)
    requires
        from <= to <= s.len(),
    ensures
        r == byte_value(s@.subrange(from as int, to as int)),
{
    let ghost t = s@.subrange(from as int, to as int);
    if from == to {
        return Err(IntegerError::Empty);
    }
    let first = s[from];
    if to - from == 1 && (first == '+' || first == '-') {
        return Err(IntegerError::InvalidDigit);
    }
    let start: usize = if first == '+' {
        from + 1
    } else {
        from
    };
    proof {
        assert(t.subrange(start - from, t.len() as int) =~= s@.subrange(start as int, to as int));
        assert(t.subrange(0, t.len() as int) =~= t);
    }
    let mut acc: u32 = 0;
    let mut i: usize = start;
    while i < to
        invariant
            from <= start <= i <= to <= s.len(),
            acc <= 255,
            byte_value(s@.subrange(from as int, to as int)) == (match digits_value(
                s@.subrange(start as int, to as int),
                0,
            ) {
                Ok(v) => Ok::<u8, IntegerError>(v as u8),
                Err(e) => Err(e),
            }),
            digits_value(s@.subrange(start as int, to as int), 0) == digits_value(
                s@.subrange(i as int, to as int),
                acc as int,
            ),
        decreases to - i,
    {
        let c = s[i];
        proof {
            let u = s@.subrange(i as int, to as int);
            assert(u.subrange(1, u.len() as int) =~= s@.subrange(i + 1, to as int));
        }
        if !char_is_digit(c) {
            return Err(IntegerError::InvalidDigit);
        }
        let d: u32 = c as u32 - '0' as u32;
        if acc * 10 + d > 255 {
            return Err(IntegerError::PosOverflow);
        }
        acc = acc * 10 + d;
        i += 1;
    }
    Ok(acc as u8)
}

/// The character of the decimal digit `d`.
pub open spec fn digit_char(d: int) -> char {
    ((d + 48) as u8) as char
}

/// The decimal digits of `n`, with a leading zero where `n` has one digit.
pub open spec fn padded(n: u8) -> Seq<char> {
    if n < 100 {
        seq![digit_char(n as int / 10), digit_char(n as int % 10)]
    } else {
        seq![
            digit_char(n as int / 100),
            digit_char((n as int / 10) % 10),
            digit_char(n as int % 10),
        ]
    }
}

/// Appends the decimal digits of `n` to `out`, at least two of them.
pub fn push_padded(out: &mut String, n: u8)
    ensures
        final(out)@ == old(out)@ + padded(n),
{
    if n >= 100 {
        out.push((n / 100 + 48) as char);
    }
    out.push(((n / 10) % 10 + 48) as char);
    out.push((n % 10 + 48) as char);
    assert(out@ =~= old(out)@ + padded(n));
}

/// The digits that `leading_digits` counts are digits, and what follows
/// them is none.
pub proof fn lemma_leading_digits(s: Seq<char>)
    ensures
        leading_digits(s) <= s.len(),
        forall|i: int| 0 <= i < leading_digits(s) ==> is_digit(#[trigger] s[i]),
        leading_digits(s) < s.len() ==> !is_digit(s[leading_digits(s) as int]),
    decreases s.len(),
{
    if s.len() > 0 && is_digit(s[0]) {
        let rest = s.subrange(1, s.len() as int);
        lemma_leading_digits(rest);
        assert forall|i: int| 0 <= i < leading_digits(s) implies is_digit(#[trigger] s[i]) by {
            if i > 0 {
                assert(s[i] == rest[i - 1]);
            }
        }
        if leading_digits(s) < s.len() {
            assert(s[leading_digits(s) as int] == rest[leading_digits(rest) as int]);
        }
    }
}

/// The characters that a literal of a floating-point number can begin or
/// end with: digits, signs, the point, and the letters of the special words.
pub open spec fn is_literal_end(c: char) -> bool {
    ||| is_digit(c)
    ||| is_sign(c)
    ||| c == '.'
    ||| c == 'i' || c == 'I'
    ||| c == 'n' || c == 'N'
    ||| c == 'f' || c == 'F'
    ||| c == 'y' || c == 'Y'
}

/// A literal of a floating-point number is not empty, and it begins and
/// ends with a character of a literal: not with whitespace, nor with the
/// symbol of a unit. Where it ends with a letter, it ends with one of the
/// special words.
pub proof fn lemma_float_literal_ends(s: Seq<char>)
    requires
        is_float_literal(s),
    ensures
        s.len() > 0,
        is_literal_end(s[0]),
        is_literal_end(s.last()),
        !is_sign(s.last()),
        !is_digit(s.last()) && s.last() != '.' ==> s.len() >= 3 && is_special(
            s.subrange(s.len() - 3, s.len() as int),
        ) || s.len() >= 8 && is_special(s.subrange(s.len() - 8, s.len() as int)),
{
    let signed = s.len() > 0 && is_sign(s[0]);
    let body = if signed {
        s.subrange(1, s.len() as int)
    } else {
        s
    };
    if is_special(body) {
        let inf = seq!['i', 'n', 'f'];
        let infinity = seq!['i', 'n', 'f', 'i', 'n', 'i', 't', 'y'];
        let nan = seq!['n', 'a', 'n'];
        if is_word(body, inf) {
            assert(ascii_lower(body[0]) == ascii_lower(inf[0]));
            assert(ascii_lower(body[2]) == ascii_lower(inf[2]));
        } else if is_word(body, infinity) {
            assert(ascii_lower(body[0]) == ascii_lower(infinity[0]));
            assert(ascii_lower(body[7]) == ascii_lower(infinity[7]));
        } else {
            assert(ascii_lower(body[0]) == ascii_lower(nan[0]));
            assert(ascii_lower(body[2]) == ascii_lower(nan[2]));
        }
        assert(is_literal_end(body[0]));
        assert(is_literal_end(body.last()));
        assert(body =~= s.subrange(s.len() - body.len(), s.len() as int));
    } else {
        assert(is_decimal(body));
        let whole = leading_digits(body);
        let after_whole = body.subrange(whole as int, body.len() as int);
        lemma_leading_digits(body);
        let has_point = after_whole.len() > 0 && after_whole[0] == '.';
        let after_point = after_whole.subrange(1, after_whole.len() as int);
        let fraction: nat = if has_point {
            leading_digits(after_point)
        } else {
            0
        };
        if has_point {
            lemma_leading_digits(after_point);
        }
        let rest = if has_point {
            after_whole.subrange(1 + fraction as int, after_whole.len() as int)
        } else {
            after_whole
        };
        assert(body.len() > 0);
        // The first character is a digit or the point.
        if whole > 0 {
            assert(is_digit(body[0]));
        } else {
            assert(has_point);
            assert(body[0] == after_whole[0]);
        }
        // The last character is a digit or the point.
        if rest.len() == 0 {
            if has_point {
                if fraction > 0 {
                    assert(body.last() == after_point[fraction - 1]);
                } else {
                    assert(body.last() == after_whole[0]);
                }
            } else {
                assert(body.last() == body[whole - 1]);
            }
        } else {
            assert(is_exponent(rest));
            let digits = if is_sign(rest[1]) {
                rest.subrange(2, rest.len() as int)
            } else {
                rest.subrange(1, rest.len() as int)
            };
            lemma_leading_digits(digits);
            assert(is_digit(digits[digits.len() - 1]));
            assert(digits.last() == rest.last());
            assert(rest.last() == body.last());
        }
        assert(is_literal_end(body[0]));
        assert(is_literal_end(body.last()));
    }
    if signed {
        assert(body.last() == s.last());
    }
}

/// A text that begins and ends with a character of a literal has no
/// whitespace to lose, with or without one space behind it.
pub proof fn lemma_literal_is_trimmed(n: Seq<char>)
    requires
        n.len() > 0,
        is_literal_end(n[0]),
        is_literal_end(n.last()),
    ensures
        trimmed(n) == n,
        trimmed(n + seq![' ']) == n,
{
    let spaced = n + seq![' '];
    assert(!is_whitespace(n[0]));
    assert(!is_whitespace(n.last()));
    assert(spaced[0] == n[0]);
    assert(trimmed_start(n) == n);
    assert(trimmed_start(spaced) == spaced);
    assert(trimmed_end(n) == n);
    assert(is_whitespace(' '));
    assert(spaced.subrange(0, spaced.len() - 1) =~= n);
    assert(trimmed_end(spaced) == trimmed_end(n));
}

} // verus!
