//! Temperature conversions
//!
//! A temperature is written as a number followed by its unit: a letter
//! (`65F`, `18.33c`) or a word (`300 kelvin`). This module recognises the
//! unit, isolates the number, and tidies the digits of a result. The
//! arithmetic between the scales is the caller's part.

use crate::number::{check_float_literal, is_float_literal};
use crate::text::{
    chars_of, ends_with, has_suffix, lowercase, string_of, trim_bounds, trimmed, views,
};
use vstd::prelude::*;

verus! {

/// The temperature scales.
#[derive(Debug, Clone, Copy, PartialEq, Eq, Structural, PartialOrd)]
pub enum TemperatureUnit {
    Kelvin,
    Celsius,
    Fahrenheit,
}

/// Why a text is not a temperature.
#[derive(Debug, Clone, PartialEq, Eq)]
pub enum ParseTempError {
    /// The text ends with no unit.
    InvalidUnit,
    /// What stands before the unit is no number; the error holds it.
    InvalidNumber(String),
}

/// A `ParseTempError` with its text as a sequence of characters.
pub enum ParseTempErrorView {
    InvalidUnit,
    InvalidNumber(Seq<char>),
}

impl ParseTempErrorView {
    /// The sentence that tells a person of this error.
    pub open spec fn rendered(self) -> Seq<char> {
        match self {
            ParseTempErrorView::InvalidUnit => "Invalid unit provided"@,
            ParseTempErrorView::InvalidNumber(number) => "Invalid number provided: "@ + number,
        }
    }
}

impl View for ParseTempError {
    type V = ParseTempErrorView;

    open spec fn view(&self) -> ParseTempErrorView {
        match self {
            ParseTempError::InvalidUnit => ParseTempErrorView::InvalidUnit,
            ParseTempError::InvalidNumber(number) => ParseTempErrorView::InvalidNumber(number@),
        }
    }
}

impl ParseTempError {
    /// The sentence that tells a person of this error.
    pub fn to_string(&self) -> (r: String)
        ensures
            r@ == self@.rendered(),
    {
        match self {
            ParseTempError::InvalidUnit => "Invalid unit provided".to_owned(),
            ParseTempError::InvalidNumber(number) => {
                let mut r = "Invalid number provided: ".to_owned();
                r.append(number.as_str());
                r
            },
        }
    }
}

impl TemperatureUnit {
    /// The name of the scale.
    pub open spec fn spec_name(self) -> Seq<char> {
        match self {
            TemperatureUnit::Kelvin => "Kelvin"@,
            TemperatureUnit::Celsius => "Celsius"@,
            TemperatureUnit::Fahrenheit => "Fahrenheit"@,
        }
    }

    /// The letters and words that name the scale at the end of a
    /// temperature, in the order in which they are tried.
    pub open spec fn spec_words(self) -> Seq<Seq<char>> {
        match self {
            TemperatureUnit::Celsius => seq!["c"@, "celsius"@, "cel"@],
            TemperatureUnit::Fahrenheit => seq!["f"@, "fahrenheit"@, "fah"@],
            TemperatureUnit::Kelvin => seq!["k"@, "kelvin"@],
        }
    }

    /// The scale that a single letter names, in upper or lower case.
    pub open spec fn spec_from_letter(c: char) -> Option<TemperatureUnit> {
        if c == 'C' || c == 'c' {
            Some(TemperatureUnit::Celsius)
        } else if c == 'F' || c == 'f' {
            Some(TemperatureUnit::Fahrenheit)
        } else if c == 'K' || c == 'k' {
            Some(TemperatureUnit::Kelvin)
        } else {
            None
        }
    }

    /// The name of the scale.
    pub fn name(self) -> (r: &'static str)
        ensures
            r@ == self.spec_name(),
    {
        match self {
            TemperatureUnit::Kelvin => "Kelvin",
            TemperatureUnit::Celsius => "Celsius",
            TemperatureUnit::Fahrenheit => "Fahrenheit",
        }
    }

    /// The letters and words that name the scale at the end of a
    /// temperature.
    pub fn words(self) -> (r: Vec<&'static str>)
        ensures
            views(r@) == self.spec_words(),
    {
        let r = match self {
            TemperatureUnit::Celsius => vec!["c", "celsius", "cel"],
            TemperatureUnit::Fahrenheit => vec!["f", "fahrenheit", "fah"],
            TemperatureUnit::Kelvin => vec!["k", "kelvin"],
        };
        proof {
            assert(views(r@) =~= self.spec_words());
        }
        r
    }

    /// The scale that a single letter names, in upper or lower case.
    pub fn from_letter(c: char) -> (r: Option<TemperatureUnit>)
        ensures
            r == TemperatureUnit::spec_from_letter(c),
    {
        if c == 'C' || c == 'c' {
            Some(TemperatureUnit::Celsius)
        } else if c == 'F' || c == 'f' {
            Some(TemperatureUnit::Fahrenheit)
        } else if c == 'K' || c == 'k' {
            Some(TemperatureUnit::Kelvin)
        } else {
            None
        }
    }
}

/// Whether the temperature `s` names the scale `kind`: it ends with one of
/// the words of the scale.
pub open spec fn names(s: Seq<char>, kind: TemperatureUnit) -> bool {
    exists|i: int|
        0 <= i < kind.spec_words().len() && has_suffix(s, #[trigger] kind.spec_words()[i])
}

/// The scale of the temperature `s`: Celsius is tried first, then
/// Fahrenheit, then Kelvin.
pub open spec fn recognized(s: Seq<char>) -> Option<TemperatureUnit> {
    if names(s, TemperatureUnit::Celsius) {
        Some(TemperatureUnit::Celsius)
    } else if names(s, TemperatureUnit::Fahrenheit) {
        Some(TemperatureUnit::Fahrenheit)
    } else if names(s, TemperatureUnit::Kelvin) {
        Some(TemperatureUnit::Kelvin)
    } else {
        None
    }
}

/// `s` without the first of `words` that stands at its end, or `s` itself
/// where none does.
pub open spec fn without_first(s: Seq<char>, words: Seq<Seq<char>>) -> Seq<char>
    decreases words.len(),
{
    if words.len() == 0 {
        s
    } else if has_suffix(s, words[0]) {
        s.subrange(0, s.len() - words[0].len())
    } else {
        without_first(s, words.subrange(1, words.len() as int))
    }
}

/// A temperature as it was written: the literal of its magnitude and its
/// scale.
#[derive(Clone, Debug, PartialEq, Eq)]
pub struct Reading {
    pub number: String,
    pub kind: TemperatureUnit,
}

/// A `Reading` with its number as a sequence of characters.
pub struct ReadingView {
    pub number: Seq<char>,
    pub kind: TemperatureUnit,
}

impl View for Reading {
    type V = ReadingView;

    open spec fn view(&self) -> ReadingView {
        ReadingView { number: self.number@, kind: self.kind }
    }
}

/// The temperature that a lowercase text stands for.
///
/// The text names no scale: that is the error. Else the name of the scale
/// is taken off, and the rest without the whitespace around it must be the
/// literal of a number: where it is not, the error holds it.
pub open spec fn parsed(s: Seq<char>) -> Result<ReadingView, ParseTempErrorView> {
    match recognized(s) {
        None => Err(ParseTempErrorView::InvalidUnit),
        Some(kind) => {
            let number = trimmed(without_first(s, kind.spec_words()));
            if is_float_literal(number) {
                Ok(ReadingView { number, kind })
            } else {
                Err(ParseTempErrorView::InvalidNumber(number))
            }
        },
    }
}

/// What a parse returned, seen through the views of its parts.
pub open spec fn outcome(r: Result<Reading, ParseTempError>) -> Result<
    ReadingView,
    ParseTempErrorView,
> {
    match r {
        Ok(t) => Ok(t@),
        Err(e) => Err(e@),
    }
}

/// The length of `s` without the first word of `kind` that stands at its
/// end; `None` where none does.
pub fn strip_unit(s: &Vec<char>, kind: TemperatureUnit) -> (r: Option<usize>)
    ensures
        r is Some == names(s@, kind),
        r matches Some(n) ==> n <= s.len() && s@.subrange(0, n as int) == without_first(
            s@,
            kind.spec_words(),
        ),
{
    let words = kind.words();
    let ghost all = kind.spec_words();
    proof {
        assert(s@.subrange(0, s@.len() as int) =~= s@);
        assert(all.subrange(0, all.len() as int) =~= all);
    }
    let mut k: usize = 0;
    while k < words.len()
        invariant
            k <= words.len(),
            all == kind.spec_words(),
            views(words@) == all,
            s@.subrange(0, s@.len() as int) == s@,
            forall|j: int| 0 <= j < k ==> !has_suffix(s@, #[trigger] all[j]),
            without_first(s@, all) == without_first(s@, all.subrange(k as int, all.len() as int)),
        decreases words.len() - k,
    {
        let word = chars_of(words[k]);
        let ghost rest = all.subrange(k as int, all.len() as int);
        proof {
            assert(views(words@)[k as int] == word@);
            assert(rest[0] == word@);
            assert(rest.subrange(1, rest.len() as int) =~= all.subrange(k + 1, all.len() as int));
        }
        if ends_with(s, s.len(), &word) {
            return Some(s.len() - word.len());
        }
        k += 1;
    }
    None
}

impl Reading {
    /// Reads a temperature from a text that is already in lowercase.
    pub fn parse_lowered(lowered: &str) -> (r: Result<Reading, ParseTempError>)
        ensures
            outcome(r) == parsed(lowered@),
    {
        let s = chars_of(lowered);
        let (kind, end) = match strip_unit(&s, TemperatureUnit::Celsius) {
            Some(n) => (TemperatureUnit::Celsius, n),
            None => match strip_unit(&s, TemperatureUnit::Fahrenheit) {
                Some(n) => (TemperatureUnit::Fahrenheit, n),
                None => match strip_unit(&s, TemperatureUnit::Kelvin) {
                    Some(n) => (TemperatureUnit::Kelvin, n),
                    None => {
                        return Err(ParseTempError::InvalidUnit);
                    },
                },
            },
        };
        let (a, b) = trim_bounds(&s, 0, end);
        if check_float_literal(&s, a, b) {
            Ok(Reading { number: string_of(&s, a, b), kind })
        } else {
            Err(ParseTempError::InvalidNumber(string_of(&s, a, b)))
        }
    }

    /// Reads a temperature such as `65F`, `18.33 c` or `300 Kelvin`, in
    /// upper or lower case.
    pub fn parse(s: &str) -> (r: Result<Reading, ParseTempError>)
        ensures
            outcome(r) == parsed(lowercase(s@)),
    {
        let lowered = s.to_lowercase();
        Reading::parse_lowered(lowered.as_str())
    }
}

/// `s` without the zeros at its end.
pub open spec fn without_trailing_zeros(s: Seq<char>) -> Seq<char>
    decreases s.len(),
{
    if s.len() > 0 && s.last() == '0' {
        without_trailing_zeros(s.drop_last())
    } else {
        s
    }
}

/// The digits of a value as they are shown. Where they hold a point, the
/// zeros at their end go, and then the point where it has become the last
/// character: `18.330` is shown as `18.33` and `300.000` as `300`. Digits
/// without a point are shown as they are, so that no zero of a whole number
/// is lost.
pub open spec fn tidied(digits: Seq<char>) -> Seq<char> {
    if digits.contains('.') {
        let kept = without_trailing_zeros(digits);
        if kept.len() > 0 && kept.last() == '.' {
            kept.drop_last()
        } else {
            kept
        }
    } else {
        digits
    }
}

/// A temperature as it is shown: the tidied digits of its value, a space,
/// and the name of its scale.
pub open spec fn shown(digits: Seq<char>, kind: TemperatureUnit) -> Seq<char> {
    tidied(digits) + " "@ + kind.spec_name()
}

/// Tests whether `s` holds a point.
fn holds_point(s: &Vec<char>) -> (b: bool)
    ensures
        b == s@.contains('.'),
{
    let mut i: usize = 0;
    while i < s.len()
        invariant
            i <= s.len(),
            forall|j: int| 0 <= j < i ==> s@[j] != '.',
        decreases s.len() - i,
    {
        if s[i] == '.' {
            return true;
        }
        i += 1;
    }
    false
}

/// Tidies the digits of a value.
pub fn tidy(digits: &str) -> (r: String)
    ensures
        r@ == tidied(digits@),
{
    let s = chars_of(digits);
    proof {
        assert(s@.subrange(0, s@.len() as int) =~= s@);
    }
    if !holds_point(&s) {
        return string_of(&s, 0, s.len());
    }
    let mut n: usize = s.len();
    while n > 0 && s[n - 1] == '0'
        invariant
            n <= s.len(),
            without_trailing_zeros(s@) == without_trailing_zeros(s@.subrange(0, n as int)),
        decreases n,
    {
        proof {
            assert(s@.subrange(0, n as int).drop_last() =~= s@.subrange(0, n - 1));
        }
        n -= 1;
    }
    if n > 0 && s[n - 1] == '.' {
        proof {
            assert(s@.subrange(0, n as int).drop_last() =~= s@.subrange(0, n - 1));
        }
        n -= 1;
    }
    string_of(&s, 0, n)
}

/// What `without_trailing_zeros` takes off is zeros, all of them at the
/// end: `s` is what is kept with those zeros behind it, and what is kept
/// does not end with a zero.
pub proof fn lemma_trailing_zeros(s: Seq<char>) -> (zeros: Seq<char>)
    ensures
        s == without_trailing_zeros(s) + zeros,
        forall|i: int| 0 <= i < zeros.len() ==> zeros[i] == '0',
        without_trailing_zeros(s).len() > 0 ==> without_trailing_zeros(s).last() != '0',
    decreases s.len(),
{
    if s.len() > 0 && s.last() == '0' {
        let front = s.drop_last();
        let fewer = lemma_trailing_zeros(front);
        let zeros = fewer.push('0');
        assert(without_trailing_zeros(s) == without_trailing_zeros(front));
        assert(front == without_trailing_zeros(front) + fewer);
        assert(s =~= front.push('0'));
        assert((without_trailing_zeros(front) + fewer).push('0') =~= without_trailing_zeros(front)
            + zeros);
        zeros
    } else {
        assert(s =~= s + Seq::<char>::empty());
        Seq::<char>::empty()
    }
}

/// Tidying takes nothing but the zeros of a fraction, and the point with
/// them where the whole fraction was zeros. The digits are what is shown,
/// then the point if it went, then zeros; and where zeros went, a point
/// stood before them.
pub proof fn lemma_tidying_takes_zeros_of_a_fraction(digits: Seq<char>) -> (r: (bool, Seq<char>))
    ensures
        digits == tidied(digits) + (if r.0 {
            seq!['.']
        } else {
            Seq::<char>::empty()
        }) + r.1,
        forall|i: int| 0 <= i < r.1.len() ==> r.1[i] == '0',
        r.1.len() > 0 ==> r.0 || tidied(digits).contains('.'),
        r.0 || r.1.len() > 0 ==> digits.contains('.'),
{
    if digits.contains('.') {
        let kept = without_trailing_zeros(digits);
        let zeros = lemma_trailing_zeros(digits);
        let at = choose|i: int| 0 <= i < digits.len() && digits[i] == '.';
        if at >= kept.len() {
            assert(digits[at] == zeros[at - kept.len()]);
        }
        assert(kept[at] == '.');
        if kept.last() == '.' {
            assert(kept =~= kept.drop_last() + seq!['.']);
            (true, zeros)
        } else {
            assert(kept =~= kept + Seq::<char>::empty());
            (false, zeros)
        }
    } else {
        assert(digits =~= digits + Seq::<char>::empty() + Seq::<char>::empty());
        (false, Seq::<char>::empty())
    }
}

/// No zero of a whole number is lost: digits that end with a point and
/// zeros behind it are shown as what stands before the point, whatever
/// that is and however many zeros it ends with.
pub proof fn lemma_whole_numbers_keep_their_zeros(whole: Seq<char>, zeros: Seq<char>)
    requires
        !whole.contains('.'),
        forall|i: int| 0 <= i < zeros.len() ==> zeros[i] == '0',
    ensures
        tidied(whole + seq!['.'] + zeros) == whole,
    decreases zeros.len(),
{
    let digits = whole + seq!['.'] + zeros;
    assert(digits[whole.len() as int] == '.');
    assert(digits.contains('.'));
    if zeros.len() == 0 {
        assert(digits.last() == '.');
        assert(without_trailing_zeros(digits) == digits);
        assert(digits.drop_last() =~= whole);
    } else {
        let fewer = zeros.drop_last();
        let shorter = whole + seq!['.'] + fewer;
        assert(digits.last() == zeros.last());
        assert(digits.drop_last() =~= shorter);
        assert(shorter[whole.len() as int] == '.');
        lemma_whole_numbers_keep_their_zeros(whole, fewer);
    }
}

/// Shows a temperature whose value has the digits `digits`.
pub fn show(digits: &str, kind: TemperatureUnit) -> (r: String)
    ensures
        r@ == shown(digits@, kind),
{
    let mut r = tidy(digits);
    r.append(" ");
    r.append(kind.name());
    r
}

/// A temperature: its value in kelvin and the scale it is shown in.
///
/// The value is stored in kelvin whatever the scale. To show the
/// temperature in another scale changes the scale and nothing else. The
/// type `T` of the value is the caller's choice.
#[derive(Debug, Clone, Copy, PartialEq, PartialOrd)]
pub struct Temperature<T> {
    pub temp: T,
    pub kind: TemperatureUnit,
}

impl<T> Temperature<T> {
    /// This temperature shown in the scale `kind`.
    pub open spec fn shown_in(self, kind: TemperatureUnit) -> Self {
        Temperature { temp: self.temp, kind }
    }

    /// The temperature of `temp` kelvin, shown in the scale `kind`.
    pub fn new(temp: T, kind: TemperatureUnit) -> (r: Self)
        ensures
            r == (Temperature { temp, kind }),
    {
        Temperature { temp, kind }
    }

    /// Shows this temperature in Celsius from now on.
    pub fn as_cel(&mut self) -> (r: &mut Self)
        ensures
            *r == old(self).shown_in(TemperatureUnit::Celsius),
            *final(self) == *final(r),
    {
        self.kind = TemperatureUnit::Celsius;
        self
    }

    /// Shows this temperature in kelvin from now on.
    pub fn as_kel(&mut self) -> (r: &mut Self)
        ensures
            *r == old(self).shown_in(TemperatureUnit::Kelvin),
            *final(self) == *final(r),
    {
        self.kind = TemperatureUnit::Kelvin;
        self
    }

    /// Shows this temperature in Fahrenheit from now on.
    pub fn as_fah(&mut self) -> (r: &mut Self)
        ensures
            *r == old(self).shown_in(TemperatureUnit::Fahrenheit),
            *final(self) == *final(r),
    {
        self.kind = TemperatureUnit::Fahrenheit;
        self
    }

    /// Words this temperature, whose value in its scale has the digits
    /// `digits`.
    pub fn show(&self, digits: &str) -> (r: String)
        ensures
            r@ == shown(digits@, self.kind),
    {
        show(digits, self.kind)
    }
}

/// Why a conversion between scales named by single letters gave no
/// result.
#[derive(Debug, Clone, Copy, PartialEq, Eq, Structural)]
pub enum LetterError {
    /// The temperature does not end with the letter of a scale.
    NoUnit,
    /// The target is not the letter of a scale.
    NoTarget,
    /// What stands before the letter is no number, or is zero.
    NotANumber,
}

impl LetterError {
    /// The sentence that tells a person of this error.
    pub open spec fn spec_message(self) -> Seq<char> {
        match self {
            LetterError::NoUnit => "Error: No viable unit specified"@,
            LetterError::NoTarget => "Error: No viable target specified"@,
            LetterError::NotANumber => "Error: not a parseable number!"@,
        }
    }

    /// The sentence that tells a person of this error.
    pub fn message(self) -> (r: &'static str)
        ensures
            r@ == self.spec_message(),
    {
        match self {
            LetterError::NoUnit => "Error: No viable unit specified",
            LetterError::NoTarget => "Error: No viable target specified",
            LetterError::NotANumber => "Error: not a parseable number!",
        }
    }
}

/// A conversion between two scales that were named by single letters: what
/// stood before the letter of the temperature, the scale of that letter, and
/// the scale of the target.
#[derive(Clone, Debug, PartialEq, Eq)]
pub struct LetterRequest {
    pub number: String,
    pub from: TemperatureUnit,
    pub to: TemperatureUnit,
}

/// A `LetterRequest` with its number as a sequence of characters.
pub struct LetterRequestView {
    pub number: Seq<char>,
    pub from: TemperatureUnit,
    pub to: TemperatureUnit,
}

impl View for LetterRequest {
    type V = LetterRequestView;

    open spec fn view(&self) -> LetterRequestView {
        LetterRequestView { number: self.number@, from: self.from, to: self.to }
    }
}

/// The conversion that a temperature such as `65F` and the letter of a
/// target stand for. The last character of the temperature names its scale
/// and the rest is taken as it stands; the scale of the temperature is
/// looked at before that of the target.
pub open spec fn letters_read(value: Seq<char>, target: char) -> Result<
    LetterRequestView,
    LetterError,
>
    recommends
        value.len() > 0,
{
    match TemperatureUnit::spec_from_letter(value.last()) {
        None => Err(LetterError::NoUnit),
        Some(from) => match TemperatureUnit::spec_from_letter(target) {
            None => Err(LetterError::NoTarget),
            Some(to) => Ok(LetterRequestView { number: value.drop_last(), from, to }),
        },
    }
}

/// What the reading of letters returned, seen through the view of the
/// request.
pub open spec fn letters_outcome(r: Result<LetterRequest, LetterError>) -> Result<
    LetterRequestView,
    LetterError,
> {
    match r {
        Ok(request) => Ok(request@),
        Err(e) => Err(e),
    }
}

/// Reads a temperature that ends with the letter of its scale, and the
/// letter of the scale to convert it to. The temperature must not be empty.
pub fn read_letters(value: &str, target: char) -> (r: Result<LetterRequest, LetterError>)
    requires
        value@.len() > 0,
    ensures
        letters_outcome(r) == letters_read(value@, target),
{
    let s = chars_of(value);
    let n = s.len();
    let from = match TemperatureUnit::from_letter(s[n - 1]) {
        Some(from) => from,
        None => {
            return Err(LetterError::NoUnit);
        },
    };
    let to = match TemperatureUnit::from_letter(target) {
        Some(to) => to,
        None => {
            return Err(LetterError::NoTarget);
        },
    };
    Ok(LetterRequest { number: string_of(&s, 0, n - 1), from, to })
}

/// The answer of a conversion by letters: the digits of the converted value
/// and the letter of the target as it was given.
pub open spec fn lettered(digits: Seq<char>, target: char) -> Seq<char> {
    digits.push(target)
}

/// Words the answer of a conversion by letters.
pub fn show_lettered(digits: &str, target: char) -> (r: String)
    ensures
        r@ == lettered(digits@, target),
{
    let mut r = digits.to_owned();
    r.push(target);
    r
}

} // verus!
