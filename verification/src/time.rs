//! Conversions between 12 and 24 hour time.

use crate::number::{byte_value, padded, parse_byte, push_padded, IntegerError};
use crate::text::{
    chars_of, ends_with, has_suffix, lowercase, string_of, trim_bounds, trimmed, without_suffix,
};
use vstd::prelude::*;

verus! {

/// How a time of day is written.
#[derive(Debug, Clone, Copy, PartialEq, Eq, Structural, PartialOrd, Ord)]
pub enum TimeNotation {
    /// Hours from 1 to 12, followed by AM or PM.
    TwelveHour,
    /// Hours from 0 to 23.
    TwentyFourHour,
}

impl Default for TimeNotation {
    fn default() -> (r: Self)
        ensures
            r == TimeNotation::TwentyFourHour,
    {
        TimeNotation::TwentyFourHour
    }
}

/// A time of day. The hours are stored in 24 hour notation, whatever the
/// notation the time is written in.
#[derive(Debug, Clone, Copy, PartialEq, Eq, Structural, PartialOrd, Ord)]
pub struct Time {
    pub kind: TimeNotation,
    pub hours: u8,
    pub minutes: u8,
    pub seconds: u8,
}

impl Default for Time {
    fn default() -> (r: Self)
        ensures
            r == (Time { kind: TimeNotation::TwentyFourHour, hours: 0, minutes: 0, seconds: 0 }),
    {
        Time { kind: TimeNotation::TwentyFourHour, hours: 0, minutes: 0, seconds: 0 }
    }
}

/// Why a text is not a time of day.
#[derive(Debug)]
pub struct ParseTimeError {
    message: String,
}

impl View for ParseTimeError {
    type V = Seq<char>;

    /// The message of the error.
    closed spec fn view(&self) -> Seq<char> {
        self.message@
    }
}

impl ParseTimeError {
    /// The message of the error.
    pub fn message(&self) -> (m: &String)
        ensures
            m@ == self@,
    {
        &self.message
    }
}

/// The sections of `s`: the texts between its colons, so that a text with
/// `n` colons has `n + 1` sections, some of them possibly empty.
pub open spec fn sections(s: Seq<char>) -> Seq<Seq<char>>
    decreases s.len(),
{
    if s.len() == 0 {
        seq![Seq::<char>::empty()]
    } else {
        let before = sections(s.drop_last());
        if s.last() == ':' {
            before.push(Seq::<char>::empty())
        } else {
            before.drop_last().push(before.last().push(s.last()))
        }
    }
}

/// The sections `parts` with a colon between each two of them.
pub open spec fn joined(parts: Seq<Seq<char>>) -> Seq<char>
    decreases parts.len(),
{
    if parts.len() == 0 {
        Seq::<char>::empty()
    } else if parts.len() == 1 {
        parts[0]
    } else {
        joined(parts.drop_last()) + seq![':'] + parts.last()
    }
}

/// The sections of a text are what the colons of the text part: there is
/// at least one section, no section holds a colon, and the sections with
/// colons between them make up the text.
pub proof fn lemma_sections(s: Seq<char>)
    ensures
        sections(s).len() >= 1,
        joined(sections(s)) == s,
        forall|k: int, i: int|
            0 <= k < sections(s).len() && 0 <= i < sections(s)[k].len() ==> sections(s)[k][i]
                != ':',
    decreases s.len(),
{
    if s.len() > 0 {
        let before = sections(s.drop_last());
        lemma_sections(s.drop_last());
        let parts = sections(s);
        if s.last() == ':' {
            assert(parts.drop_last() =~= before);
            assert(joined(parts) =~= s.drop_last() + seq![':']);
            assert(s.drop_last() + seq![':'] =~= s);
        } else {
            let front = before.drop_last();
            let grown = before.last().push(s.last());
            assert(parts.drop_last() =~= front);
            assert(parts.last() == grown);
            if before.len() == 1 {
                assert(joined(parts) =~= joined(before).push(s.last()));
            } else {
                assert(joined(parts) =~= (joined(front) + seq![':'] + before.last()).push(
                    s.last(),
                ));
            }
            assert(s.drop_last().push(s.last()) =~= s);
        }
    }
}

/// The hour of a 12 hour clock in 24 hour notation: 12 AM is 0, and the
/// hours 1 to 11 PM are 13 to 23. Every other hour is kept.
pub open spec fn hour_of_day(hour: u8, pm: bool) -> u8 {
    if !pm && hour == 12 {
        0u8
    } else if pm && hour < 12 {
        (hour + 12) as u8
    } else {
        hour
    }
}

/// The number that the section `parts[i]` holds.
pub open spec fn field(parts: Seq<Seq<char>>, i: int) -> Result<u8, IntegerError> {
    byte_value(trimmed(parts[i]))
}

/// The message for a section that holds no number: the reason, a space, and
/// the section as it was written.
pub open spec fn complaint(parts: Seq<Seq<char>>, i: int) -> Seq<char> {
    field(parts, i)->Err_0.spec_message() + " "@ + parts[i]
}

/// The time that one to three sections stand for: hours, then minutes, then
/// seconds, where a missing section counts as 0. The first section that holds
/// no number gives the error.
pub open spec fn assembled(parts: Seq<Seq<char>>, kind: TimeNotation, pm: bool) -> Result<
    Time,
    Seq<char>,
> {
    if field(parts, 0) is Err {
        Err(complaint(parts, 0))
    } else if parts.len() >= 2 && field(parts, 1) is Err {
        Err(complaint(parts, 1))
    } else if parts.len() >= 3 && field(parts, 2) is Err {
        Err(complaint(parts, 2))
    } else {
        Ok(
            Time {
                kind,
                hours: if kind == TimeNotation::TwelveHour {
                    hour_of_day(field(parts, 0)->Ok_0, pm)
                } else {
                    field(parts, 0)->Ok_0
                },
                minutes: if parts.len() >= 2 {
                    field(parts, 1)->Ok_0
                } else {
                    0
                },
                seconds: if parts.len() >= 3 {
                    field(parts, 2)->Ok_0
                } else {
                    0
                },
            },
        )
    }
}

/// The time that a lowercase text stands for, or the message that says why
/// it stands for none.
///
/// A text that ends with `pm` or `am` is in 12 hour notation, and the rest
/// of it holds the sections; any other text is in 24 hour notation.
pub open spec fn parsed(s: Seq<char>) -> Result<Time, Seq<char>> {
    let pm = has_suffix(s, "pm"@);
    let am = !pm && has_suffix(s, "am"@);
    let kind = if pm || am {
        TimeNotation::TwelveHour
    } else {
        TimeNotation::TwentyFourHour
    };
    let body = if pm {
        without_suffix(s, "pm"@)
    } else if am {
        without_suffix(s, "am"@)
    } else {
        s
    };
    let parts = sections(body);
    if parts.len() > 3 {
        Err("Too many sections!"@)
    } else {
        assembled(parts, kind, pm)
    }
}

/// The bounds of the sections of `s[from..to]`, in order.
pub fn split_sections(s: &Vec<char>, from: usize, to: usize) -> (r: Vec<(usize, usize)>)
    requires
        from <= to <= s.len(),
    ensures
        r@.len() == sections(s@.subrange(from as int, to as int)).len(),
        forall|k: int|
            0 <= k < r@.len() ==> from <= (#[trigger] r@[k]).0 <= r@[k].1 <= to && s@.subrange(
                r@[k].0 as int,
                r@[k].1 as int,
            ) == sections(s@.subrange(from as int, to as int))[k],
{
    let mut done: Vec<(usize, usize)> = Vec::new();
    let mut begin: usize = from;
    let mut i: usize = from;
    proof {
        assert(s@.subrange(from as int, from as int) =~= Seq::<char>::empty());
    }
    while i < to
        invariant
            from <= begin <= i <= to <= s.len(),
            sections(s@.subrange(from as int, i as int)).len() == done@.len() + 1,
            sections(s@.subrange(from as int, i as int)).last() == s@.subrange(
                begin as int,
                i as int,
            ),
            forall|k: int|
                0 <= k < done@.len() ==> from <= (#[trigger] done@[k]).0 <= done@[k].1 <= to
                    && s@.subrange(done@[k].0 as int, done@[k].1 as int) == sections(
                    s@.subrange(from as int, i as int),
                )[k],
        decreases to - i,
    {
        let ghost old_parts = sections(s@.subrange(from as int, i as int));
        proof {
            let next = s@.subrange(from as int, i + 1);
            assert(next.drop_last() =~= s@.subrange(from as int, i as int));
            assert(next.last() == s@[i as int]);
        }
        if s[i] == ':' {
            done.push((begin, i));
            begin = i + 1;
            proof {
                assert(s@.subrange(begin as int, begin as int) =~= Seq::<char>::empty());
            }
        } else {
            proof {
                assert(s@.subrange(begin as int, i + 1) =~= s@.subrange(
                    begin as int,
                    i as int,
                ).push(s@[i as int]));
            }
        }
        i += 1;
    }
    done.push((begin, to));
    done
}

/// What a parse returned, with the error seen as its message.
pub open spec fn outcome(r: Result<Time, ParseTimeError>) -> Result<Time, Seq<char>> {
    match r {
        Ok(t) => Ok(t),
        Err(e) => Err(e@),
    }
}

/// Reads the number in the section `s[from..to]`, or makes the message that
/// says why it holds none.
fn read_field(s: &Vec<char>, from: usize, to: usize) -> (r: Result<u8, ParseTimeError>)
    requires
        from <= to <= s.len(),
    ensures
        byte_value(trimmed(s@.subrange(from as int, to as int))) matches Ok(v) ==> r == Ok::<
            u8,
            ParseTimeError,
        >(v),
        byte_value(trimmed(s@.subrange(from as int, to as int))) matches Err(e) ==> r is Err
            && r->Err_0@ == e.spec_message() + " "@ + s@.subrange(from as int, to as int),
{
    let (a, b) = trim_bounds(s, from, to);
    match parse_byte(s, a, b) {
        Ok(v) => Ok(v),
        Err(e) => {
            let mut message = e.message().to_owned();
            message.append(" ");
            let section = string_of(s, from, to);
            message.append(section.as_str());
            Err(ParseTimeError { message })
        },
    }
}

impl Time {
    /// Midnight, written in the notation `kind`.
    pub fn new(kind: TimeNotation) -> (r: Self)
        ensures
            r == (Time { kind, hours: 0, minutes: 0, seconds: 0 }),
    {
        Time { kind, hours: 0, minutes: 0, seconds: 0 }
    }

    /// This time written in the notation `kind`.
    pub open spec fn with_kind(self, kind: TimeNotation) -> Time {
        Time { kind, hours: self.hours, minutes: self.minutes, seconds: self.seconds }
    }

    /// This time written in the other notation.
    pub open spec fn opposite(self) -> Time {
        match self.kind {
            TimeNotation::TwentyFourHour => self.with_kind(TimeNotation::TwelveHour),
            TimeNotation::TwelveHour => self.with_kind(TimeNotation::TwentyFourHour),
        }
    }

    /// Writes this time in 24 hour notation from now on.
    pub fn to_24(&mut self) -> (r: &mut Self)
        ensures
            *r == old(self).with_kind(TimeNotation::TwentyFourHour),
            *final(self) == *final(r),
    {
        self.kind = TimeNotation::TwentyFourHour;
        self
    }

    /// Writes this time in 12 hour notation from now on.
    pub fn to_12(&mut self) -> (r: &mut Self)
        ensures
            *r == old(self).with_kind(TimeNotation::TwelveHour),
            *final(self) == *final(r),
    {
        self.kind = TimeNotation::TwelveHour;
        self
    }

    /// Writes this time in the other notation from now on.
    pub fn to_opposite(&mut self) -> (r: &mut Self)
        ensures
            *r == old(self).opposite(),
            *final(self) == *final(r),
    {
        match self.kind {
            TimeNotation::TwentyFourHour => self.to_12(),
            _ => self.to_24(),
        }
    }

    /// How this time is written: two digits each for hours, minutes and
    /// seconds, and in 12 hour notation the hour from 1 to 12 followed by
    /// `AM` or `PM`.
    pub open spec fn rendered(self) -> Seq<char> {
        match self.kind {
            TimeNotation::TwelveHour => {
                let (period, hours) = if self.hours == 0 || self.hours == 24 {
                    ("AM"@, 12u8)
                } else if self.hours > 12 {
                    ("PM"@, (self.hours - 12) as u8)
                } else if self.hours == 12 {
                    ("PM"@, self.hours)
                } else {
                    ("AM"@, self.hours)
                };
                padded(hours) + ":"@ + padded(self.minutes) + ":"@ + padded(self.seconds) + " "@
                    + period
            },
            TimeNotation::TwentyFourHour => padded(self.hours) + ":"@ + padded(self.minutes) + ":"@
                + padded(self.seconds),
        }
    }

    /// Writes this time out in its notation.
    pub fn to_string(&self) -> (s: String)
        ensures
            s@ == self.rendered(),
    {
        let mut s = String::new();
        match self.kind {
            TimeNotation::TwelveHour => {
                let (period, hours) = if self.hours == 0 || self.hours == 24 {
                    ("AM", 12u8)
                } else if self.hours > 12 {
                    ("PM", self.hours - 12)
                } else if self.hours == 12 {
                    ("PM", self.hours)
                } else {
                    ("AM", self.hours)
                };
                push_padded(&mut s, hours);
                s.append(":");
                push_padded(&mut s, self.minutes);
                s.append(":");
                push_padded(&mut s, self.seconds);
                s.append(" ");
                s.append(period);
                proof {
                    assert(s@ =~= self.rendered());
                }
            },
            TimeNotation::TwentyFourHour => {
                push_padded(&mut s, self.hours);
                s.append(":");
                push_padded(&mut s, self.minutes);
                s.append(":");
                push_padded(&mut s, self.seconds);
                proof {
                    assert(s@ =~= self.rendered());
                }
            },
        }
        s
    }

    /// Reads a time from a text that is already in lowercase.
    pub fn parse_lowered(lowered: &str) -> (r: Result<Time, ParseTimeError>)
        ensures
            outcome(r) == parsed(lowered@),
    {
        let s = chars_of(lowered);
        let n = s.len();
        let pm_word = chars_of("pm");
        let am_word = chars_of("am");
        proof {
            reveal_strlit("pm");
            reveal_strlit("am");
            assert(s@.subrange(0, n as int) =~= s@);
        }
        let pm = ends_with(&s, n, &pm_word);
        let am = !pm && ends_with(&s, n, &am_word);
        let kind = if pm || am {
            TimeNotation::TwelveHour
        } else {
            TimeNotation::TwentyFourHour
        };
        let end: usize = if pm || am {
            n - 2
        } else {
            n
        };
        let parts = split_sections(&s, 0, end);
        let count = parts.len();
        if count > 3 {
            return Err(ParseTimeError { message: "Too many sections!".to_owned() });
        }
        let hours = match read_field(&s, parts[0].0, parts[0].1) {
            Ok(x) => x,
            Err(e) => {
                return Err(e);
            },
        };
        let mut time = Time::new(kind);
        time.hours = match kind {
            TimeNotation::TwelveHour => {
                if !pm && hours == 12 {
                    0
                } else if pm && hours < 12 {
                    hours + 12
                } else {
                    hours
                }
            },
            TimeNotation::TwentyFourHour => hours,
        };
        if count >= 2 {
            time.minutes = match read_field(&s, parts[1].0, parts[1].1) {
                Ok(x) => x,
                Err(e) => {
                    return Err(e);
                },
            };
        }
        if count >= 3 {
            time.seconds = match read_field(&s, parts[2].0, parts[2].1) {
                Ok(x) => x,
                Err(e) => {
                    return Err(e);
                },
            };
        }
        Ok(time)
    }
}

impl std::str::FromStr for Time {
    type Err = ParseTimeError;

    /// Reads a time from a text such as `6:40:00 AM`, `4:44am` or `14:30`,
    /// in upper or lower case.
    fn from_str(s: &str) -> (r: Result<Self, Self::Err>)
        ensures
            outcome(r) == parsed(lowercase(s@)),
    {
        let lowered = s.to_lowercase();
        Time::parse_lowered(lowered.as_str())
    }
}

/// The answer for a time that was understood: the time as it was written,
/// an arrow, and the time in the other notation.
pub open spec fn described(time: Time) -> Seq<char> {
    time.rendered() + " -> "@ + time.opposite().rendered()
}

/// The answer for a text that is no time of day.
pub open spec fn rejected(t: Seq<char>) -> Seq<char> {
    "'"@ + t + "' is in improper form. Examples: '12:20 PM' or '17:00:08'."@
}

/// Writes `time` in its own notation and in the other one.
pub fn describe(time: Time) -> (r: String)
    ensures
        r@ == described(time),
{
    let mut other = time;
    other.to_opposite();
    let mut r = time.to_string();
    r.append(" -> ");
    let second = other.to_string();
    r.append(second.as_str());
    r
}

/// Says that `t` is no time of day.
pub fn reject(t: &str) -> (r: String)
    ensures
        r@ == rejected(t@),
{
    let mut r = "'".to_owned();
    r.append(t);
    r.append("' is in improper form. Examples: '12:20 PM' or '17:00:08'.");
    r
}

/// Converts the time of day in `t` to the other notation and answers with
/// both, or says that `t` is no time of day.
pub fn run(t: String) -> (r: String)
    ensures
        r@ == (match parsed(lowercase(t@)) {
            Ok(time) => described(time),
            Err(_) => rejected(t@),
        }),
{
    match <Time as std::str::FromStr>::from_str(t.as_str()) {
        Ok(time) => describe(time),
        Err(_) => reject(t.as_str()),
    }
}

} // verus!
