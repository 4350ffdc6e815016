//! Character-level text operations shared by the converters.
//!
//! Every converter reads free-form text. The functions here view text as a
//! sequence of Unicode scalar values and give each operation an exact
//! meaning over `Seq<char>`.

use vstd::prelude::*;

verus! {

/// The lowercase form of a text, as `str::to_lowercase` computes it.
///
/// Unicode case mapping is a table of the standard library; this crate names
/// its result and never looks inside it.
pub uninterp spec fn lowercase(s: Seq<char>) -> Seq<char>;

/// `str::to_lowercase` returns the lowercase form of its argument, which
/// depends on the characters of the argument alone.
pub assume_specification[ str::to_lowercase ](s: &str) -> (r: String)
    ensures
        r@ == lowercase(s@),
;

/// `String::push` appends one character at the end of the string.
pub assume_specification[ String::push ](s: &mut String, c: char)
    ensures
        final(s)@ == old(s)@.push(c),
;

/// Whether `s` ends with `suffix`.
pub open spec fn has_suffix(s: Seq<char>, suffix: Seq<char>) -> bool {
    suffix.len() <= s.len() && s.subrange(s.len() - suffix.len(), s.len() as int) == suffix
}

/// Whether `s` starts with `prefix`.
pub open spec fn has_prefix(s: Seq<char>, prefix: Seq<char>) -> bool {
    prefix.len() <= s.len() && s.subrange(0, prefix.len() as int) == prefix
}

/// `s` without `suffix` at its end, or `s` itself where it does not end with
/// `suffix`.
pub open spec fn without_suffix(s: Seq<char>, suffix: Seq<char>) -> Seq<char> {
    if has_suffix(s, suffix) {
        s.subrange(0, s.len() - suffix.len())
    } else {
        s
    }
}

/// `s` without the character `c` at its start, or `s` itself where it does
/// not start with `c`.
pub open spec fn without_leading(s: Seq<char>, c: char) -> Seq<char> {
    if s.len() > 0 && s[0] == c {
        s.subrange(1, s.len() as int)
    } else {
        s
    }
}

/// The characters with the Unicode property `White_Space`.
pub open spec fn is_whitespace(c: char) -> bool {
    let n = c as u32;
    ||| 0x09 <= n <= 0x0D
    ||| n == 0x20
    ||| n == 0x85
    ||| n == 0xA0
    ||| n == 0x1680
    ||| 0x2000 <= n <= 0x200A
    ||| n == 0x2028
    ||| n == 0x2029
    ||| n == 0x202F
    ||| n == 0x205F
    ||| n == 0x3000
}

/// `s` without its leading whitespace.
pub open spec fn trimmed_start(s: Seq<char>) -> Seq<char>
    decreases s.len(),
{
    if s.len() > 0 && is_whitespace(s[0]) {
        trimmed_start(s.subrange(1, s.len() as int))
    } else {
        s
    }
}

/// `s` without its trailing whitespace.
pub open spec fn trimmed_end(s: Seq<char>) -> Seq<char>
    decreases s.len(),
{
    if s.len() > 0 && is_whitespace(s[s.len() - 1]) {
        trimmed_end(s.subrange(0, s.len() - 1))
    } else {
        s
    }
}

/// `s` without leading and trailing whitespace.
pub open spec fn trimmed(s: Seq<char>) -> Seq<char> {
    trimmed_end(trimmed_start(s))
}

/// The characters of `s`, in order.
pub fn chars_of(s: &str) -> (v: Vec<char>)
    ensures
        v@ == s@,
{
    let mut v: Vec<char> = Vec::new();
    for c in it: s.chars()
        invariant
            v@ == it.seq().take(it.index() as int),
            it.seq() == s@,
    {
        v.push(c);
    }
    v
}

/// The string made of the characters `v[from..to]`.
pub fn string_of(v: &Vec<char>, from: usize, to: usize) -> (s: String)
    requires
        from <= to <= v.len(),
    ensures
        s@ == v@.subrange(from as int, to as int),
{
    let mut s = String::new();
    let mut i: usize = from;
    while i < to
        invariant
            from <= i <= to <= v.len(),
            s@ == v@.subrange(from as int, i as int),
        decreases to - i,
    {
        s.push(v[i]);
        i += 1;
    }
    s
}

/// Tests whether `c` is whitespace.
pub fn char_is_whitespace(c: char) -> (b: bool)
    ensures
        b == is_whitespace(c),
{
    let n: u32 = c as u32;
    (0x09 <= n && n <= 0x0D) || n == 0x20 || n == 0x85 || n == 0xA0 || n == 0x1680 || (0x2000 <= n
        && n <= 0x200A) || n == 0x2028 || n == 0x2029 || n == 0x202F || n == 0x205F || n == 0x3000
}

/// Tests whether the first `len` characters of `s` end with `suffix`.
pub fn ends_with(s: &Vec<char>, len: usize, suffix: &Vec<char>) -> (b: bool)
    requires
        len <= s.len(),
    ensures
        b == has_suffix(s@.subrange(0, len as int), suffix@),
{
    let n = suffix.len();
    if n > len {
        return false;
    }
    let start: usize = len - n;
    let mut i: usize = 0;
    while i < n
        invariant
            n == suffix.len(),
            n <= len <= s.len(),
            start == len - n,
            i <= n,
            forall|j: int| 0 <= j < i ==> s[start + j] == suffix[j],
        decreases n - i,
    {
        if s[start + i] != suffix[i] {
            proof {
                let t = s@.subrange(0, len as int);
                assert(t.subrange(t.len() - n, t.len() as int)[i as int] == s[start + i]);
            }
            return false;
        }
        i += 1;
    }
    proof {
        let t = s@.subrange(0, len as int);
        assert(t.subrange(t.len() - n, t.len() as int) =~= suffix@);
    }
    true
}

/// The bounds of `s[from..to]` without its leading and trailing whitespace.
pub fn trim_bounds(s: &Vec<char>, from: usize, to: usize) -> (r: (usize, usize))
    requires
        from <= to <= s.len(),
    ensures
        from <= r.0 <= r.1 <= to,
        s@.subrange(r.0 as int, r.1 as int) == trimmed(s@.subrange(from as int, to as int)),
{
    let mut a: usize = from;
    while a < to && char_is_whitespace(s[a])
        invariant
            from <= a <= to <= s.len(),
            trimmed_start(s@.subrange(from as int, to as int)) == trimmed_start(
                s@.subrange(a as int, to as int),
            ),
        decreases to - a,
    {
        proof {
            let t = s@.subrange(a as int, to as int);
            assert(t.subrange(1, t.len() as int) =~= s@.subrange(a + 1, to as int));
        }
        a += 1;
    }
    let mut b: usize = to;
    while b > a && char_is_whitespace(s[b - 1])
        invariant
            a <= b <= to <= s.len(),
            trimmed_end(s@.subrange(a as int, to as int)) == trimmed_end(
                s@.subrange(a as int, b as int),
            ),
        decreases b - a,
    {
        proof {
            let t = s@.subrange(a as int, b as int);
            assert(t.subrange(0, t.len() - 1) =~= s@.subrange(a as int, b - 1));
        }
        b -= 1;
    }
    (a, b)
}

/// The texts of `words`, each as its characters.
pub open spec fn views(words: Seq<&str>) -> Seq<Seq<char>> {
    Seq::new(words.len(), |i: int| words[i]@)
}

/// `s` after each of `suffixes` in turn was taken from its end where it
/// stood there. A suffix that is absent when its turn comes leaves the text
/// as it is.
pub open spec fn stripped(s: Seq<char>, suffixes: Seq<Seq<char>>) -> Seq<char>
    decreases suffixes.len(),
{
    if suffixes.len() == 0 {
        s
    } else {
        stripped(without_suffix(s, suffixes[0]), suffixes.subrange(1, suffixes.len() as int))
    }
}

/// The length that `s[..len]` has after each of `suffixes` in turn was
/// taken from its end.
pub fn strip_each(s: &Vec<char>, len: usize, suffixes: &[&str]) -> (n: usize)
    requires
        len <= s.len(),
    ensures
        n <= len,
        s@.subrange(0, n as int) == stripped(s@.subrange(0, len as int), views(suffixes@)),
{
    let ghost all = views(suffixes@);
    let mut n: usize = len;
    let mut k: usize = 0;
    proof {
        assert(all.subrange(0, all.len() as int) =~= all);
    }
    while k < suffixes.len()
        invariant
            k <= suffixes.len(),
            n <= len <= s.len(),
            all == views(suffixes@),
            stripped(s@.subrange(0, len as int), all) == stripped(
                s@.subrange(0, n as int),
                all.subrange(k as int, all.len() as int),
            ),
        decreases suffixes.len() - k,
    {
        let word = chars_of(suffixes[k]);
        let ghost rest = all.subrange(k as int, all.len() as int);
        proof {
            assert(rest[0] == word@);
            assert(rest.subrange(1, rest.len() as int) =~= all.subrange(k + 1, all.len() as int));
        }
        if ends_with(s, n, &word) {
            proof {
                let t = s@.subrange(0, n as int);
                assert(t.subrange(0, t.len() - word@.len()) =~= s@.subrange(0, n - word@.len()));
            }
            n = n - word.len();
        }
        k += 1;
    }
    n
}

/// To strip suffixes that are not there changes nothing.
pub proof fn lemma_absent_suffixes_strip_nothing(s: Seq<char>, suffixes: Seq<Seq<char>>)
    requires
        forall|i: int| 0 <= i < suffixes.len() ==> !has_suffix(s, #[trigger] suffixes[i]),
    ensures
        stripped(s, suffixes) == s,
    decreases suffixes.len(),
{
    if suffixes.len() > 0 {
        let rest = suffixes.subrange(1, suffixes.len() as int);
        assert(!has_suffix(s, suffixes[0]));
        assert forall|i: int| 0 <= i < rest.len() implies !has_suffix(s, #[trigger] rest[i]) by {
            assert(rest[i] == suffixes[i + 1]);
        }
        lemma_absent_suffixes_strip_nothing(s, rest);
    }
}

/// The last two characters of a text of two characters or more.
pub open spec fn ending(s: Seq<char>) -> (char, char)
    recommends
        s.len() >= 2,
{
    (s[s.len() - 2], s[s.len() - 1])
}

/// A text and a suffix of it end alike.
pub proof fn lemma_suffix_shares_ending(s: Seq<char>, suffix: Seq<char>)
    requires
        suffix.len() >= 2,
        has_suffix(s, suffix),
    ensures
        ending(s) == ending(suffix),
{
    let tail = s.subrange(s.len() - suffix.len(), s.len() as int);
    assert(tail[suffix.len() - 1] == s[s.len() - 1]);
    assert(tail[suffix.len() - 2] == s[s.len() - 2]);
}

/// Where exactly one of `suffixes` can be taken from the end of `s`, and
/// none of those behind it from what is left, to strip them all is to strip
/// that one.
pub proof fn lemma_strips_one(s: Seq<char>, suffixes: Seq<Seq<char>>, i: int)
    requires
        0 <= i < suffixes.len(),
        forall|j: int| 0 <= j < i ==> !has_suffix(s, #[trigger] suffixes[j]),
        forall|j: int|
            i < j < suffixes.len() ==> !has_suffix(
                without_suffix(s, suffixes[i]),
                #[trigger] suffixes[j],
            ),
    ensures
        stripped(s, suffixes) == without_suffix(s, suffixes[i]),
    decreases suffixes.len(),
{
    let rest = suffixes.subrange(1, suffixes.len() as int);
    if i == 0 {
        let left = without_suffix(s, suffixes[0]);
        assert forall|j: int| 0 <= j < rest.len() implies !has_suffix(left, #[trigger] rest[j]) by {
            assert(rest[j] == suffixes[j + 1]);
        }
        lemma_absent_suffixes_strip_nothing(left, rest);
    } else {
        assert(!has_suffix(s, suffixes[0]));
        assert(rest[i - 1] == suffixes[i]);
        assert forall|j: int| 0 <= j < i - 1 implies !has_suffix(s, #[trigger] rest[j]) by {
            assert(rest[j] == suffixes[j + 1]);
        }
        assert forall|j: int| i - 1 < j < rest.len() implies !has_suffix(
            without_suffix(s, rest[i - 1]),
            #[trigger] rest[j],
        ) by {
            assert(rest[j] == suffixes[j + 1]);
        }
        lemma_strips_one(s, rest, i - 1);
    }
}

/// What `trimmed_start` takes off is whitespace, all of it at the start:
/// the result is `s[a..]`, the characters before `a` are whitespace, and
/// the one at `a`, where there is one, is not.
pub proof fn lemma_trimmed_start(s: Seq<char>) -> (a: int)
    ensures
        0 <= a <= s.len(),
        trimmed_start(s) == s.subrange(a, s.len() as int),
        forall|i: int| 0 <= i < a ==> is_whitespace(#[trigger] s[i]),
        a < s.len() ==> !is_whitespace(s[a]),
    decreases s.len(),
{
    if s.len() > 0 && is_whitespace(s[0]) {
        let rest = s.subrange(1, s.len() as int);
        let b = lemma_trimmed_start(rest);
        assert(rest.subrange(b, rest.len() as int) =~= s.subrange(b + 1, s.len() as int));
        assert forall|i: int| 0 <= i < b + 1 implies is_whitespace(#[trigger] s[i]) by {
            if i > 0 {
                assert(s[i] == rest[i - 1]);
            }
        }
        if b + 1 < s.len() {
            assert(s[b + 1] == rest[b]);
        }
        b + 1
    } else {
        assert(s.subrange(0, s.len() as int) =~= s);
        0
    }
}

/// What `trimmed_end` takes off is whitespace, all of it at the end: the
/// result is `s[..b]`, the characters from `b` on are whitespace, and the
/// one before `b`, where there is one, is not.
pub proof fn lemma_trimmed_end(s: Seq<char>) -> (b: int)
    ensures
        0 <= b <= s.len(),
        trimmed_end(s) == s.subrange(0, b),
        forall|i: int| b <= i < s.len() ==> is_whitespace(#[trigger] s[i]),
        0 < b ==> !is_whitespace(s[b - 1]),
    decreases s.len(),
{
    if s.len() > 0 && is_whitespace(s[s.len() - 1]) {
        let rest = s.subrange(0, s.len() - 1);
        let b = lemma_trimmed_end(rest);
        assert(rest.subrange(0, b) =~= s.subrange(0, b));
        assert forall|i: int| b <= i < s.len() implies is_whitespace(#[trigger] s[i]) by {
            if i < s.len() - 1 {
                assert(s[i] == rest[i]);
            }
        }
        if 0 < b {
            assert(s[b - 1] == rest[b - 1]);
        }
        b
    } else {
        assert(s.subrange(0, s.len() as int) =~= s);
        s.len() as int
    }
}

/// A trimmed text is the part of the text from its first character that is
/// no whitespace to its last: `s[a..b]`, where all before `a` and all from
/// `b` on is whitespace, and the part itself neither begins nor ends with
/// whitespace.
pub proof fn lemma_trimmed(s: Seq<char>) -> (r: (int, int))
    ensures
        0 <= r.0 <= r.1 <= s.len(),
        trimmed(s) == s.subrange(r.0, r.1),
        forall|i: int| 0 <= i < r.0 ==> is_whitespace(#[trigger] s[i]),
        forall|i: int| r.1 <= i < s.len() ==> is_whitespace(#[trigger] s[i]),
        r.0 < r.1 ==> !is_whitespace(s[r.0]) && !is_whitespace(s[r.1 - 1]),
{
    let a = lemma_trimmed_start(s);
    let front = s.subrange(a, s.len() as int);
    let b = lemma_trimmed_end(front);
    assert(front.subrange(0, b) =~= s.subrange(a, a + b));
    assert forall|i: int| a + b <= i < s.len() implies is_whitespace(#[trigger] s[i]) by {
        assert(s[i] == front[i - a]);
    }
    if 0 < b {
        assert(front[b - 1] == s[a + b - 1]);
    }
    (a, a + b)
}

} // verus!
