//! What holds of the names of the currencies, whatever the number they
//! stand by: no name hides another, so every name is read as its currency.

use crate::currency::{
    bare, called, is_name_of, lemma_called, lemma_priority_decides, names, parsed, recognized,
    AmountView, CurrencyErrorView, CurrencyType,
};
use crate::number::{
    ascii_lower, is_digit, is_float_literal, is_literal_end, is_special, is_word,
    lemma_float_literal_ends, lemma_literal_is_trimmed,
};
use crate::text::{
    ending, has_suffix, lemma_absent_suffixes_strip_nothing, lemma_strips_one,
    lemma_suffix_shares_ending, stripped, without_leading, without_suffix,
};
use vstd::prelude::*;

verus! {

/// The last two letters of the word `i` of `unit`.
pub open spec fn word_ending(unit: CurrencyType, i: int) -> (char, char) {
    match unit {
        CurrencyType::Usd => if i == 0 {
            ('s', 'd')
        } else {
            ('a', 'r')
        },
        CurrencyType::Gbp => if i == 0 {
            ('i', 'd')
        } else if i == 1 {
            ('n', 'd')
        } else if i == 2 {
            ('d', 's')
        } else if i == 3 {
            ('n', 'g')
        } else {
            ('b', 'p')
        },
        CurrencyType::Eur => if i == 0 {
            ('u', 'r')
        } else {
            ('r', 'o')
        },
        CurrencyType::Rub => if i == 0 {
            ('l', 'e')
        } else {
            ('u', 'b')
        },
        CurrencyType::Amd => if i == 0 {
            ('m', 'd')
        } else {
            ('a', 'm')
        },
        CurrencyType::Cad => ('a', 'd'),
        CurrencyType::Aud => ('u', 'd'),
        CurrencyType::Jpy => if i == 0 {
            ('e', 'n')
        } else {
            ('p', 'y')
        },
        CurrencyType::Pkr => if i == 0 {
            ('k', 'r')
        } else {
            ('e', 'e')
        },
    }
}

/// Every word of a currency has two letters or more, and its last two are
/// those that `word_ending` gives.
pub proof fn lemma_word_endings(unit: CurrencyType, i: int)
    requires
        0 <= i < unit.spec_words().len(),
    ensures
        unit.spec_words()[i].len() >= 2,
        ending(unit.spec_words()[i]) == word_ending(unit, i),
{
    match unit {
        CurrencyType::Usd => {
            reveal_strlit("usd");
            reveal_strlit("dollar");
        },
        CurrencyType::Gbp => {
            reveal_strlit("quid");
            reveal_strlit("pound");
            reveal_strlit("pounds");
            reveal_strlit("sterling");
            reveal_strlit("gbp");
        },
        CurrencyType::Eur => {
            reveal_strlit("eur");
            reveal_strlit("euro");
        },
        CurrencyType::Rub => {
            reveal_strlit("ruble");
            reveal_strlit("rub");
        },
        CurrencyType::Amd => {
            reveal_strlit("amd");
            reveal_strlit("dram");
        },
        CurrencyType::Cad => {
            reveal_strlit("cad");
        },
        CurrencyType::Aud => {
            reveal_strlit("aud");
        },
        CurrencyType::Jpy => {
            reveal_strlit("yen");
            reveal_strlit("jpy");
        },
        CurrencyType::Pkr => {
            reveal_strlit("pkr");
            reveal_strlit("pakistani rupee");
        },
    }
}

/// No two words of the currencies end alike.
pub proof fn lemma_endings_differ(unit: CurrencyType, i: int, other: CurrencyType, j: int)
    requires
        0 <= i < unit.spec_words().len(),
        0 <= j < other.spec_words().len(),
        unit != other || i != j,
    ensures
        word_ending(unit, i) != word_ending(other, j),
{
}

/// A text that ends unlike the word `j` of `other` does not end with that
/// word.
proof fn lemma_other_ending(s: Seq<char>, other: CurrencyType, j: int)
    requires
        s.len() >= 2,
        0 <= j < other.spec_words().len(),
        ending(s) != word_ending(other, j),
    ensures
        !has_suffix(s, other.spec_words()[j]),
{
    lemma_word_endings(other, j);
    if has_suffix(s, other.spec_words()[j]) {
        lemma_suffix_shares_ending(s, other.spec_words()[j]);
    }
}

/// The currency of a text that names `unit` and no other currency is
/// `unit`.
proof fn lemma_only_name(s: Seq<char>, unit: CurrencyType)
    requires
        names(s, unit),
        forall|other: CurrencyType| other != unit ==> !names(s, other),
    ensures
        recognized(s) == Some(unit),
{
    lemma_priority_decides(s);
}

/// A number followed by a space and a word of a currency is read as that
/// number of that currency, whichever word of whichever currency it is.
pub proof fn lemma_word_names_its_currency(n: Seq<char>, unit: CurrencyType, i: int)
    requires
        is_float_literal(n),
        0 <= i < unit.spec_words().len(),
    ensures
        parsed(n + seq![' '] + unit.spec_words()[i]) == Ok::<AmountView, CurrencyErrorView>(
            (AmountView { number: n, unit }),
        ),
{
    let words = unit.spec_words();
    let word = words[i];
    let spaced = n + seq![' '];
    let s = spaced + word;
    lemma_float_literal_ends(n);
    lemma_literal_is_trimmed(n);
    lemma_word_endings(unit, i);
    assert(s.subrange(s.len() - word.len(), s.len() as int) =~= word);
    assert(has_suffix(s, words[i]));
    assert(names(s, unit));
    assert(ending(s) == ending(word));
    assert(s[0] == n[0]);
    assert(spaced[0] == n[0]);
    assert(spaced.last() == ' ');

    // No other word stands at the end of the text.
    assert forall|other: CurrencyType, j: int|
        0 <= j < other.spec_words().len() && (other != unit || j != i) implies !has_suffix(
        s,
        #[trigger] other.spec_words()[j],
    ) by {
        lemma_endings_differ(other, j, unit, i);
        lemma_other_ending(s, other, j);
    }
    assert forall|other: CurrencyType| other != unit implies !names(s, other) by {
        assert(is_literal_end(s[0]));
    }
    lemma_only_name(s, unit);

    // What is left when the word is gone ends with a space, as no word does.
    assert(without_suffix(s, word) =~= spaced);
    assert forall|j: int| i < j < words.len() implies !has_suffix(spaced, #[trigger] words[j]) by {
        lemma_word_endings(unit, j);
        if has_suffix(spaced, words[j]) {
            let tail = spaced.subrange(spaced.len() - words[j].len(), spaced.len() as int);
            assert(tail[words[j].len() - 1] == ' ');
        }
    }
    lemma_strips_one(s, words, i);
    assert(stripped(s, words) == spaced);
    assert(is_literal_end(spaced[0]));
    assert(bare(s, unit) == spaced);
}

/// The symbol of a currency followed by a number is read as that number of
/// that currency.
pub proof fn lemma_symbol_names_its_currency(n: Seq<char>, unit: CurrencyType)
    requires
        is_float_literal(n),
        unit.spec_symbol() is Some,
    ensures
        parsed(seq![unit.spec_symbol()->Some_0] + n) == Ok::<AmountView, CurrencyErrorView>(
            (AmountView { number: n, unit }),
        ),
{
    let symbol = unit.spec_symbol()->Some_0;
    let s = seq![symbol] + n;
    lemma_float_literal_ends(n);
    lemma_literal_is_trimmed(n);
    assert(s[0] == symbol);
    assert(names(s, unit));
    assert(s.last() == n.last());

    // No word stands at the end of the text: a number ends with a digit, a
    // point, or one of the words for infinity and not-a-number.
    assert forall|other: CurrencyType, j: int|
        0 <= j < other.spec_words().len() implies !has_suffix(
        s,
        #[trigger] other.spec_words()[j],
    ) by {
        let last = n.last();
        if is_digit(last) || last == '.' {
            assert(ending(s).1 != word_ending(other, j).1);
        } else {
            let inf = seq!['i', 'n', 'f'];
            let infinity = seq!['i', 'n', 'f', 'i', 'n', 'i', 't', 'y'];
            let nan = seq!['n', 'a', 'n'];
            if n.len() >= 3 && is_special(n.subrange(n.len() - 3, n.len() as int)) {
                let tail = n.subrange(n.len() - 3, n.len() as int);
                assert(tail[1] == n[n.len() - 2] && tail[2] == n[n.len() - 1]);
                assert(!is_word(tail, infinity));
                if is_word(tail, inf) {
                    assert(ascii_lower(tail[2]) == ascii_lower(inf[2]));
                } else {
                    assert(ascii_lower(tail[1]) == ascii_lower(nan[1]));
                    assert(ascii_lower(tail[2]) == ascii_lower(nan[2]));
                }
            } else {
                let tail = n.subrange(n.len() - 8, n.len() as int);
                assert(tail[6] == n[n.len() - 2] && tail[7] == n[n.len() - 1]);
                assert(is_word(tail, infinity));
                assert(ascii_lower(tail[6]) == ascii_lower(infinity[6]));
                assert(ascii_lower(tail[7]) == ascii_lower(infinity[7]));
            }
            assert(s[s.len() - 2] == n[n.len() - 2]);
            assert(ending(s) != word_ending(other, j));
        }
        lemma_other_ending(s, other, j);
    }
    assert forall|other: CurrencyType| other != unit implies !names(s, other) by {}
    lemma_only_name(s, unit);
    lemma_absent_suffixes_strip_nothing(s, unit.spec_words());
    assert(without_leading(s, symbol) =~= n);
    assert(bare(s, unit) == n);
}

/// Every word by which an amount names a currency names that currency as a
/// target too, and no other.
pub proof fn lemma_word_is_a_target(unit: CurrencyType, i: int)
    requires
        0 <= i < unit.spec_words().len(),
    ensures
        called(unit.spec_words()[i]) == Some(unit),
{
    let token = unit.spec_words()[i];
    lemma_word_endings(unit, i);
    assert(is_name_of(token, unit));
    assert forall|other: CurrencyType| other != unit implies !is_name_of(token, other) by {
        assert forall|j: int| 0 <= j < other.spec_words().len() implies token
            != #[trigger] other.spec_words()[j] by {
            lemma_word_endings(other, j);
            lemma_endings_differ(other, j, unit, i);
        }
    }
    lemma_called(token);
}

/// The symbol of a currency names that currency as a target, and no other.
pub proof fn lemma_symbol_is_a_target(unit: CurrencyType)
    requires
        unit.spec_symbol() is Some,
    ensures
        called(seq![unit.spec_symbol()->Some_0]) == Some(unit),
{
    let token = seq![unit.spec_symbol()->Some_0];
    assert(is_name_of(token, unit));
    assert forall|other: CurrencyType| other != unit implies !is_name_of(token, other) by {
        assert forall|j: int| 0 <= j < other.spec_words().len() implies token
            != #[trigger] other.spec_words()[j] by {
            lemma_word_endings(other, j);
        }
        if other.spec_symbol() is Some {
            assert(token[0] != seq![other.spec_symbol()->Some_0][0]);
        }
    }
    lemma_called(token);
}

} // verus!
