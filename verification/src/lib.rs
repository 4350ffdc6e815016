//! Unit conversions for a chat command: currencies, temperatures and the
//! notation of clock time.
//!
//! Each converter reads a free-form text, recognises the unit in it, and
//! writes the value in another unit. This crate holds what the converters
//! decide: which unit a text names, what remains as the number, when cached
//! exchange rates are too old, and how an answer is worded. Arithmetic on the
//! values themselves is left to the caller, as is the fetching of rates.

use vstd::prelude::*;

pub mod currency;
pub mod number;
pub mod rates;
pub mod spellings;
pub mod temperature;
pub mod text;
pub mod time;

verus! {

/// Takes each of `suffixes` in turn from the end of `input` where it stands
/// there.
pub fn strip_suffixes(input: String, suffixes: &[&str]) -> (r: String)
    ensures
        r@ == text::stripped(input@, text::views(suffixes@)),
{
    let chars = text::chars_of(input.as_str());
    proof {
        assert(chars@.subrange(0, chars@.len() as int) =~= chars@);
    }
    let n = text::strip_each(&chars, chars.len(), suffixes);
    text::string_of(&chars, 0, n)
}

} // verus!
