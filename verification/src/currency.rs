//! Currency conversion.
//!
//! An amount is written as a number with the name of its currency: a word
//! or code at the end (`80.90 CAD`, `20 quid`) or a symbol at the start
//! (`$74`). This module recognises the currency, isolates the number, and
//! words the answer of a conversion. Amounts are kept as the text of their
//! number: dividing and multiplying by exchange rates is the caller's part.

use crate::number::{check_float_literal, is_float_literal};
use crate::rates::{CurrencyConverter, ExchangeRates};
use crate::spellings::{lemma_symbol_names_its_currency, lemma_word_names_its_currency};
use crate::text::{
    chars_of, ends_with, has_prefix, has_suffix, lowercase, string_of, strip_each, stripped,
    trim_bounds, trimmed, views, without_leading,
};
use vstd::prelude::*;

verus! {

/// The supported currencies.
#[derive(Clone, Copy, Debug, PartialEq, Eq, Structural, PartialOrd, Ord)]
pub enum CurrencyType {
    /// Euro
    Eur,
    /// U.S. Dollar
    Usd,
    /// Canadian Dollar
    Cad,
    /// Russian Ruble
    Rub,
    /// Yen
    Jpy,
    /// Australian Dollar
    Aud,
    /// Armenian Dram
    Amd,
    /// British Pound
    Gbp,
    /// Pakistani rupee
    Pkr,
}

impl CurrencyType {
    /// The label under which amounts in this currency are shown.
    pub open spec fn spec_label(self) -> Seq<char> {
        match self {
            CurrencyType::Usd => "Dollar(s) [USD]"@,
            CurrencyType::Eur => "Euro(s) [EUR]"@,
            CurrencyType::Cad => "Canadian Dollar(s) [CAD]"@,
            CurrencyType::Rub => "Ruble(s) [RUB]"@,
            CurrencyType::Jpy => "Yen [JPY]"@,
            CurrencyType::Aud => "Austriallian Dollar(s) [AUD]"@,
            CurrencyType::Amd => "Dram [AMD]"@,
            CurrencyType::Gbp => "Brittish Pound(s) [GBP]"@,
            CurrencyType::Pkr => "Pakistani rupee(s) [PKR]"@,
        }
    }

    /// The words and codes that name this currency at the end of an amount,
    /// in the order in which they are taken off.
    pub open spec fn spec_words(self) -> Seq<Seq<char>> {
        match self {
            CurrencyType::Usd => seq!["usd"@, "dollar"@],
            CurrencyType::Gbp => seq!["quid"@, "pound"@, "pounds"@, "sterling"@, "gbp"@],
            CurrencyType::Eur => seq!["eur"@, "euro"@],
            CurrencyType::Rub => seq!["ruble"@, "rub"@],
            CurrencyType::Amd => seq!["amd"@, "dram"@],
            CurrencyType::Cad => seq!["cad"@],
            CurrencyType::Aud => seq!["aud"@],
            CurrencyType::Jpy => seq!["yen"@, "jpy"@],
            CurrencyType::Pkr => seq!["pkr"@, "pakistani rupee"@],
        }
    }

    /// The symbol that names this currency at the start of an amount, where
    /// it has one.
    pub open spec fn spec_symbol(self) -> Option<char> {
        match self {
            CurrencyType::Usd => Some('$'),
            CurrencyType::Gbp => Some('£'),
            CurrencyType::Eur => Some('€'),
            CurrencyType::Jpy => Some('¥'),
            _ => None,
        }
    }

    /// The label under which amounts in this currency are shown.
    pub fn label(self) -> (r: &'static str)
        ensures
            r@ == self.spec_label(),
    {
        match self {
            CurrencyType::Usd => "Dollar(s) [USD]",
            CurrencyType::Eur => "Euro(s) [EUR]",
            CurrencyType::Cad => "Canadian Dollar(s) [CAD]",
            CurrencyType::Rub => "Ruble(s) [RUB]",
            CurrencyType::Jpy => "Yen [JPY]",
            CurrencyType::Aud => "Austriallian Dollar(s) [AUD]",
            CurrencyType::Amd => "Dram [AMD]",
            CurrencyType::Gbp => "Brittish Pound(s) [GBP]",
            CurrencyType::Pkr => "Pakistani rupee(s) [PKR]",
        }
    }

    /// The label of this currency as an owned string.
    pub fn to_string(&self) -> (r: String)
        ensures
            r@ == self.spec_label(),
    {
        self.label().to_owned()
    }

    /// The words and codes that name this currency at the end of an amount.
    pub fn words(self) -> (r: Vec<&'static str>)
        ensures
            views(r@) == self.spec_words(),
    {
        let r = match self {
            CurrencyType::Usd => vec!["usd", "dollar"],
            CurrencyType::Gbp => vec!["quid", "pound", "pounds", "sterling", "gbp"],
            CurrencyType::Eur => vec!["eur", "euro"],
            CurrencyType::Rub => vec!["ruble", "rub"],
            CurrencyType::Amd => vec!["amd", "dram"],
            CurrencyType::Cad => vec!["cad"],
            CurrencyType::Aud => vec!["aud"],
            CurrencyType::Jpy => vec!["yen", "jpy"],
            CurrencyType::Pkr => vec!["pkr", "pakistani rupee"],
        };
        proof {
            assert(views(r@) =~= self.spec_words());
        }
        r
    }

    /// The symbol that names this currency at the start of an amount.
    pub fn symbol(self) -> (r: Option<char>)
        ensures
            r == self.spec_symbol(),
    {
        match self {
            CurrencyType::Usd => Some('$'),
            CurrencyType::Gbp => Some('£'),
            CurrencyType::Eur => Some('€'),
            CurrencyType::Jpy => Some('¥'),
            _ => None,
        }
    }
}

/// The order in which the currencies are tried. Where a text could name two
/// of them, the earlier one wins.
pub open spec fn spec_priority() -> Seq<CurrencyType> {
    seq![
        CurrencyType::Usd,
        CurrencyType::Gbp,
        CurrencyType::Eur,
        CurrencyType::Rub,
        CurrencyType::Amd,
        CurrencyType::Cad,
        CurrencyType::Aud,
        CurrencyType::Jpy,
        CurrencyType::Pkr,
    ]
}

/// The order in which the currencies are tried.
pub fn priority() -> (r: Vec<CurrencyType>)
    ensures
        r@ == spec_priority(),
{
    let r = vec![
        CurrencyType::Usd,
        CurrencyType::Gbp,
        CurrencyType::Eur,
        CurrencyType::Rub,
        CurrencyType::Amd,
        CurrencyType::Cad,
        CurrencyType::Aud,
        CurrencyType::Jpy,
        CurrencyType::Pkr,
    ];
    proof {
        assert(r@ =~= spec_priority());
    }
    r
}

/// Whether the amount `s` names `unit`: it ends with one of the unit's
/// words or starts with its symbol.
pub open spec fn names(s: Seq<char>, unit: CurrencyType) -> bool {
    ||| exists|i: int|
        0 <= i < unit.spec_words().len() && has_suffix(s, #[trigger] unit.spec_words()[i])
    ||| unit.spec_symbol() is Some && s.len() > 0 && s[0] == unit.spec_symbol()->Some_0
}

/// The first currency of `order` that `s` names.
pub open spec fn first_named(s: Seq<char>, order: Seq<CurrencyType>) -> Option<CurrencyType>
    decreases order.len(),
{
    if order.len() == 0 {
        None
    } else if names(s, order[0]) {
        Some(order[0])
    } else {
        first_named(s, order.subrange(1, order.len() as int))
    }
}

/// The currency of the amount `s`.
pub open spec fn recognized(s: Seq<char>) -> Option<CurrencyType> {
    first_named(s, spec_priority())
}

/// The amount `s` without the name of `unit`: each word of the unit is taken
/// from the end in turn, then the symbol from the start.
pub open spec fn bare(s: Seq<char>, unit: CurrencyType) -> Seq<char> {
    let rest = stripped(s, unit.spec_words());
    match unit.spec_symbol() {
        Some(c) => without_leading(rest, c),
        None => rest,
    }
}

/// Tests whether the amount `s` names `unit`.
pub fn names_unit(s: &Vec<char>, unit: CurrencyType) -> (b: bool)
    ensures
        b == names(s@, unit),
{
    let words = unit.words();
    proof {
        assert(s@.subrange(0, s@.len() as int) =~= s@);
    }
    let mut k: usize = 0;
    while k < words.len()
        invariant
            k <= words.len(),
            views(words@) == unit.spec_words(),
            s@.subrange(0, s@.len() as int) == s@,
            forall|j: int| 0 <= j < k ==> !has_suffix(s@, #[trigger] unit.spec_words()[j]),
        decreases words.len() - k,
    {
        let word = chars_of(words[k]);
        assert(views(words@)[k as int] == word@);
        if ends_with(s, s.len(), &word) {
            return true;
        }
        k += 1;
    }
    match unit.symbol() {
        Some(c) => s.len() > 0 && s[0] == c,
        None => false,
    }
}

/// Finds the currency of the amount `s`.
pub fn recognize(s: &Vec<char>) -> (r: Option<CurrencyType>)
    ensures
        r == recognized(s@),
{
    let order = priority();
    let mut k: usize = 0;
    proof {
        assert(order@.subrange(0, order@.len() as int) =~= order@);
    }
    while k < order.len()
        invariant
            k <= order.len(),
            order@ == spec_priority(),
            recognized(s@) == first_named(s@, order@.subrange(k as int, order@.len() as int)),
        decreases order.len() - k,
    {
        let ghost rest = order@.subrange(k as int, order@.len() as int);
        proof {
            assert(rest[0] == order@[k as int]);
            assert(rest.subrange(1, rest.len() as int) =~= order@.subrange(
                k + 1,
                order@.len() as int,
            ));
        }
        if names_unit(s, order[k]) {
            return Some(order[k]);
        }
        k += 1;
    }
    None
}

/// The bounds within `s` of the amount without the name of `unit`.
pub fn strip_unit(s: &Vec<char>, unit: CurrencyType) -> (r: (usize, usize))
    ensures
        r.0 <= r.1 <= s.len(),
        s@.subrange(r.0 as int, r.1 as int) == bare(s@, unit),
{
    let words = unit.words();
    proof {
        assert(s@.subrange(0, s@.len() as int) =~= s@);
    }
    let n = strip_each(s, s.len(), words.as_slice());
    let ghost rest = s@.subrange(0, n as int);
    match unit.symbol() {
        Some(c) => {
            if n > 0 && s[0] == c {
                proof {
                    assert(rest.subrange(1, rest.len() as int) =~= s@.subrange(1, n as int));
                }
                (1, n)
            } else {
                (0, n)
            }
        },
        None => (0, n),
    }
}

/// Why a conversion gave no result.
#[derive(Clone, Debug, PartialEq, Eq)]
pub enum CurrencyError {
    /// The amount could not be taken apart into a number and a currency.
    Parse { input: String, message: String },
    /// The source of exchange rates could not be reached.
    Request { message: String },
    /// The source of exchange rates answered with something unreadable.
    JsonParse { message: String },
    /// The target names no currency.
    InvalidTarget,
}

/// A `CurrencyError` with its texts as sequences of characters.
pub enum CurrencyErrorView {
    Parse { input: Seq<char>, message: Seq<char> },
    Request { message: Seq<char> },
    JsonParse { message: Seq<char> },
    InvalidTarget,
}

impl CurrencyErrorView {
    /// The sentence that tells a person of this error.
    pub open spec fn rendered(self) -> Seq<char> {
        match self {
            CurrencyErrorView::Parse { input, message } =>
                "NumberParseError: couldn't parse number from '"@ + input + "': "@ + message,
            CurrencyErrorView::Request { message } =>
                "RequestError: couldn't request data from currency API: "@ + message,
            CurrencyErrorView::JsonParse { message } =>
                "JSONParseError: couldn't parse JSON returned by currency API: "@ + message,
            CurrencyErrorView::InvalidTarget => "Error: Invalid target currency"@,
        }
    }
}

impl View for CurrencyError {
    type V = CurrencyErrorView;

    open spec fn view(&self) -> CurrencyErrorView {
        match self {
            CurrencyError::Parse { input, message } => CurrencyErrorView::Parse {
                input: input@,
                message: message@,
            },
            CurrencyError::Request { message } => CurrencyErrorView::Request { message: message@ },
            CurrencyError::JsonParse { message } => CurrencyErrorView::JsonParse {
                message: message@,
            },
            CurrencyError::InvalidTarget => CurrencyErrorView::InvalidTarget,
        }
    }
}

impl CurrencyError {
    /// The sentence that tells a person of this error.
    pub fn to_string(&self) -> (r: String)
        ensures
            r@ == self@.rendered(),
    {
        match self {
            CurrencyError::Parse { input, message } => {
                let mut r = "NumberParseError: couldn't parse number from '".to_owned();
                r.append(input.as_str());
                r.append("': ");
                r.append(message.as_str());
                r
            },
            CurrencyError::Request { message } => {
                let mut r = "RequestError: couldn't request data from currency API: ".to_owned();
                r.append(message.as_str());
                r
            },
            CurrencyError::JsonParse { message } => {
                let mut r =
                    "JSONParseError: couldn't parse JSON returned by currency API: ".to_owned();
                r.append(message.as_str());
                r
            },
            CurrencyError::InvalidTarget => "Error: Invalid target currency".to_owned(),
        }
    }

    /// The error for an answer of the rate source that holds no rates.
    pub fn invalid_json() -> (r: CurrencyError)
        ensures
            r@ == (CurrencyErrorView::JsonParse { message: "Invalid JSON content"@ }),
    {
        CurrencyError::JsonParse { message: "Invalid JSON content".to_owned() }
    }
}

/// An amount of money as it was written: the literal of its magnitude and
/// its currency.
#[derive(Clone, Debug, PartialEq, Eq)]
pub struct Amount {
    pub number: String,
    pub unit: CurrencyType,
}

/// An `Amount` with its number as a sequence of characters.
pub struct AmountView {
    pub number: Seq<char>,
    pub unit: CurrencyType,
}

impl View for Amount {
    type V = AmountView;

    open spec fn view(&self) -> AmountView {
        AmountView { number: self.number@, unit: self.unit }
    }
}

/// The amount that a lowercase text stands for.
///
/// The text names no currency: the error holds the text. Else the name of
/// the currency is taken off and the rest, without the whitespace around
/// it, must be the literal of a number: where it is not, the error holds the
/// rest as it stood before the whitespace was taken off.
pub open spec fn parsed(s: Seq<char>) -> Result<AmountView, CurrencyErrorView> {
    match recognized(s) {
        None => Err(CurrencyErrorView::Parse { input: s, message: "Invalid unit provided."@ }),
        Some(unit) => {
            let rest = bare(s, unit);
            let number = trimmed(rest);
            if number.len() == 0 {
                Err(
                    CurrencyErrorView::Parse {
                        input: rest,
                        message: "cannot parse float from empty string"@,
                    },
                )
            } else if !is_float_literal(number) {
                Err(CurrencyErrorView::Parse { input: rest, message: "invalid float literal"@ })
            } else {
                Ok(AmountView { number, unit })
            }
        },
    }
}

/// What a parse returned, seen through the views of its parts.
pub open spec fn outcome(r: Result<Amount, CurrencyError>) -> Result<
    AmountView,
    CurrencyErrorView,
> {
    match r {
        Ok(a) => Ok(a@),
        Err(e) => Err(e@),
    }
}

impl Amount {
    /// Reads an amount from a text that is already in lowercase.
    pub fn parse_lowered(lowered: &str) -> (r: Result<Amount, CurrencyError>)
        ensures
            outcome(r) == parsed(lowered@),
    {
        let s = chars_of(lowered);
        let unit = match recognize(&s) {
            Some(unit) => unit,
            None => {
                return Err(
                    CurrencyError::Parse {
                        input: lowered.to_owned(),
                        message: "Invalid unit provided.".to_owned(),
                    },
                );
            },
        };
        let (from, to) = strip_unit(&s, unit);
        let (a, b) = trim_bounds(&s, from, to);
        if a == b {
            return Err(
                CurrencyError::Parse {
                    input: string_of(&s, from, to),
                    message: "cannot parse float from empty string".to_owned(),
                },
            );
        }
        if !check_float_literal(&s, a, b) {
            return Err(
                CurrencyError::Parse {
                    input: string_of(&s, from, to),
                    message: "invalid float literal".to_owned(),
                },
            );
        }
        Ok(Amount { number: string_of(&s, a, b), unit })
    }

    /// Reads an amount such as `$74`, `80.90 CAD` or `20 quid`, in upper or
    /// lower case.
    pub fn parse(input: &str) -> (r: Result<Amount, CurrencyError>)
        ensures
            outcome(r) == parsed(lowercase(input@)),
    {
        let lowered = input.to_lowercase();
        Amount::parse_lowered(lowered.as_str())
    }
}

/// Whether `token` is one of the names of `unit`: one of its words, or its
/// symbol alone.
pub open spec fn is_name_of(token: Seq<char>, unit: CurrencyType) -> bool {
    ||| exists|i: int| 0 <= i < unit.spec_words().len() && token == #[trigger] unit.spec_words()[i]
    ||| unit.spec_symbol() is Some && token == seq![unit.spec_symbol()->Some_0]
}

/// The first currency of `order` that has `token` among its names.
pub open spec fn first_called(token: Seq<char>, order: Seq<CurrencyType>) -> Option<
    CurrencyType,
>
    decreases order.len(),
{
    if order.len() == 0 {
        None
    } else if is_name_of(token, order[0]) {
        Some(order[0])
    } else {
        first_called(token, order.subrange(1, order.len() as int))
    }
}

/// The currency that a lowercase token names, by the same words and symbols
/// that amounts are written with.
pub open spec fn called(token: Seq<char>) -> Option<CurrencyType> {
    first_called(token, spec_priority())
}

/// The currency that a target names: the whitespace around it does not
/// count, nor does upper or lower case.
pub open spec fn targeted(target: Seq<char>) -> Option<CurrencyType> {
    called(lowercase(trimmed(target)))
}

/// Tests whether `token` is one of the names of `unit`.
pub fn is_called(token: &Vec<char>, unit: CurrencyType) -> (b: bool)
    ensures
        b == is_name_of(token@, unit),
{
    let words = unit.words();
    proof {
        assert(token@.subrange(0, token@.len() as int) =~= token@);
    }
    let mut k: usize = 0;
    while k < words.len()
        invariant
            k <= words.len(),
            views(words@) == unit.spec_words(),
            token@.subrange(0, token@.len() as int) == token@,
            forall|j: int| 0 <= j < k ==> token@ != #[trigger] unit.spec_words()[j],
        decreases words.len() - k,
    {
        let word = chars_of(words[k]);
        assert(views(words@)[k as int] == word@);
        if word.len() == token.len() && ends_with(token, token.len(), &word) {
            proof {
                assert(token@.subrange(0, token@.len() as int) =~= word@);
            }
            return true;
        }
        k += 1;
    }
    match unit.symbol() {
        Some(c) => {
            proof {
                if token@.len() == 1 && token@[0] == c {
                    assert(token@ =~= seq![c]);
                }
            }
            token.len() == 1 && token[0] == c
        },
        None => false,
    }
}

/// Finds the currency that a lowercase token names.
pub fn resolve_lowered(token: &str) -> (r: Option<CurrencyType>)
    ensures
        r == called(token@),
{
    let chars = chars_of(token);
    let order = priority();
    let mut k: usize = 0;
    proof {
        assert(order@.subrange(0, order@.len() as int) =~= order@);
    }
    while k < order.len()
        invariant
            k <= order.len(),
            order@ == spec_priority(),
            chars@ == token@,
            called(token@) == first_called(token@, order@.subrange(k as int, order@.len() as int)),
        decreases order.len() - k,
    {
        let ghost rest = order@.subrange(k as int, order@.len() as int);
        proof {
            assert(rest[0] == order@[k as int]);
            assert(rest.subrange(1, rest.len() as int) =~= order@.subrange(
                k + 1,
                order@.len() as int,
            ));
        }
        if is_called(&chars, order[k]) {
            return Some(order[k]);
        }
        k += 1;
    }
    None
}

/// Finds the currency that a target such as `usd`, ` Yen ` or `€` names.
pub fn resolve_target(target: &str) -> (r: Option<CurrencyType>)
    ensures
        r == targeted(target@),
{
    let chars = chars_of(target);
    let (a, b) = trim_bounds(&chars, 0, chars.len());
    proof {
        assert(chars@.subrange(0, chars@.len() as int) =~= chars@);
    }
    let token = string_of(&chars, a, b);
    let lowered = token.as_str().to_lowercase();
    resolve_lowered(lowered.as_str())
}

/// A conversion that is ready to be computed: the amount as it was
/// written, and the currency to show it in.
#[derive(Clone, Debug, PartialEq, Eq)]
pub struct Quote {
    pub amount: Amount,
    pub target: CurrencyType,
}

/// A `Quote` with its amount seen through its view.
pub struct QuoteView {
    pub amount: AmountView,
    pub target: CurrencyType,
}

impl View for Quote {
    type V = QuoteView;

    open spec fn view(&self) -> QuoteView {
        QuoteView { amount: self.amount@, target: self.target }
    }
}

/// What becomes of a parsed amount once the exchange rates were brought up
/// to date and the target was looked up. A failed refresh ends the
/// conversion with its error; after that an unknown target does.
pub open spec fn quoted(
    amount: AmountView,
    refreshed: Result<(), CurrencyErrorView>,
    target: Option<CurrencyType>,
) -> Result<QuoteView, CurrencyErrorView> {
    match refreshed {
        Err(e) => Err(e),
        Ok(_) => match target {
            None => Err(CurrencyErrorView::InvalidTarget),
            Some(unit) => Ok(QuoteView { amount, target: unit }),
        },
    }
}

/// The outcome of a refresh, seen through the view of its error.
pub open spec fn refresh_view(r: Result<(), CurrencyError>) -> Result<(), CurrencyErrorView> {
    match r {
        Ok(_) => Ok(()),
        Err(e) => Err(e@),
    }
}

/// A quote or its error, seen through the views of its parts.
pub open spec fn quote_view(r: Result<Quote, CurrencyError>) -> Result<
    QuoteView,
    CurrencyErrorView,
> {
    match r {
        Ok(q) => Ok(q@),
        Err(e) => Err(e@),
    }
}

impl Amount {
    /// Goes on with this amount after the exchange rates were brought up to
    /// date, toward the currency that the target was found to name.
    pub fn quote_with(
        self,
        refreshed: Result<(), CurrencyError>,
        target: Option<CurrencyType>,
    ) -> (r: Result<Quote, CurrencyError>)
        ensures
            quote_view(r) == quoted(self@, refresh_view(refreshed), target),
    {
        match refreshed {
            Err(e) => Err(e),
            Ok(_) => match target {
                None => Err(CurrencyError::InvalidTarget),
                Some(unit) => Ok(Quote { amount: self, target: unit }),
            },
        }
    }

    /// Goes on with this amount after the exchange rates were brought up to
    /// date, toward the currency that `target` names.
    pub fn quote(self, refreshed: Result<(), CurrencyError>, target: &str) -> (r: Result<
        Quote,
        CurrencyError,
    >)
        ensures
            quote_view(r) == quoted(self@, refresh_view(refreshed), targeted(target@)),
    {
        let unit = resolve_target(target);
        self.quote_with(refreshed, unit)
    }
}

/// An amount as it is shown: the digits of its value, a space, and the
/// label of its currency.
pub open spec fn shown(digits: Seq<char>, unit: CurrencyType) -> Seq<char> {
    digits + " "@ + unit.spec_label()
}

/// The answer of a conversion: the amount as it was given, an arrow, and the
/// amount in the target currency.
pub open spec fn answered(quote: QuoteView, initial: Seq<char>, converted: Seq<char>) -> Seq<
    char,
> {
    shown(initial, quote.amount.unit) + " -> "@ + shown(converted, quote.target)
}

/// Shows an amount whose value has the digits `digits`.
pub fn show(digits: &str, unit: CurrencyType) -> (r: String)
    ensures
        r@ == shown(digits@, unit),
{
    let mut r = digits.to_owned();
    r.append(" ");
    r.append(unit.label());
    r
}

impl Amount {
    /// The rate by which the magnitude of this amount is divided to give its
    /// value in U.S. dollars: the price of one dollar in the currency of the
    /// amount.
    pub fn divisor<'a, R>(&self, rates: &'a ExchangeRates<R>) -> (r: &'a R)
        ensures
            *r == rates.spec_rate(self.unit),
    {
        rates.rate(self.unit)
    }
}

impl Quote {
    /// The rate by which the magnitude of the amount is divided to give its
    /// value in U.S. dollars: the price of one dollar in the currency of the
    /// amount.
    pub fn divisor<'a, R>(&self, rates: &'a ExchangeRates<R>) -> (r: &'a R)
        ensures
            *r == rates.spec_rate(self.amount.unit),
    {
        rates.rate(self.amount.unit)
    }

    /// The rate by which a value in U.S. dollars is multiplied to give the
    /// converted amount: the price of one dollar in the target currency.
    pub fn factor<'a, R>(&self, rates: &'a ExchangeRates<R>) -> (r: &'a R)
        ensures
            *r == rates.spec_rate(self.target),
    {
        rates.rate(self.target)
    }

    /// Words the answer of this conversion, from the digits of the value in
    /// the source currency and those of the value in the target currency.
    pub fn render(&self, initial: &str, converted: &str) -> (r: String)
        ensures
            r@ == answered(self@, initial@, converted@),
    {
        let mut r = show(initial, self.amount.unit);
        r.append(" -> ");
        let second = show(converted, self.target);
        r.append(second.as_str());
        r
    }
}

/// The outcome of a conversion, seen through the views of its parts.
pub open spec fn answer_view(outcome: Result<String, CurrencyError>) -> Result<
    Seq<char>,
    CurrencyErrorView,
> {
    match outcome {
        Ok(answer) => Ok(answer@),
        Err(e) => Err(e@),
    }
}

/// What the person who asked is told: the answer of the conversion, or the
/// sentence of the error that ended it.
pub open spec fn replied(outcome: Result<Seq<char>, CurrencyErrorView>) -> Seq<char> {
    match outcome {
        Ok(answer) => answer,
        Err(e) => e.rendered(),
    }
}

/// What a conversion hands back: the reply, and the converter to go on
/// with. After a conversion that gave an answer that is the converter with
/// the rates the answer was made by; after one that failed it is the
/// converter as it was given, whatever the refresh did.
pub open spec fn settled<R>(
    outcome: Result<Seq<char>, CurrencyErrorView>,
    given: CurrencyConverter<R>,
    refreshed: CurrencyConverter<R>,
) -> (Seq<char>, CurrencyConverter<R>) {
    (
        replied(outcome),
        if outcome is Ok {
            refreshed
        } else {
            given
        },
    )
}

/// Words the outcome of a conversion for the person who asked. No outcome
/// goes without a reply.
pub fn reply(outcome: Result<String, CurrencyError>) -> (r: String)
    ensures
        r@ == replied(answer_view(outcome)),
{
    match outcome {
        Ok(answer) => answer,
        Err(e) => e.to_string(),
    }
}

/// Ends a conversion: words its outcome, and picks the converter to go on
/// with from the one that was given and the one that the conversion
/// refreshed.
pub fn settle<R>(
    outcome: Result<String, CurrencyError>,
    given: CurrencyConverter<R>,
    refreshed: CurrencyConverter<R>,
) -> (r: (String, CurrencyConverter<R>))
    ensures
        r.0@ == replied(answer_view(outcome)),
        r.1 == (if outcome is Ok {
            refreshed
        } else {
            given
        }),
        (r.0@, r.1) == settled(answer_view(outcome), given, refreshed),
{
    match outcome {
        Ok(answer) => (answer, refreshed),
        Err(e) => (e.to_string(), given),
    }
}

/// How the refresh of a conversion at the time `now` ended, where `fetched`
/// is the outcome of the fetch that it led to, if it led to one: rates that
/// are fresh need none, and a fetch that failed is the failure of the
/// refresh.
pub open spec fn refresh_outcome<R>(
    given: CurrencyConverter<R>,
    now: i64,
    fetched: Result<ExchangeRates<R>, CurrencyError>,
) -> Result<(), CurrencyErrorView> {
    if given.stale_at(now) {
        match fetched {
            Ok(_) => Ok(()),
            Err(e) => Err(e@),
        }
    } else {
        Ok(())
    }
}

/// The outcome of a whole conversion of `input` to `target`. The amount is
/// read first, then the rates are refreshed, then the target is looked up,
/// and the first of these that fails ends the conversion. `initial` and
/// `converted` are the digits of the value in the currency of the amount and
/// in the target currency.
pub open spec fn conversion<R>(
    given: CurrencyConverter<R>,
    input: Seq<char>,
    target: Seq<char>,
    now: i64,
    fetched: Result<ExchangeRates<R>, CurrencyError>,
    initial: Seq<char>,
    converted: Seq<char>,
) -> Result<Seq<char>, CurrencyErrorView> {
    match parsed(lowercase(input)) {
        Err(e) => Err(e),
        Ok(amount) => match quoted(
            amount,
            refresh_outcome(given, now, fetched),
            targeted(target),
        ) {
            Err(e) => Err(e),
            Ok(quote) => Ok(answered(quote, initial, converted)),
        },
    }
}

/// What a whole conversion hands back: the steps `Amount::parse`,
/// `plan_refresh` at the time `now`, `complete_refresh` with `fetched` where
/// a fetch was asked for, `Amount::quote`, `Quote::render` and `settle`, one
/// after the other.
pub open spec fn ran<R>(
    given: CurrencyConverter<R>,
    input: Seq<char>,
    target: Seq<char>,
    now: i64,
    fetched: Result<ExchangeRates<R>, CurrencyError>,
    initial: Seq<char>,
    converted: Seq<char>,
) -> (Seq<char>, CurrencyConverter<R>) {
    settled(
        conversion(given, input, target, now, fetched, initial, converted),
        given,
        given.after_request(now, fetched),
    )
}

/// The first currency of `order` that `s` names is named by `s`, and no
/// currency before it in `order` is; there is none only where `s` names no
/// currency of `order`.
pub proof fn lemma_first_named(s: Seq<char>, order: Seq<CurrencyType>)
    ensures
        first_named(s, order) matches Some(unit) ==> exists|k: int|
            0 <= k < order.len() && #[trigger] order[k] == unit && names(s, unit) && forall|j: int|
                0 <= j < k ==> !names(s, #[trigger] order[j]),
        first_named(s, order) is None ==> forall|j: int|
            0 <= j < order.len() ==> !names(s, #[trigger] order[j]),
    decreases order.len(),
{
    if order.len() > 0 && !names(s, order[0]) {
        let rest = order.subrange(1, order.len() as int);
        lemma_first_named(s, rest);
        match first_named(s, rest) {
            Some(unit) => {
                let k = choose|k: int|
                    0 <= k < rest.len() && #[trigger] rest[k] == unit && names(s, unit) && forall|
                        j: int,
                    | 0 <= j < k ==> !names(s, #[trigger] rest[j]);
                assert(order[k + 1] == unit);
                assert forall|j: int| 0 <= j < k + 1 implies !names(s, #[trigger] order[j]) by {
                    if j > 0 {
                        assert(order[j] == rest[j - 1]);
                    }
                }
            },
            None => {
                assert forall|j: int| 0 <= j < order.len() implies !names(
                    s,
                    #[trigger] order[j],
                ) by {
                    if j > 0 {
                        assert(order[j] == rest[j - 1]);
                    }
                }
            },
        }
    } else if order.len() > 0 {
        assert(order[0] == order[0] && names(s, order[0]));
    }
}

/// Where an amount names more than one currency, the order of priority
/// decides: the currency of the amount is the earliest in that order which
/// the amount names.
pub proof fn lemma_priority_decides(s: Seq<char>)
    ensures
        recognized(s) matches Some(unit) ==> exists|k: int|
            0 <= k < spec_priority().len() && #[trigger] spec_priority()[k] == unit && names(
                s,
                unit,
            ) && forall|j: int| 0 <= j < k ==> !names(s, #[trigger] spec_priority()[j]),
        recognized(s) is None ==> forall|unit: CurrencyType| !names(s, unit),
{
    lemma_first_named(s, spec_priority());
    if recognized(s) is None {
        assert forall|unit: CurrencyType| !names(s, unit) by {
            let order = spec_priority();
            let k: int = match unit {
                CurrencyType::Usd => 0,
                CurrencyType::Gbp => 1,
                CurrencyType::Eur => 2,
                CurrencyType::Rub => 3,
                CurrencyType::Amd => 4,
                CurrencyType::Cad => 5,
                CurrencyType::Aud => 6,
                CurrencyType::Jpy => 7,
                CurrencyType::Pkr => 8,
            };
            assert(order[k] == unit);
        }
    }
}

/// The first currency of `order` that has `token` among its names has it,
/// and no currency before it in `order` has; there is none only where no
/// currency of `order` has it.
pub proof fn lemma_first_called(token: Seq<char>, order: Seq<CurrencyType>)
    ensures
        first_called(token, order) matches Some(unit) ==> exists|k: int|
            0 <= k < order.len() && #[trigger] order[k] == unit && is_name_of(token, unit)
                && forall|j: int| 0 <= j < k ==> !is_name_of(token, #[trigger] order[j]),
        first_called(token, order) is None ==> forall|j: int|
            0 <= j < order.len() ==> !is_name_of(token, #[trigger] order[j]),
    decreases order.len(),
{
    if order.len() > 0 && !is_name_of(token, order[0]) {
        let rest = order.subrange(1, order.len() as int);
        lemma_first_called(token, rest);
        match first_called(token, rest) {
            Some(unit) => {
                let k = choose|k: int|
                    0 <= k < rest.len() && #[trigger] rest[k] == unit && is_name_of(token, unit)
                        && forall|j: int| 0 <= j < k ==> !is_name_of(token, #[trigger] rest[j]);
                assert(order[k + 1] == unit);
                assert forall|j: int| 0 <= j < k + 1 implies !is_name_of(
                    token,
                    #[trigger] order[j],
                ) by {
                    if j > 0 {
                        assert(order[j] == rest[j - 1]);
                    }
                }
            },
            None => {
                assert forall|j: int| 0 <= j < order.len() implies !is_name_of(
                    token,
                    #[trigger] order[j],
                ) by {
                    if j > 0 {
                        assert(order[j] == rest[j - 1]);
                    }
                }
            },
        }
    } else if order.len() > 0 {
        assert(order[0] == order[0] && is_name_of(token, order[0]));
    }
}

/// The currency that a token names has the token among its names, and a
/// token names none only where no currency has it among its names.
pub proof fn lemma_called(token: Seq<char>)
    ensures
        called(token) matches Some(unit) ==> is_name_of(token, unit),
        called(token) is None ==> forall|unit: CurrencyType| !is_name_of(token, unit),
{
    lemma_first_called(token, spec_priority());
    if called(token) is None {
        assert forall|unit: CurrencyType| !is_name_of(token, unit) by {
            let order = spec_priority();
            let k: int = match unit {
                CurrencyType::Usd => 0,
                CurrencyType::Gbp => 1,
                CurrencyType::Eur => 2,
                CurrencyType::Rub => 3,
                CurrencyType::Amd => 4,
                CurrencyType::Cad => 5,
                CurrencyType::Aud => 6,
                CurrencyType::Jpy => 7,
                CurrencyType::Pkr => 8,
            };
            assert(order[k] == unit);
        }
    }
}

/// Every way of naming the dollar gives the same amount: for the literal
/// `n` of a number, `n usd`, `n dollar` and `$n` all stand for `n` U.S.
/// dollars.
pub proof fn lemma_spellings_of_dollars_agree(n: Seq<char>)
    requires
        is_float_literal(n),
    ensures
        parsed(n + " usd"@) == Ok::<AmountView, CurrencyErrorView>(
            (AmountView { number: n, unit: CurrencyType::Usd }),
        ),
        parsed(n + " dollar"@) == parsed(n + " usd"@),
        parsed("$"@ + n) == parsed(n + " usd"@),
{
    reveal_strlit(" usd");
    reveal_strlit(" dollar");
    reveal_strlit("$");
    reveal_strlit("usd");
    reveal_strlit("dollar");
    let usd = CurrencyType::Usd;
    assert(n + " usd"@ =~= n + seq![' '] + usd.spec_words()[0]);
    assert(n + " dollar"@ =~= n + seq![' '] + usd.spec_words()[1]);
    assert("$"@ + n =~= seq![usd.spec_symbol()->Some_0] + n);
    lemma_word_names_its_currency(n, usd, 0);
    lemma_word_names_its_currency(n, usd, 1);
    lemma_symbol_names_its_currency(n, usd);
}

/// An unknown target is told apart from an amount that could not be read.
/// The one ends a conversion with `InvalidTarget`; the other never does, and
/// the sentences of the two differ from their first letter.
pub proof fn lemma_unknown_target_is_told_apart(amount: AmountView, input: Seq<char>)
    ensures
        quoted(amount, Ok(()), None) == Err::<QuoteView, CurrencyErrorView>(
            CurrencyErrorView::InvalidTarget,
        ),
        parsed(input) is Err ==> parsed(input)->Err_0 is Parse,
        parsed(input) is Err ==> parsed(input)->Err_0.rendered()
            != CurrencyErrorView::InvalidTarget.rendered(),
{
    reveal_strlit("Error: Invalid target currency");
    reveal_strlit("NumberParseError: couldn't parse number from '");
    if parsed(input) is Err {
        let e = parsed(input)->Err_0;
        assert(e is Parse);
        assert(e.rendered()[0] == 'N');
        assert(CurrencyErrorView::InvalidTarget.rendered()[0] == 'E');
    }
}

/// Every label ends with the code of its currency in square brackets.
proof fn lemma_labels_end_with_a_bracket(unit: CurrencyType)
    ensures
        unit.spec_label().len() > 0,
        unit.spec_label().last() == ']',
{
    match unit {
        CurrencyType::Usd => reveal_strlit("Dollar(s) [USD]"),
        CurrencyType::Eur => reveal_strlit("Euro(s) [EUR]"),
        CurrencyType::Cad => reveal_strlit("Canadian Dollar(s) [CAD]"),
        CurrencyType::Rub => reveal_strlit("Ruble(s) [RUB]"),
        CurrencyType::Jpy => reveal_strlit("Yen [JPY]"),
        CurrencyType::Aud => reveal_strlit("Austriallian Dollar(s) [AUD]"),
        CurrencyType::Amd => reveal_strlit("Dram [AMD]"),
        CurrencyType::Gbp => reveal_strlit("Brittish Pound(s) [GBP]"),
        CurrencyType::Pkr => reveal_strlit("Pakistani rupee(s) [PKR]"),
    }
}

/// The sentence of an error is not empty. That of an amount which could not
/// be read begins with `NumberParseError`, and no other sentence and no
/// answer reads `Error: Invalid target currency` but that of an unknown
/// target.
pub proof fn lemma_sentences_are_told_apart(
    e: CurrencyErrorView,
    quote: QuoteView,
    initial: Seq<char>,
    converted: Seq<char>,
)
    ensures
        e.rendered().len() > 0,
        e is Parse ==> has_prefix(e.rendered(), "NumberParseError"@),
        e.rendered() == CurrencyErrorView::InvalidTarget.rendered() <==> e is InvalidTarget,
        answered(quote, initial, converted).len() > 0,
        answered(quote, initial, converted) != CurrencyErrorView::InvalidTarget.rendered(),
{
    reveal_strlit("Error: Invalid target currency");
    reveal_strlit("NumberParseError: couldn't parse number from '");
    reveal_strlit("RequestError: couldn't request data from currency API: ");
    reveal_strlit("JSONParseError: couldn't parse JSON returned by currency API: ");
    reveal_strlit("NumberParseError");
    let invalid = CurrencyErrorView::InvalidTarget.rendered();
    assert(invalid[0] == 'E');
    match e {
        CurrencyErrorView::Parse { input, message } => {
            assert(e.rendered()[0] == 'N');
            assert(e.rendered().subrange(0, 16) =~= "NumberParseError"@);
        },
        CurrencyErrorView::Request { message } => {
            assert(e.rendered()[0] == 'R');
        },
        CurrencyErrorView::JsonParse { message } => {
            assert(e.rendered()[0] == 'J');
        },
        CurrencyErrorView::InvalidTarget => {},
    }
    let answer = answered(quote, initial, converted);
    lemma_labels_end_with_a_bracket(quote.target);
    assert(answer.last() == quote.target.spec_label().last());
    assert(invalid.last() == 'y');
}

/// A conversion always ends with a reply that is not empty, and with a
/// converter that has the key and the maximum age of the one that was
/// given. Where the conversion failed, the converter is the one that was
/// given, rates and all.
pub proof fn lemma_run_replies_and_keeps_the_converter<R>(
    given: CurrencyConverter<R>,
    input: Seq<char>,
    target: Seq<char>,
    now: i64,
    fetched: Result<ExchangeRates<R>, CurrencyError>,
    initial: Seq<char>,
    converted: Seq<char>,
)
    ensures
        ran(given, input, target, now, fetched, initial, converted).0.len() > 0,
        ran(given, input, target, now, fetched, initial, converted).1.api_key == given.api_key,
        ran(given, input, target, now, fetched, initial, converted).1.max_age == given.max_age,
        conversion(given, input, target, now, fetched, initial, converted) is Err ==> ran(
            given,
            input,
            target,
            now,
            fetched,
            initial,
            converted,
        ).1 == given,
{
    match conversion(given, input, target, now, fetched, initial, converted) {
        Ok(answer) => {
            let amount = parsed(lowercase(input))->Ok_0;
            let quote = quoted(
                amount,
                refresh_outcome(given, now, fetched),
                targeted(target),
            )->Ok_0;
            lemma_sentences_are_told_apart(
                CurrencyErrorView::InvalidTarget,
                quote,
                initial,
                converted,
            );
        },
        Err(e) => {
            let quote = QuoteView {
                amount: AmountView { number: initial, unit: CurrencyType::Usd },
                target: CurrencyType::Usd,
            };
            lemma_sentences_are_told_apart(e, quote, initial, converted);
        },
    }
}

/// A conversion to the currency of the amount itself divides and multiplies
/// by one and the same rate, and where the two values then have the same
/// digits, the answer shows one and the same amount on both sides of the
/// arrow.
pub proof fn lemma_identity_conversion<R>(
    given: CurrencyConverter<R>,
    input: Seq<char>,
    target: Seq<char>,
    now: i64,
    fetched: Result<ExchangeRates<R>, CurrencyError>,
    digits: Seq<char>,
    rates: ExchangeRates<R>,
)
    requires
        parsed(lowercase(input)) is Ok,
        targeted(target) == Some(parsed(lowercase(input))->Ok_0.unit),
        refresh_outcome(given, now, fetched) is Ok,
    ensures
        ({
            let amount = parsed(lowercase(input))->Ok_0;
            let quote = quoted(amount, Ok(()), targeted(target))->Ok_0;
            &&& quoted(amount, Ok(()), targeted(target)) is Ok
            &&& rates.spec_rate(quote.amount.unit) == rates.spec_rate(quote.target)
            &&& ran(given, input, target, now, fetched, digits, digits).0 == shown(
                digits,
                amount.unit,
            ) + " -> "@ + shown(digits, amount.unit)
        }),
{
}

/// The two failures of a conversion whose refresh does not fail are never
/// confused. The reply is `Error: Invalid target currency` exactly where
/// the amount could be read and the target names no currency; where the
/// amount could not be read, the reply begins with `NumberParseError`,
/// whatever the target.
pub proof fn lemma_failures_are_not_confused<R>(
    given: CurrencyConverter<R>,
    input: Seq<char>,
    target: Seq<char>,
    now: i64,
    fetched: Result<ExchangeRates<R>, CurrencyError>,
    initial: Seq<char>,
    converted: Seq<char>,
)
    requires
        refresh_outcome(given, now, fetched) is Ok,
    ensures
        ran(given, input, target, now, fetched, initial, converted).0
            == CurrencyErrorView::InvalidTarget.rendered() <==> parsed(lowercase(input)) is Ok
            && targeted(target) is None,
        parsed(lowercase(input)) is Err ==> has_prefix(
            ran(given, input, target, now, fetched, initial, converted).0,
            "NumberParseError"@,
        ),
{
    match parsed(lowercase(input)) {
        Err(e) => {
            let quote = QuoteView {
                amount: AmountView { number: initial, unit: CurrencyType::Usd },
                target: CurrencyType::Usd,
            };
            lemma_sentences_are_told_apart(e, quote, initial, converted);
        },
        Ok(amount) => {
            match targeted(target) {
                None => {},
                Some(unit) => {
                    lemma_sentences_are_told_apart(
                        CurrencyErrorView::InvalidTarget,
                        QuoteView { amount, target: unit },
                        initial,
                        converted,
                    );
                },
            }
        },
    }
}

/// A refresh that fails in a conversion costs the answer and nothing else.
/// Where the amount could be read, the rates were stale and the fetch
/// failed, the reply is the sentence of that failure, and the converter
/// that is handed back holds the rates that it held, key and maximum age
/// with them.
pub proof fn lemma_failed_refresh_keeps_the_rates<R>(
    given: CurrencyConverter<R>,
    input: Seq<char>,
    target: Seq<char>,
    now: i64,
    fetched: Result<ExchangeRates<R>, CurrencyError>,
    initial: Seq<char>,
    converted: Seq<char>,
)
    requires
        parsed(lowercase(input)) is Ok,
        now - given.exchange_rates.when > given.max_age,
        fetched is Err,
    ensures
        ran(given, input, target, now, fetched, initial, converted).1 == given,
        ran(given, input, target, now, fetched, initial, converted).1.exchange_rates
            == given.exchange_rates,
        ran(given, input, target, now, fetched, initial, converted).0
            == fetched->Err_0@.rendered(),
        ran(given, input, target, now, fetched, initial, converted).0.len() > 0,
{
    lemma_run_replies_and_keeps_the_converter(
        given,
        input,
        target,
        now,
        fetched,
        initial,
        converted,
    );
}

} // verus!
