//! Exchange rates, the converter that keeps the latest set of them, and
//! amounts of money that are shown by them.
//!
//! A rate is the price of one U.S. dollar in a currency. The rates are
//! fetched from a remote source by the caller; the converter decides when
//! that is due and what a fetch that failed leaves behind. The type `R` of a
//! rate and of a value is the caller's choice: this module stores numbers and
//! selects among them, it does not compute with them.
//!
//! Times are counted in milliseconds since the Unix epoch, ages in
//! milliseconds.

use crate::currency::{show, shown, CurrencyError, CurrencyErrorView, CurrencyType};
use vstd::prelude::*;

verus! {

/// One rate for each supported currency, and the time of their fetching.
#[derive(Clone, Copy, Debug, PartialEq, PartialOrd)]
pub struct ExchangeRates<R> {
    /// When the exchange rates were last fetched, in milliseconds since
    /// the Unix epoch
    pub when: i64,
    /// Euro
    pub eur: R,
    /// U.S. Dollar
    pub usd: R,
    /// Canadian Dollar
    pub cad: R,
    /// Russian Ruble
    pub rub: R,
    /// Yen
    pub jpy: R,
    /// Australian Dollar
    pub aud: R,
    /// Armenian Dram
    pub amd: R,
    /// British Pound
    pub gbp: R,
    /// Pakistani rupee
    pub pkr: R,
}

/// The time of the system clock as chrono dates it: the reading of
/// `SystemTime::now`, which chrono's `DateTime::<Utc>::from` turns into a
/// date and `DateTime::timestamp_millis` into milliseconds since the Unix
/// epoch. A clock that stands before the epoch gives a negative time.
/// Nothing is known of the value: two readings may differ in either
/// direction. The conversion has no date only for a clock that reads beyond
/// the last year of chrono's calendar, some 260,000 years from the epoch.
#[verifier::external_body]
fn clock_millis() -> i64 {
    chrono::DateTime::<chrono::Utc>::from(std::time::SystemTime::now()).timestamp_millis()
}

impl<R> ExchangeRates<R> {
    /// The rate of `unit`: the price of one U.S. dollar in it.
    pub open spec fn spec_rate(self, unit: CurrencyType) -> R {
        match unit {
            CurrencyType::Usd => self.usd,
            CurrencyType::Eur => self.eur,
            CurrencyType::Cad => self.cad,
            CurrencyType::Rub => self.rub,
            CurrencyType::Jpy => self.jpy,
            CurrencyType::Aud => self.aud,
            CurrencyType::Amd => self.amd,
            CurrencyType::Gbp => self.gbp,
            CurrencyType::Pkr => self.pkr,
        }
    }

    /// The rate of `unit`: the price of one U.S. dollar in it.
    pub fn rate(&self, unit: CurrencyType) -> (r: &R)
        ensures
            *r == self.spec_rate(unit),
    {
        match unit {
            CurrencyType::Usd => &self.usd,
            CurrencyType::Eur => &self.eur,
            CurrencyType::Cad => &self.cad,
            CurrencyType::Rub => &self.rub,
            CurrencyType::Jpy => &self.jpy,
            CurrencyType::Aud => &self.aud,
            CurrencyType::Amd => &self.amd,
            CurrencyType::Gbp => &self.gbp,
            CurrencyType::Pkr => &self.pkr,
        }
    }

    /// Takes fetched rates in or turns them away. `sound` says whether each
    /// of them is a finite number above zero and that of the dollar is one:
    /// rates that are not sound are an answer of the rate source that could
    /// not be read.
    pub fn vetted(self, sound: bool) -> (r: Result<Self, CurrencyError>)
        ensures
            sound ==> r == Ok::<Self, CurrencyError>(self),
            !sound ==> r is Err && r->Err_0@ == (CurrencyErrorView::JsonParse {
                message: "Invalid JSON content"@,
            }),
    {
        if sound {
            Ok(self)
        } else {
            Err(CurrencyError::invalid_json())
        }
    }

    /// The rates that were fetched just now: the given rates, with the
    /// reading of the system clock as the time of their fetching.
    pub fn stamp(eur: R, usd: R, cad: R, rub: R, jpy: R, aud: R, amd: R, gbp: R, pkr: R) -> (r:
        Self)
        ensures
            r == (ExchangeRates { when: r.when, eur, usd, cad, rub, jpy, aud, amd, gbp, pkr }),
    {
        ExchangeRates { when: clock_millis(), eur, usd, cad, rub, jpy, aud, amd, gbp, pkr }
    }
}

/// What a converter asks of its caller so that its rates are fresh.
#[derive(Clone, Copy, Debug, PartialEq, Eq, Structural)]
pub enum Refresh {
    /// Nothing: the rates it holds are fresh enough.
    Current,
    /// One fetch from the rate source, whose outcome goes to
    /// `complete_refresh`.
    Fetch,
}

/// The latest exchange rates, the key that fetches them, and the age beyond
/// which they are fetched again.
#[derive(Debug, Clone, PartialEq, PartialOrd)]
pub struct CurrencyConverter<R> {
    /// The exchange rates
    pub exchange_rates: ExchangeRates<R>,
    /// The api key for the currency API
    pub api_key: String,
    /// The maximum valid age for the `exchange_rates` before being
    /// refreshed, in milliseconds.
    pub max_age: u64,
}

impl<R> CurrencyConverter<R> {
    /// Whether the rates are too old at the time `now`: more than the
    /// maximum age has passed since they were fetched.
    pub open spec fn stale_at(self, now: i64) -> bool {
        now - self.exchange_rates.when > self.max_age
    }

    /// What the converter asks for at the time `now`.
    pub open spec fn planned(self, now: i64) -> Refresh {
        if self.stale_at(now) {
            Refresh::Fetch
        } else {
            Refresh::Current
        }
    }

    /// The converter after the outcome `fetched` of a fetch: new rates take
    /// the place of the old ones, a failure leaves everything as it was.
    pub open spec fn refreshed(self, fetched: Result<ExchangeRates<R>, CurrencyError>) -> Self {
        match fetched {
            Ok(rates) => CurrencyConverter {
                exchange_rates: rates,
                api_key: self.api_key,
                max_age: self.max_age,
            },
            Err(_) => self,
        }
    }

    /// The number of fetches that a request at the time `now` leads to.
    pub open spec fn fetches_at(self, now: i64) -> nat {
        match self.planned(now) {
            Refresh::Fetch => 1,
            Refresh::Current => 0,
        }
    }

    /// The converter after a whole request at the time `now`, where
    /// `fetched` is the outcome of the fetch that the request led to, if it
    /// led to one.
    pub open spec fn after_request(
        self,
        now: i64,
        fetched: Result<ExchangeRates<R>, CurrencyError>,
    ) -> Self {
        match self.planned(now) {
            Refresh::Fetch => self.refreshed(fetched),
            Refresh::Current => self,
        }
    }

    /// Makes a converter from the outcome of the first fetch. A first fetch
    /// that failed leaves no converter, and its error is handed back.
    pub fn new(first: Result<ExchangeRates<R>, CurrencyError>, api_key: String, max_age: u64) -> (r:
        Result<Self, CurrencyError>)
        ensures
            first matches Ok(exchange_rates) ==> r == Ok::<Self, CurrencyError>(
                (CurrencyConverter { exchange_rates, api_key, max_age }),
            ),
            first matches Err(e) ==> r == Err::<Self, CurrencyError>(e),
    {
        match first {
            Ok(exchange_rates) => Ok(CurrencyConverter { exchange_rates, api_key, max_age }),
            Err(e) => Err(e),
        }
    }

    /// The rates that the converter holds. They may be stale where the last
    /// fetch failed.
    pub fn current(&self) -> (r: &ExchangeRates<R>)
        ensures
            *r == self.exchange_rates,
    {
        &self.exchange_rates
    }

    /// Decides at the time `now` whether the rates are to be fetched again.
    pub fn plan_refresh(&self, now: i64) -> (r: Refresh)
        ensures
            r == self.planned(now),
            r == Refresh::Fetch <==> now - self.exchange_rates.when > self.max_age,
    {
        let age: i128 = now as i128 - self.exchange_rates.when as i128;
        if age > self.max_age as i128 {
            Refresh::Fetch
        } else {
            Refresh::Current
        }
    }

    /// Decides by the system clock whether the rates are to be fetched
    /// again.
    pub fn ensure_fresh(&self) -> (r: Refresh)
        ensures
            exists|now: i64| r == self.planned(now),
    {
        let now = clock_millis();
        self.plan_refresh(now)
    }

    /// Takes in the outcome of the fetch that `ensure_fresh` asked for. New
    /// rates replace the old ones as a whole. After a failure the converter
    /// still holds what it held, and the failure is handed back.
    pub fn complete_refresh(&mut self, fetched: Result<ExchangeRates<R>, CurrencyError>) -> (r:
        Result<(), CurrencyError>)
        ensures
            *final(self) == old(self).refreshed(fetched),
            fetched is Ok ==> r is Ok,
            fetched matches Err(e) ==> r == Err::<(), CurrencyError>(e),
    {
        match fetched {
            Ok(rates) => {
                self.exchange_rates = rates;
                Ok(())
            },
            Err(e) => Err(e),
        }
    }
}

/// The address from which the rates of all supported currencies are
/// fetched with the key `api_key`.
pub open spec fn spec_request_url(api_key: Seq<char>) -> Seq<char> {
    "https://api.currencyapi.com/v3/latest?apikey="@ + api_key
        + "&currencies=EUR%2CUSD%2CCAD%2CRUB%2CJPY%2CAUD%2CAMD%2CGBP%2CPKR"@
}

/// The address from which the rates of all supported currencies are
/// fetched with the key `api_key`.
pub fn request_url(api_key: &str) -> (r: String)
    ensures
        r@ == spec_request_url(api_key@),
{
    let mut r = "https://api.currencyapi.com/v3/latest?apikey=".to_owned();
    r.append(api_key);
    r.append("&currencies=EUR%2CUSD%2CCAD%2CRUB%2CJPY%2CAUD%2CAMD%2CGBP%2CPKR");
    r
}

/// An amount of money: its value in U.S. dollars, the currency it is
/// shown in, and the converter by whose rates it is shown.
///
/// The value is stored in U.S. dollars whatever the currency. To show the
/// amount in another currency changes the currency and nothing else.
#[derive(Debug, PartialEq, PartialOrd, Clone)]
pub struct Currency<R> {
    pub converter: CurrencyConverter<R>,
    /// The currency of the value
    pub currency: CurrencyType,
    /// The value of the currency stored in USD value
    pub value: R,
}

impl<R> Currency<R> {
    /// This amount shown in `currency`.
    pub open spec fn shown_in(self, currency: CurrencyType) -> Self {
        Currency { converter: self.converter, currency, value: self.value }
    }

    /// The rate by which the stored value is multiplied to show the amount:
    /// the price of one dollar in the currency it is shown in.
    pub open spec fn spec_factor(self) -> R {
        self.converter.exchange_rates.spec_rate(self.currency)
    }

    /// The amount of `value` U.S. dollars, shown in `currency` by the rates
    /// of `converter`.
    pub fn new(converter: CurrencyConverter<R>, currency: CurrencyType, value: R) -> (r: Self)
        ensures
            r == (Currency { converter, currency, value }),
    {
        Currency { converter, currency, value }
    }

    /// Shows this amount in `currency` from now on.
    pub fn into_currency(&mut self, currency: CurrencyType)
        ensures
            *final(self) == old(self).shown_in(currency),
    {
        self.currency = currency;
    }

    /// The rate by which the stored value is multiplied to show the amount.
    pub fn factor(&self) -> (r: &R)
        ensures
            *r == self.spec_factor(),
    {
        self.converter.exchange_rates.rate(self.currency)
    }

    /// Words this amount, whose value in its currency has the digits
    /// `digits`.
    pub fn show(&self, digits: &str) -> (r: String)
        ensures
            r@ == shown(digits@, self.currency),
    {
        show(digits, self.currency)
    }
}

impl<R: Copy> Currency<R> {
    /// The converter by whose rates this amount is shown.
    pub fn get_converter(&self) -> (r: CurrencyConverter<R>)
        ensures
            r == self.converter,
    {
        CurrencyConverter {
            exchange_rates: self.converter.exchange_rates,
            api_key: self.converter.api_key.clone(),
            max_age: self.converter.max_age,
        }
    }
}

/// Fresh rates are left alone: at a time at which the rates are not older
/// than the maximum age, a request leads to no fetch.
pub proof fn lemma_fresh_rates_are_kept<R>(converter: CurrencyConverter<R>, now: i64)
    requires
        now - converter.exchange_rates.when <= converter.max_age,
    ensures
        converter.planned(now) == Refresh::Current,
        converter.fetches_at(now) == 0,
{
}

/// The age of rates is counted from their fetch to now, so rates that were
/// fetched at the time `now` or after it are not stale at `now`, whatever
/// the hour of the day.
pub proof fn lemma_age_runs_from_fetch_to_now<R>(converter: CurrencyConverter<R>, now: i64)
    requires
        now <= converter.exchange_rates.when,
    ensures
        !converter.stale_at(now),
        converter.planned(now) == Refresh::Current,
{
}

/// Stale rates are fetched once: at a time at which the rates are older
/// than the maximum age, a request leads to exactly one fetch.
pub proof fn lemma_stale_rates_are_fetched_once<R>(converter: CurrencyConverter<R>, now: i64)
    requires
        now - converter.exchange_rates.when > converter.max_age,
    ensures
        converter.planned(now) == Refresh::Fetch,
        converter.fetches_at(now) == 1,
{
}

/// A fetch that failed costs nothing but freshness: the converter holds the
/// rates that it held before.
pub proof fn lemma_failed_fetch_keeps_rates<R>(
    converter: CurrencyConverter<R>,
    error: CurrencyError,
)
    ensures
        converter.refreshed(Err(error)) == converter,
        converter.refreshed(Err(error)).exchange_rates == converter.exchange_rates,
{
}

/// Asking twice in a row fetches at most once. The second request follows
/// the first at once: no more than the maximum age lies between the two, and
/// rates that the first found fresh have not turned stale by the second.
/// Where the first request then led to a fetch, and that fetch brought in
/// rates that were fetched no earlier than the request was made, the two
/// requests together perform at most one fetch.
pub proof fn lemma_two_requests_fetch_at_most_once<R>(
    converter: CurrencyConverter<R>,
    first: i64,
    second: i64,
    fetched: Result<ExchangeRates<R>, CurrencyError>,
)
    requires
        second - first <= converter.max_age,
        !converter.stale_at(first) ==> !converter.stale_at(second),
        converter.stale_at(first) ==> fetched is Ok && first <= fetched->Ok_0.when,
    ensures
        converter.fetches_at(first) + converter.after_request(first, fetched).fetches_at(second)
            <= 1,
{
}

} // verus!
