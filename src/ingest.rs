use vstd::prelude::*;
use vstd::string::StringExecFns;

use crate::decimal::{decimal_spec, parse_decimal, rounded_spec, scaled_spec, to_rounded, to_scaled};
use crate::spread::{FundingRates, RATE_BOUND};
use crate::venue::{str_eq, CryptoExchange};

verus! {

/// Rates arrive as fractions; records hold percent in billionths: `10^11` units per unit.
pub const RATE_DIGITS: u32 = 11;

/// The canonical assets: each venue base symbol with its interned identifier.
#[derive(Debug, Clone)]
pub struct AssetTable {
    pub entries: Vec<(String, u32)>,
}

/// Identifier of the first entry named `base`.
pub open spec fn lookup_spec(e: Seq<(String, u32)>, base: Seq<char>) -> Option<u32>
    decreases e.len(),
{
    if e.len() == 0 {
        None
    } else if e[0].0@ == base {
        Some(e[0].1)
    } else {
        lookup_spec(e.drop_first(), base)
    }
}

impl AssetTable {
    pub fn lookup(&self, base: &str) -> (r: Option<u32>)
        ensures
            r == lookup_spec(self.entries@, base@),
    {
        let mut i: usize = 0;
        proof {
            assert(self.entries@.skip(0) =~= self.entries@);
        }
        while i < self.entries.len()
            invariant
                i <= self.entries@.len(),
                lookup_spec(self.entries@, base@) == lookup_spec(self.entries@.skip(i as int), base@),
            decreases self.entries@.len() - i,
        {
            proof {
                assert(self.entries@.skip(i as int)[0] == self.entries@[i as int]);
                assert(self.entries@.skip(i as int).drop_first() =~= self.entries@.skip(i + 1));
            }
            if str_eq(self.entries[i].0.as_str(), base) {
                return Some(self.entries[i].1);
            }
            i = i + 1;
        }
        None
    }
}

/// `s` without the ending `suffix`, if it ends so.
pub open spec fn strip_spec(s: Seq<char>, suffix: Seq<char>) -> Option<Seq<char>> {
    if suffix.len() <= s.len() && s.skip(s.len() - suffix.len()) == suffix {
        Some(s.take(s.len() - suffix.len()))
    } else {
        None
    }
}

pub fn strip_suffix(s: &str, suffix: &str) -> (r: Option<String>)
    ensures
        r matches Some(x) ==> strip_spec(s@, suffix@) == Some(x@),
        r is None ==> strip_spec(s@, suffix@) is None,
{
    let n = s.unicode_len();
    let m = suffix.unicode_len();
    if m > n {
        return None;
    }
    let start = n - m;
    let mut i: usize = 0;
    while i < m
        invariant
            n == s@.len(),
            m == suffix@.len(),
            start == n - m,
            i <= m,
            forall|k: int| 0 <= k < i ==> s@[start + k] == suffix@[k],
        decreases m - i,
    {
        if s.get_char(start + i) != suffix.get_char(i) {
            proof {
                assert(s@.skip(start as int)[i as int] != suffix@[i as int]);
            }
            return None;
        }
        i = i + 1;
    }
    proof {
        assert(s@.skip(start as int) =~= suffix@) by {
            assert forall|k: int| 0 <= k < m implies s@.skip(start as int)[k] == suffix@[k] by {}
        }
    }
    Some(String::from_str(s.substring_char(0, start)))
}

/// The suffix that turns a venue's contract symbol into its base symbol.
pub open spec fn symbol_suffix_spec(ex: CryptoExchange) -> Seq<char> {
    match ex {
        CryptoExchange::Binance => "USDT"@,
        CryptoExchange::Bybit => "USDT"@,
        CryptoExchange::FTX => "-PERP"@,
        CryptoExchange::Okex => "-USDT-SWAP"@,
    }
}

fn symbol_suffix(ex: CryptoExchange) -> (r: &'static str)
    ensures
        r@ == symbol_suffix_spec(ex),
{
    match ex {
        CryptoExchange::Binance => "USDT",
        CryptoExchange::Bybit => "USDT",
        CryptoExchange::FTX => "-PERP",
        CryptoExchange::Okex => "-USDT-SWAP",
    }
}

/// A funding rate written as a fraction, in billionths of a percent rounded to the nearest
/// (halves away from zero), if it is within the records' range.
pub open spec fn rate_of(text: Seq<char>) -> Option<i64> {
    match decimal_spec(text) {
        Some(d) => {
            let v = rounded_spec(d, RATE_DIGITS as nat);
            if -(RATE_BOUND as int) <= v <= RATE_BOUND {
                Some(v as i64)
            } else {
                None
            }
        },
        None => None,
    }
}

/// Reads a funding rate written as a fraction into billionths of a percent.
pub fn parse_rate(text: &str) -> (r: Option<i64>)
    ensures
        r == rate_of(text@),
{
    match parse_decimal(text) {
        Some(d) => to_rounded(d, RATE_DIGITS, RATE_BOUND as u64),
        None => None,
    }
}

/// The record a venue publishes for `symbol`, if the symbol resolves to a canonical asset
/// and the rate reads.
pub open spec fn record_spec(
    ex: CryptoExchange,
    symbol: Seq<char>,
    rate: Seq<char>,
    funding_ms: i64,
    assets: Seq<(String, u32)>,
    r: Option<FundingRates>,
) -> bool {
    match strip_spec(symbol, symbol_suffix_spec(ex)) {
        None => r is None,
        Some(base) => match (lookup_spec(assets, base), rate_of(rate)) {
            (Some(asset), Some(v)) => r matches Some(f) && f.exchange == ex && f.base_name == asset
                && f.rate_tenk == v && f.funding_timestamp == funding_ms && f.symbol@ == symbol
                && f.wf(),
            _ => r is None,
        },
    }
}

impl FundingRates {
    /// Normalizes one venue record: resolves the asset, scales the rate to billionths of a
    /// percent, keeps the next funding time in milliseconds. Records that do not resolve or
    /// read are dropped.
    pub fn from_venue(
        exchange: CryptoExchange,
        symbol: &str,
        rate: &str,
        funding_ms: i64,
        assets: &AssetTable,
    ) -> (r: Option<FundingRates>)
        ensures
            record_spec(exchange, symbol@, rate@, funding_ms, assets.entries@, r),
    {
        let base = match strip_suffix(symbol, symbol_suffix(exchange)) {
            Some(b) => b,
            None => return None,
        };
        let asset = match assets.lookup(base.as_str()) {
            Some(a) => a,
            None => return None,
        };
        let rate_tenk = match parse_rate(rate) {
            Some(v) => v,
            None => return None,
        };
        Some(
            FundingRates {
                exchange,
                base_name: asset,
                rate_tenk,
                funding_timestamp: funding_ms,
                symbol: String::from_str(symbol),
            },
        )
    }

    /// An Okex swap's record: `instId`, `fundingRate` and `fundingTime` (milliseconds, as text).
    pub fn from_okex(inst_id: &str, funding_rate: &str, funding_time: &str, assets: &AssetTable) -> (r: Option<FundingRates>)
        ensures
            match millis_of(funding_time@) {
                Some(ms) => record_spec(CryptoExchange::Okex, inst_id@, funding_rate@, ms, assets.entries@, r),
                None => r is None,
            },
    {
        match parse_millis(funding_time) {
            Some(ms) => FundingRates::from_venue(CryptoExchange::Okex, inst_id, funding_rate, ms, assets),
            None => None,
        }
    }

    /// A Binance perpetual's record: `symbol`, `lastFundingRate` and `nextFundingTime`.
    pub fn from_binance(symbol: &str, last_funding_rate: &str, next_funding_time: i64, assets: &AssetTable) -> (r: Option<FundingRates>)
        ensures
            record_spec(CryptoExchange::Binance, symbol@, last_funding_rate@, next_funding_time, assets.entries@, r),
    {
        FundingRates::from_venue(CryptoExchange::Binance, symbol, last_funding_rate, next_funding_time, assets)
    }

    /// An FTX perpetual's record: the market name, `nextFundingRate` and `nextFundingTime`
    /// (RFC 3339).
    pub fn from_ftx(symbol: &str, next_funding_rate: &str, next_funding_time: &str, assets: &AssetTable) -> (r: Option<FundingRates>)
        ensures
            match rfc3339_millis_of(next_funding_time@) {
                Some(ms) => record_spec(CryptoExchange::FTX, symbol@, next_funding_rate@, ms, assets.entries@, r),
                None => r is None,
            },
    {
        match rfc3339_millis(next_funding_time) {
            Some(ms) => FundingRates::from_venue(CryptoExchange::FTX, symbol, next_funding_rate, ms, assets),
            None => None,
        }
    }

    /// A Bybit perpetual's record: `symbol`, `funding_rate` and `next_funding_time`
    /// (RFC 3339).
    pub fn from_bybit(symbol: &str, funding_rate: &str, next_funding_time: &str, assets: &AssetTable) -> (r: Option<FundingRates>)
        ensures
            match rfc3339_millis_of(next_funding_time@) {
                Some(ms) => record_spec(CryptoExchange::Bybit, symbol@, funding_rate@, ms, assets.entries@, r),
                None => r is None,
            },
    {
        match rfc3339_millis(next_funding_time) {
            Some(ms) => FundingRates::from_venue(CryptoExchange::Bybit, symbol, funding_rate, ms, assets),
            None => None,
        }
    }
}

/// Milliseconds since the Unix epoch of an RFC 3339 timestamp, if the text is one.
pub uninterp spec fn rfc3339_millis_of(text: Seq<char>) -> Option<i64>;

/// Relies on chrono's `DateTime::parse_from_rfc3339` and `timestamp_millis`: the instant
/// an RFC 3339 text names, in milliseconds since the Unix epoch.
#[verifier::external_body]
fn rfc3339_millis(text: &str) -> (r: Option<i64>)
    ensures
        r == rfc3339_millis_of(text@),
{
    chrono::DateTime::parse_from_rfc3339(text).ok().map(|t| t.timestamp_millis())
}

/// A whole number of milliseconds written in decimal.
pub open spec fn millis_of(text: Seq<char>) -> Option<i64> {
    match decimal_spec(text) {
        Some(d) => if d.scale == 0 && scaled_spec(d, 0) <= i64::MAX && scaled_spec(d, 0) >= -i64::MAX {
            Some(scaled_spec(d, 0) as i64)
        } else {
            None
        },
        None => None,
    }
}

pub fn parse_millis(text: &str) -> (r: Option<i64>)
    ensures
        r == millis_of(text@),
{
    match parse_decimal(text) {
        Some(d) => {
            if d.scale != 0 {
                return None;
            }
            to_scaled(d, 0, i64::MAX as u64)
        },
        None => None,
    }
}

} // verus!
