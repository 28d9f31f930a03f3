use vstd::prelude::*;

use crate::venue::{fee_nanos, fee_spec, venue_rank, CryptoExchange, FillType};

verus! {

/// Largest magnitude of a rate, in billionths of a percent, that a record may hold.
pub const RATE_BOUND: i64 = 1_000_000_000_000_000;

/// Rates above this net value, in billionths of a percent, are worth entering.
pub const ENTRY_THRESHOLD: i64 = 20_000_000;

/// One venue's published funding rate for one asset.
#[derive(Debug, Clone)]
pub struct FundingRates {
    pub exchange: CryptoExchange,
    /// Interned identifier of the underlying asset.
    pub base_name: u32,
    /// The rate in billionths of a percent, truncated toward zero.
    pub rate_tenk: i64,
    /// Next funding time, in the venue's epoch units.
    pub funding_timestamp: i64,
    /// The venue's own ticker for the contract.
    pub symbol: String,
}

/// A cross-venue pair for one asset: buy where funding is lowest, sell where it is highest.
#[derive(Debug, Clone)]
pub struct RateSpread {
    pub coin: u32,
    pub buy_exchange: CryptoExchange,
    pub buy_low_rate: i64,
    pub sell_exchange: CryptoExchange,
    pub sell_high_rate: i64,
    pub gross_spread: i64,
    pub net_value_half: i64,
    pub net_value_maker: i64,
    pub net_value_taker: i64,
    pub trade_deadline: i64,
    pub buy_symbol: String,
    pub sell_symbol: String,
}

impl FundingRates {
    pub open spec fn wf(&self) -> bool {
        -RATE_BOUND <= self.rate_tenk <= RATE_BOUND
    }

    /// Round-trip fee (open and close) of this record's venue.
    pub fn calculate_fee(&self, fill_type: FillType) -> (r: i64)
        ensures
            r == 2 * fee_spec(self.exchange, fill_type),
    {
        2 * fee_nanos(self.exchange, fill_type)
    }

    pub fn copied(&self) -> (r: FundingRates)
        ensures
            r == *self,
    {
        FundingRates {
            exchange: self.exchange,
            base_name: self.base_name,
            rate_tenk: self.rate_tenk,
            funding_timestamp: self.funding_timestamp,
            symbol: self.symbol.clone(),
        }
    }
}

pub open spec fn all_wf(s: Seq<FundingRates>) -> bool {
    forall|i: int| 0 <= i < s.len() ==> #[trigger] s[i].wf()
}

pub open spec fn max_int(a: int, b: int) -> int {
    if a >= b {
        a
    } else {
        b
    }
}

/// Ordering of records by rate, ties broken by venue enumeration order.
pub open spec fn key_lt(a: FundingRates, b: FundingRates) -> bool {
    a.rate_tenk < b.rate_tenk || (a.rate_tenk == b.rate_tenk && venue_rank(a.exchange)
        < venue_rank(b.exchange))
}

pub open spec fn key_eq(a: FundingRates, b: FundingRates) -> bool {
    a.rate_tenk == b.rate_tenk && venue_rank(a.exchange) == venue_rank(b.exchange)
}

/// `i` holds the least key of `s`, the first such on a full tie.
pub open spec fn is_low_pick(s: Seq<FundingRates>, i: int) -> bool {
    0 <= i < s.len() && forall|j: int|
        0 <= j < s.len() ==> key_lt(s[i], #[trigger] s[j]) || (key_eq(s[i], s[j]) && i <= j)
}

/// `i` holds the greatest key of `s`, the first such on a full tie.
pub open spec fn is_high_pick(s: Seq<FundingRates>, i: int) -> bool {
    0 <= i < s.len() && forall|j: int|
        0 <= j < s.len() ==> key_lt(#[trigger] s[j], s[i]) || (key_eq(s[i], s[j]) && i <= j)
}

pub open spec fn low_pick(s: Seq<FundingRates>) -> int {
    choose|i: int| is_low_pick(s, i)
}

pub open spec fn high_pick(s: Seq<FundingRates>) -> int {
    choose|i: int| is_high_pick(s, i)
}

/// Fees of the conservative one-maker-one-taker estimate: the dearer taker fee of the two
/// legs plus the dearer maker fee, each round trip.
pub open spec fn half_fees(lo: FundingRates, hi: FundingRates) -> int {
    max_int(2 * fee_spec(lo.exchange, FillType::Taker), 2 * fee_spec(hi.exchange, FillType::Taker))
        + max_int(
        2 * fee_spec(lo.exchange, FillType::Maker),
        2 * fee_spec(hi.exchange, FillType::Maker),
    )
}

/// `r` is the spread that buys on `lo` and sells on `hi`.
pub open spec fn spread_from(r: RateSpread, lo: FundingRates, hi: FundingRates) -> bool {
    let gross = hi.rate_tenk - lo.rate_tenk;
    &&& r.coin == lo.base_name
    &&& r.buy_exchange == lo.exchange
    &&& r.sell_exchange == hi.exchange
    &&& r.buy_low_rate == lo.rate_tenk
    &&& r.sell_high_rate == hi.rate_tenk
    &&& r.gross_spread == gross
    &&& r.net_value_taker == gross - 2 * fee_spec(lo.exchange, FillType::Taker) - 2 * fee_spec(
        hi.exchange,
        FillType::Taker,
    )
    &&& r.net_value_maker == gross - 2 * fee_spec(lo.exchange, FillType::Maker) - 2 * fee_spec(
        hi.exchange,
        FillType::Maker,
    )
    &&& r.net_value_half == gross - half_fees(lo, hi)
    &&& r.trade_deadline == if lo.funding_timestamp >= hi.funding_timestamp {
        lo.funding_timestamp
    } else {
        hi.funding_timestamp
    }
    &&& r.buy_symbol@ == lo.symbol@
    &&& r.sell_symbol@ == hi.symbol@
}

/// What the spread engine makes of one asset's bucket of rates.
pub open spec fn is_spread_of(s: Seq<FundingRates>, r: Option<RateSpread>) -> bool {
    if s.len() < 2 {
        r is None
    } else {
        let lo = s[low_pick(s)];
        let hi = s[high_pick(s)];
        if lo.exchange == hi.exchange {
            r is None
        } else {
            r matches Some(sp) && spread_from(sp, lo, hi)
        }
    }
}

/// Every nonempty sequence of records has a low and a high pick.
proof fn lemma_picks_exist(s: Seq<FundingRates>)
    requires
        s.len() >= 1,
    ensures
        is_low_pick(s, low_pick(s)),
        is_high_pick(s, high_pick(s)),
    decreases s.len(),
{
    let n = s.len() - 1;
    if n == 0 {
        assert(is_low_pick(s, 0));
        assert(is_high_pick(s, 0));
    } else {
        let t = s.drop_last();
        lemma_picks_exist(t);
        let a = low_pick(t);
        let b = high_pick(t);
        assert(forall|j: int| 0 <= j < n ==> #[trigger] s[j] == t[j]);
        if key_lt(s[n], s[a]) {
            assert(is_low_pick(s, n));
        } else {
            assert(is_low_pick(s, a));
        }
        if key_lt(s[b], s[n]) {
            assert(is_high_pick(s, n));
        } else {
            assert(is_high_pick(s, b));
        }
    }
}

proof fn lemma_low_pick(s: Seq<FundingRates>, i: int)
    requires
        is_low_pick(s, i),
    ensures
        low_pick(s) == i,
{
    let k = low_pick(s);
    assert(is_low_pick(s, k));
    assert(key_lt(s[i], s[k]) || (key_eq(s[i], s[k]) && i <= k));
    assert(key_lt(s[k], s[i]) || (key_eq(s[k], s[i]) && k <= i));
}

proof fn lemma_high_pick(s: Seq<FundingRates>, i: int)
    requires
        is_high_pick(s, i),
    ensures
        high_pick(s) == i,
{
    let k = high_pick(s);
    assert(is_high_pick(s, k));
    assert(key_lt(s[k], s[i]) || (key_eq(s[i], s[k]) && i <= k));
    assert(key_lt(s[i], s[k]) || (key_eq(s[k], s[i]) && k <= i));
}

fn key_less(a: &FundingRates, b: &FundingRates) -> (r: bool)
    ensures
        r == key_lt(*a, *b),
{
    a.rate_tenk < b.rate_tenk || (a.rate_tenk == b.rate_tenk && rank(a.exchange) < rank(
        b.exchange,
    ))
}

fn rank(ex: CryptoExchange) -> (r: u8)
    ensures
        r == venue_rank(ex),
{
    match ex {
        CryptoExchange::Binance => 0,
        CryptoExchange::Bybit => 1,
        CryptoExchange::FTX => 2,
        CryptoExchange::Okex => 3,
    }
}

impl RateSpread {
    /// Builds the spread of one asset's bucket of rates: buy at the lowest rate, sell at the
    /// highest; no spread when the bucket has fewer than two records or both picks are on
    /// one venue.
    pub fn calculate(data: &Vec<FundingRates>) -> (r: Option<RateSpread>)
        requires
            all_wf(data@),
        ensures
            is_spread_of(data@, r),
            r matches Some(sp) ==> sp.buy_exchange != sp.sell_exchange,
    {
        let n = data.len();
        if n < 2 {
            return None;
        }
        let mut lo: usize = 0;
        let mut hi: usize = 0;
        let mut j: usize = 1;
        while j < n
            invariant
                n == data@.len(),
                1 <= j <= n,
                lo < j,
                hi < j,
                forall|k: int|
                    0 <= k < j ==> key_lt(data@[lo as int], #[trigger] data@[k]) || (key_eq(
                        data@[lo as int],
                        data@[k],
                    ) && lo <= k),
                forall|k: int|
                    0 <= k < j ==> key_lt(#[trigger] data@[k], data@[hi as int]) || (key_eq(
                        data@[hi as int],
                        data@[k],
                    ) && hi <= k),
            decreases n - j,
        {
            if key_less(&data[j], &data[lo]) {
                lo = j;
            }
            if key_less(&data[hi], &data[j]) {
                hi = j;
            }
            j = j + 1;
        }
        proof {
            assert(is_low_pick(data@, lo as int));
            assert(is_high_pick(data@, hi as int));
            lemma_low_pick(data@, lo as int);
            lemma_high_pick(data@, hi as int);
        }
        let low = &data[lo];
        let high = &data[hi];
        if low.exchange == high.exchange {
            return None;
        }
        assert(low.wf() && high.wf());
        let gross = high.rate_tenk - low.rate_tenk;
        let lo_taker = low.calculate_fee(FillType::Taker);
        let hi_taker = high.calculate_fee(FillType::Taker);
        let lo_maker = low.calculate_fee(FillType::Maker);
        let hi_maker = high.calculate_fee(FillType::Maker);
        let worst_taker = if lo_taker >= hi_taker {
            lo_taker
        } else {
            hi_taker
        };
        let worst_maker = if lo_maker >= hi_maker {
            lo_maker
        } else {
            hi_maker
        };
        let deadline = if low.funding_timestamp >= high.funding_timestamp {
            low.funding_timestamp
        } else {
            high.funding_timestamp
        };
        Some(
            RateSpread {
                coin: low.base_name,
                buy_exchange: low.exchange,
                buy_low_rate: low.rate_tenk,
                sell_exchange: high.exchange,
                sell_high_rate: high.rate_tenk,
                gross_spread: gross,
                net_value_half: gross - (worst_taker + worst_maker),
                net_value_maker: gross - lo_maker - hi_maker,
                net_value_taker: gross - lo_taker - hi_taker,
                trade_deadline: deadline,
                buy_symbol: low.symbol.clone(),
                sell_symbol: high.symbol.clone(),
            },
        )
    }

    pub fn copied(&self) -> (r: RateSpread)
        ensures
            r == *self,
    {
        RateSpread {
            coin: self.coin,
            buy_exchange: self.buy_exchange,
            buy_low_rate: self.buy_low_rate,
            sell_exchange: self.sell_exchange,
            sell_high_rate: self.sell_high_rate,
            gross_spread: self.gross_spread,
            net_value_half: self.net_value_half,
            net_value_maker: self.net_value_maker,
            net_value_taker: self.net_value_taker,
            trade_deadline: self.trade_deadline,
            buy_symbol: self.buy_symbol.clone(),
            sell_symbol: self.sell_symbol.clone(),
        }
    }

    /// Whether the spread clears the entry threshold.
    pub fn meets_threshold(&self) -> (r: bool)
        ensures
            r == (self.net_value_half > ENTRY_THRESHOLD),
    {
        self.net_value_half > ENTRY_THRESHOLD
    }
}

/// The conservative half-maker estimate lies between the all-taker and all-maker net values
/// of any spread the engine builds: every maker fee in the table is below every taker fee.
pub proof fn lemma_net_half_between(s: Seq<FundingRates>, sp: RateSpread)
    requires
        is_spread_of(s, Some(sp)),
    ensures
        sp.net_value_taker <= sp.net_value_half <= sp.net_value_maker,
{
}


pub open spec fn coin_pred(coin: u32) -> spec_fn(FundingRates) -> bool {
    |r: FundingRates| r.base_name == coin
}

/// The records of `rates` for one asset, in the order given.
pub open spec fn bucket(rates: Seq<FundingRates>, coin: u32) -> Seq<FundingRates> {
    rates.filter(coin_pred(coin))
}

proof fn lemma_bucket_members(rates: Seq<FundingRates>, coin: u32)
    ensures
        forall|i: int|
            0 <= i < bucket(rates, coin).len() ==> #[trigger] bucket(rates, coin)[i].base_name
                == coin && rates.contains(bucket(rates, coin)[i]),
        all_wf(rates) ==> all_wf(bucket(rates, coin)),
{
    broadcast use Seq::lemma_filter_pred, Seq::lemma_filter_contains_rev;

    assert forall|i: int| 0 <= i < bucket(rates, coin).len() implies #[trigger] bucket(
        rates,
        coin,
    )[i].base_name == coin && rates.contains(bucket(rates, coin)[i]) by {
        rates.lemma_filter_pred(coin_pred(coin), i);
        let x = bucket(rates, coin)[i];
        assert(bucket(rates, coin).contains(x));
        rates.filter_lemma(coin_pred(coin));
    }
    if all_wf(rates) {
        assert forall|i: int| 0 <= i < bucket(rates, coin).len() implies #[trigger] bucket(
            rates,
            coin,
        )[i].wf() by {
            let x = bucket(rates, coin)[i];
            assert(bucket(rates, coin).contains(x));
            rates.filter_lemma(coin_pred(coin));
            let k = choose|k: int| 0 <= k < rates.len() && rates[k] == x;
            assert(rates[k].wf());
        }
    }
}

fn bucket_of(rates: &Vec<FundingRates>, coin: u32) -> (r: Vec<FundingRates>)
    ensures
        r@ == bucket(rates@, coin),
{
    let mut out: Vec<FundingRates> = Vec::new();
    let mut i: usize = 0;
    while i < rates.len()
        invariant
            i <= rates@.len(),
            out@ == rates@.take(i as int).filter(coin_pred(coin)),
        decreases rates@.len() - i,
    {
        proof {
            assert(rates@.take(i + 1).drop_last() == rates@.take(i as int));
            reveal(Seq::filter);
        }
        if rates[i].base_name == coin {
            out.push(rates[i].copied());
        }
        i = i + 1;
    }
    assert(rates@.take(rates@.len() as int) == rates@);
    out
}

fn contains_coin(seen: &Vec<u32>, coin: u32) -> (r: bool)
    ensures
        r == seen@.contains(coin),
{
    let mut i: usize = 0;
    while i < seen.len()
        invariant
            i <= seen@.len(),
            forall|k: int| 0 <= k < i ==> seen@[k] != coin,
        decreases seen@.len() - i,
    {
        if seen[i] == coin {
            return true;
        }
        i = i + 1;
    }
    false
}

/// Each buy and sell leg of a spread built from an asset's bucket is a published record of
/// that asset, and the two legs are on different venues.
pub proof fn lemma_spread_legs(rates: Seq<FundingRates>, coin: u32, sp: RateSpread)
    requires
        is_spread_of(bucket(rates, coin), Some(sp)),
    ensures
        sp.buy_exchange != sp.sell_exchange,
        sp.coin == coin,
        exists|i: int|
            0 <= i < rates.len() && #[trigger] rates[i].base_name == coin && rates[i].exchange
                == sp.buy_exchange && rates[i].symbol@ == sp.buy_symbol@ && rates[i].rate_tenk
                == sp.buy_low_rate,
        exists|j: int|
            0 <= j < rates.len() && #[trigger] rates[j].base_name == coin && rates[j].exchange
                == sp.sell_exchange && rates[j].symbol@ == sp.sell_symbol@ && rates[j].rate_tenk
                == sp.sell_high_rate,
{
    let b = bucket(rates, coin);
    lemma_bucket_members(rates, coin);
    lemma_picks_exist(b);
    let lo = b[low_pick(b)];
    let hi = b[high_pick(b)];
    assert(rates.contains(lo));
    assert(rates.contains(hi));
}

/// One spread per asset that has a cross-venue pair, each asset once.
pub fn collect_spreads(rates: &Vec<FundingRates>) -> (out: Vec<RateSpread>)
    requires
        all_wf(rates@),
    ensures
        forall|k: int|
            0 <= k < out@.len() ==> is_spread_of(
                bucket(rates@, #[trigger] out@[k].coin),
                Some(out@[k]),
            ),
        forall|k1: int, k2: int|
            0 <= k1 < out@.len() && 0 <= k2 < out@.len() && k1 != k2 ==> #[trigger] out@[k1].coin
                != #[trigger] out@[k2].coin,
        forall|i: int|
            0 <= i < rates@.len() ==> is_spread_of(bucket(rates@, #[trigger] rates@[i].base_name), None)
                || exists|k: int| 0 <= k < out@.len() && out@[k].coin == rates@[i].base_name,
{
    let mut out: Vec<RateSpread> = Vec::new();
    let mut seen: Vec<u32> = Vec::new();
    let mut i: usize = 0;
    while i < rates.len()
        invariant
            i <= rates@.len(),
            all_wf(rates@),
            forall|k: int|
                0 <= k < out@.len() ==> is_spread_of(
                    bucket(rates@, #[trigger] out@[k].coin),
                    Some(out@[k]),
                ) && seen@.contains(out@[k].coin),
            forall|k1: int, k2: int|
                0 <= k1 < out@.len() && 0 <= k2 < out@.len() && k1 != k2 ==> #[trigger] out@[k1].coin
                    != #[trigger] out@[k2].coin,
            forall|k: int| 0 <= k < i ==> seen@.contains(#[trigger] rates@[k].base_name),
            forall|c: u32|
                #[trigger] seen@.contains(c) ==> is_spread_of(bucket(rates@, c), None) || exists|
                    k: int,
                | 0 <= k < out@.len() && out@[k].coin == c,
        decreases rates@.len() - i,
    {
        let coin = rates[i].base_name;
        let ghost prev_seen = seen@;
        let ghost prev_out = out@;
        if !contains_coin(&seen, coin) {
            let b = bucket_of(rates, coin);
            proof {
                lemma_bucket_members(rates@, coin);
            }
            let found = RateSpread::calculate(&b);
            seen.push(coin);
            proof {
                assert(seen@ == prev_seen.push(coin));
                assert(seen@[prev_seen.len() as int] == coin);
                assert forall|c: u32| prev_seen.contains(c) implies seen@.contains(c) by {
                    let k = choose|k: int| 0 <= k < prev_seen.len() && prev_seen[k] == c;
                    assert(seen@[k] == c);
                }
            }
            match found {
                Some(sp) => {
                    proof {
                        lemma_spread_legs(rates@, coin, sp);
                    }
                    out.push(sp);
                    proof {
                        assert(out@ == prev_out.push(sp));
                        assert(out@[prev_out.len() as int] == sp);
                        assert forall|k: int| 0 <= k < prev_out.len() implies #[trigger] out@[k]
                            == prev_out[k] by {}
                        assert forall|c: u32| #[trigger] seen@.contains(c) implies is_spread_of(
                            bucket(rates@, c),
                            None,
                        ) || exists|k: int| 0 <= k < out@.len() && out@[k].coin == c by {
                            if c == coin {
                                assert(out@[prev_out.len() as int].coin == c);
                            } else {
                                let k0 = choose|k0: int| 0 <= k0 < seen@.len() && seen@[k0] == c;
                                assert(prev_seen.contains(c)) by {
                                    assert(prev_seen[k0] == c);
                                }
                                if !is_spread_of(bucket(rates@, c), None) {
                                    let k = choose|k: int|
                                        0 <= k < prev_out.len() && prev_out[k].coin == c;
                                    assert(out@[k].coin == c);
                                }
                            }
                        }
                    }
                },
                None => {
                    proof {
                        assert forall|c: u32| #[trigger] seen@.contains(c) implies is_spread_of(
                            bucket(rates@, c),
                            None,
                        ) || exists|k: int| 0 <= k < out@.len() && out@[k].coin == c by {
                            if c != coin {
                                let k0 = choose|k0: int| 0 <= k0 < seen@.len() && seen@[k0] == c;
                                assert(prev_seen.contains(c)) by {
                                    assert(prev_seen[k0] == c);
                                }
                            }
                        }
                    }
                },
            }
        }
        proof {
            assert forall|k: int| 0 <= k < i + 1 implies seen@.contains(
                #[trigger] rates@[k].base_name,
            ) by {
                if k < i {
                    assert(prev_seen.contains(rates@[k].base_name));
                }
            }
        }
        i = i + 1;
    }
    out
}

/// The entry decision of one epoch: the spread with the greatest half-maker net value over
/// all assets, if it clears the entry threshold.
pub fn select_trade(rates: &Vec<FundingRates>) -> (r: Option<RateSpread>)
    requires
        all_wf(rates@),
    ensures
        r matches Some(sp) ==> sp.net_value_half > ENTRY_THRESHOLD && is_spread_of(
            bucket(rates@, sp.coin),
            Some(sp),
        ) && (forall|c: u32, other: RateSpread|
            is_spread_of(bucket(rates@, c), Some(other)) ==> other.net_value_half
                <= sp.net_value_half),
        r is None ==> forall|c: u32, other: RateSpread|
            is_spread_of(bucket(rates@, c), Some(other)) ==> other.net_value_half
                <= ENTRY_THRESHOLD,
{
    let spreads = collect_spreads(rates);
    proof {
        assert forall|c: u32, other: RateSpread| is_spread_of(bucket(rates@, c), Some(other))
            implies exists|k: int| 0 <= k < spreads@.len() && #[trigger] spreads@[k].coin == c
            && spreads@[k].net_value_half == other.net_value_half by {
            lemma_bucket_members(rates@, c);
            lemma_picks_exist(bucket(rates@, c));
            let b = bucket(rates@, c);
            let x = b[low_pick(b)];
            assert(rates@.contains(x));
            let i = choose|i: int| 0 <= i < rates@.len() && rates@[i] == x;
            assert(rates@[i].base_name == c);
            if is_spread_of(bucket(rates@, c), None) {
                assert(false);
            }
            let k = choose|k: int| 0 <= k < spreads@.len() && spreads@[k].coin == rates@[i].base_name;
            assert(is_spread_of(bucket(rates@, spreads@[k].coin), Some(spreads@[k])));
        }
    }
    match best_spread(&spreads) {
        Some(b) => {
            if spreads[b].meets_threshold() {
                Some(spreads[b].copied())
            } else {
                None
            }
        },
        None => None,
    }
}

/// `s` is ordered by half-maker net value, greatest first.
pub open spec fn ranked(s: Seq<RateSpread>) -> bool {
    forall|i: int, j: int|
        0 <= i < j < s.len() ==> #[trigger] s[i].net_value_half >= #[trigger] s[j].net_value_half
}

fn max_index(v: &Vec<RateSpread>) -> (m: usize)
    requires
        v@.len() > 0,
    ensures
        m < v@.len(),
        forall|k: int| 0 <= k < v@.len() ==> #[trigger] v@[k].net_value_half <= v@[m as int].net_value_half,
{
    let mut m: usize = 0;
    let mut j: usize = 1;
    while j < v.len()
        invariant
            1 <= j <= v@.len(),
            m < j,
            forall|k: int| 0 <= k < j ==> #[trigger] v@[k].net_value_half <= v@[m as int].net_value_half,
        decreases v@.len() - j,
    {
        if v[j].net_value_half > v[m].net_value_half {
            m = j;
        }
        j = j + 1;
    }
    m
}

/// The spreads ordered by half-maker net value, greatest first.
pub fn rank_spreads(spreads: Vec<RateSpread>) -> (r: Vec<RateSpread>)
    ensures
        r@.to_multiset() == spreads@.to_multiset(),
        ranked(r@),
{
    let ghost orig = spreads@;
    let mut rest = spreads;
    let mut out: Vec<RateSpread> = Vec::new();
    proof {
        out@.to_multiset_ensures();
        assert(out@.to_multiset() =~= vstd::multiset::Multiset::empty());
    }
    while rest.len() > 0
        invariant
            rest@.to_multiset().add(out@.to_multiset()) == orig.to_multiset(),
            ranked(out@),
            forall|i: int, k: int|
                0 <= i < out@.len() && 0 <= k < rest@.len() ==> #[trigger] out@[i].net_value_half
                    >= #[trigger] rest@[k].net_value_half,
        decreases rest@.len(),
    {
        let m = max_index(&rest);
        let ghost before = rest@;
        let ghost prev = out@;
        let item = rest.remove(m);
        proof {
            before.to_multiset_ensures();
            prev.to_multiset_ensures();
            assert(before.remove(m as int).to_multiset() =~= before.to_multiset().remove(
                before[m as int],
            ));
            assert(prev.push(item).to_multiset() =~= prev.to_multiset().insert(item));
            assert forall|k: int| 0 <= k < rest@.len() implies #[trigger] rest@[k].net_value_half
                <= item.net_value_half by {
                if k < m {
                    assert(rest@[k] == before[k]);
                } else {
                    assert(rest@[k] == before[k + 1]);
                }
            }
            assert forall|i: int, k: int|
                0 <= i < prev.len() && 0 <= k < rest@.len() implies #[trigger] prev[i].net_value_half
                    >= #[trigger] rest@[k].net_value_half by {
                if k < m {
                    assert(rest@[k] == before[k]);
                } else {
                    assert(rest@[k] == before[k + 1]);
                }
            }
        }
        out.push(item);
        proof {
            assert(out@ == prev.push(item));
            assert forall|i: int, j: int| 0 <= i < j < out@.len() implies #[trigger] out@[i].net_value_half
                >= #[trigger] out@[j].net_value_half by {
                if j == out@.len() - 1 {
                    assert(out@[i] == prev[i]);
                    assert(out@[j] == before[m as int]);
                } else {
                    assert(out@[i] == prev[i]);
                    assert(out@[j] == prev[j]);
                }
            }
            assert forall|i: int, k: int|
                0 <= i < out@.len() && 0 <= k < rest@.len() implies #[trigger] out@[i].net_value_half
                    >= #[trigger] rest@[k].net_value_half by {
                if i < prev.len() {
                    assert(out@[i] == prev[i]);
                } else {
                    assert(out@[i] == item);
                }
            }
        }
    }
    proof {
        rest@.to_multiset_ensures();
        assert(rest@.to_multiset() =~= vstd::multiset::Multiset::empty());
        assert(out@.to_multiset() =~= orig.to_multiset());
    }
    out
}

/// Index of the spread with the greatest half-maker net value, the first one on ties.
pub fn best_spread(spreads: &Vec<RateSpread>) -> (r: Option<usize>)
    ensures
        r is None <==> spreads@.len() == 0,
        r matches Some(b) ==> b < spreads@.len() && (forall|k: int|
            0 <= k < spreads@.len() ==> #[trigger] spreads@[k].net_value_half
                <= spreads@[b as int].net_value_half) && (forall|k: int|
            0 <= k < b ==> #[trigger] spreads@[k].net_value_half
                < spreads@[b as int].net_value_half),
{
    if spreads.len() == 0 {
        return None;
    }
    let mut best: usize = 0;
    let mut j: usize = 1;
    while j < spreads.len()
        invariant
            1 <= j <= spreads@.len(),
            best < j,
            forall|k: int|
                0 <= k < j ==> #[trigger] spreads@[k].net_value_half
                    <= spreads@[best as int].net_value_half,
            forall|k: int|
                0 <= k < best ==> #[trigger] spreads@[k].net_value_half
                    < spreads@[best as int].net_value_half,
        decreases spreads@.len() - j,
    {
        if spreads[j].net_value_half > spreads[best].net_value_half {
            best = j;
        }
        j = j + 1;
    }
    Some(best)
}

} // verus!
