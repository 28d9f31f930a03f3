use vstd::prelude::*;

use crate::decimal::{
    fixed_text, digits_of, format_fixed, format_unsigned, pow10, truncate_spec,
    truncate_to_precision, NANO, NANO_DIGITS,
};
use crate::orders::{Directive, SpreadTrade};
use crate::spread::RateSpread;
use crate::strategy::AccountBalances;
use crate::venue::Side;

verus! {

/// What sizing needs to know of one leg's venue.
#[derive(Debug, Clone, Copy, PartialEq, Eq, Structural)]
pub struct LegMarket {
    /// Price the leg is sized at, in billionths: the venue's ask.
    pub price: u64,
    /// Coin amount of one contract, in billionths, on venues that trade whole contracts.
    pub contract_size: Option<u64>,
    /// Fractional digits the venue accepts in a coin quantity.
    pub precision: u32,
}

impl LegMarket {
    pub open spec fn wf(&self) -> bool {
        &&& self.price > 0
        &&& self.precision <= NANO_DIGITS
        &&& (self.contract_size matches Some(c) ==> c > 0)
    }
}

/// Why a cycle cannot be sized.
#[derive(Debug, Clone, Copy, PartialEq, Eq, Structural)]
pub enum SizingError {
    /// No balance is known for one of the two venues.
    MissingBalance,
    /// The budget does not buy one whole contract.
    InsufficientCapital,
    /// Both venues trade whole contracts; there is no coin leg to match them with.
    BothContractLegs,
    /// A quantity does not fit the fixed-point range.
    QuantityTooLarge,
}

/// Share of the smaller balance committed to a trade: eight tenths.
pub open spec fn budget_spec(a: nat, b: nat) -> nat {
    (if a <= b {
        a
    } else {
        b
    }) * 8 / 10
}

/// Coin amount, in billionths, that `notional` billionths buy at `price`.
pub open spec fn raw_qty_spec(notional: nat, price: nat) -> nat {
    notional * NANO as nat / price
}

/// Coin quantity, in billionths, that `notional` billionths buy at `price`, cut to `p` digits.
pub open spec fn coin_qty_spec(notional: nat, price: nat, p: nat) -> nat {
    truncate_spec(raw_qty_spec(notional, price), p)
}

/// Whole contracts of `size` coin that `budget` buys at `price`.
pub open spec fn contracts_spec(budget: nat, price: nat, size: nat) -> nat {
    budget * NANO as nat / (price * size)
}

/// Notional, in billionths, of `n` contracts of `size` coin at `price`.
pub open spec fn notional_spec(n: nat, price: nat, size: nat) -> nat {
    n * price * size / NANO as nat
}

/// The two quantities of a sized trade, long leg first: a contract count on a contract
/// venue, a coin amount in billionths elsewhere.
///
/// Two coin legs both take the smaller of their quantities. A contract leg keeps its count;
/// the coin leg takes the contracts' notional at its own price.
pub open spec fn sized_spec(budget: nat, long: LegMarket, short: LegMarket) -> Result<(nat, nat), SizingError> {
    match (long.contract_size, short.contract_size) {
        (None, None) => {
            let ql = coin_qty_spec(budget, long.price as nat, long.precision as nat);
            let qs = coin_qty_spec(budget, short.price as nat, short.precision as nat);
            let q = if ql <= qs {
                ql
            } else {
                qs
            };
            if raw_qty_spec(budget, long.price as nat) > u64::MAX || raw_qty_spec(
                budget,
                short.price as nat,
            ) > u64::MAX {
                Err(SizingError::QuantityTooLarge)
            } else {
                Ok((q, q))
            }
        },
        (Some(c), None) => {
            let n = contracts_spec(budget, long.price as nat, c as nat);
            let notional = notional_spec(n, long.price as nat, c as nat);
            let q = coin_qty_spec(notional, short.price as nat, short.precision as nat);
            if n < 1 {
                Err(SizingError::InsufficientCapital)
            } else if n > u64::MAX || raw_qty_spec(notional, short.price as nat) > u64::MAX {
                Err(SizingError::QuantityTooLarge)
            } else {
                Ok((n, q))
            }
        },
        (None, Some(c)) => {
            let n = contracts_spec(budget, short.price as nat, c as nat);
            let notional = notional_spec(n, short.price as nat, c as nat);
            let q = coin_qty_spec(notional, long.price as nat, long.precision as nat);
            if n < 1 {
                Err(SizingError::InsufficientCapital)
            } else if n > u64::MAX || raw_qty_spec(notional, long.price as nat) > u64::MAX {
                Err(SizingError::QuantityTooLarge)
            } else {
                Ok((q, n))
            }
        },
        (Some(_), Some(_)) => Err(SizingError::BothContractLegs),
    }
}

fn budget(a: u64, b: u64) -> (r: u64)
    ensures
        r == budget_spec(a as nat, b as nat),
{
    let smaller = if a <= b {
        a
    } else {
        b
    };
    (smaller as u128 * 8 / 10) as u64
}

/// Coin quantity that `notional` buys at the leg's price, or `None` past the fixed-point range.
fn coin_qty(notional: u64, leg: LegMarket) -> (r: Option<u64>)
    requires
        leg.wf(),
    ensures
        r is Some <==> raw_qty_spec(notional as nat, leg.price as nat) <= u64::MAX,
        r matches Some(q) ==> q == coin_qty_spec(
            notional as nat,
            leg.price as nat,
            leg.precision as nat,
        ),
{
    let raw: u128 = notional as u128 * NANO as u128 / leg.price as u128;
    if raw > u64::MAX as u128 {
        return None;
    }
    Some(truncate_to_precision(raw as u64, leg.precision))
}

/// Whole contracts the budget buys and their notional in billionths.
fn contract_leg(budget: u64, price: u64, size: u64) -> (r: Result<(u64, u64), SizingError>)
    requires
        price > 0,
        size > 0,
    ensures
        ({
            let n = contracts_spec(budget as nat, price as nat, size as nat);
            match r {
                Ok((c, notional)) => 1 <= n <= u64::MAX && c == n && notional == notional_spec(
                    n,
                    price as nat,
                    size as nat,
                ),
                Err(e) => (n < 1 && e == SizingError::InsufficientCapital) || (n >= 1 && n
                    > u64::MAX && e == SizingError::QuantityTooLarge),
            }
        }),
{
    proof {
        assert(price as nat * size as nat <= u64::MAX as nat * u64::MAX as nat) by (nonlinear_arith)
            requires
                price <= u64::MAX,
                size <= u64::MAX,
        ;
        assert(budget as nat * 1_000_000_000 <= u64::MAX as nat * 1_000_000_000) by (nonlinear_arith)
            requires
                budget <= u64::MAX,
        ;
        assert(price as nat * size as nat >= 1) by (nonlinear_arith)
            requires
                price >= 1,
                size >= 1,
        ;
    }
    let unit: u128 = price as u128 * size as u128;
    let n: u128 = budget as u128 * NANO as u128 / unit;
    if n < 1 {
        return Err(SizingError::InsufficientCapital);
    }
    if n > u64::MAX as u128 {
        return Err(SizingError::QuantityTooLarge);
    }
    proof {
        let x = budget as nat * NANO as nat;
        let u = unit as nat;
        assert(n * u <= x) by (nonlinear_arith)
            requires
                u >= 1,
                n == x / u,
        ;
        assert(n * price * size == n * unit) by (nonlinear_arith)
            requires
                unit == price * size,
        ;
    }
    let notional: u128 = n * unit / NANO as u128;
    proof {
        assert(notional <= budget) by (nonlinear_arith)
            requires
                n * unit <= budget * 1_000_000_000,
                notional == n * unit / 1_000_000_000,
        ;
    }
    Ok((n as u64, notional as u64))
}

/// The quantities of both legs of a trade, long leg first.
pub fn size_legs(long_balance: u64, short_balance: u64, long: LegMarket, short: LegMarket) -> (r: Result<(u64, u64), SizingError>)
    requires
        long.wf(),
        short.wf(),
    ensures
        match (r, sized_spec(budget_spec(long_balance as nat, short_balance as nat), long, short)) {
            (Ok((a, b)), Ok((x, y))) => a == x && b == y,
            (Err(e), Err(f)) => e == f,
            _ => false,
        },
{
    let b = budget(long_balance, short_balance);
    match (long.contract_size, short.contract_size) {
        (None, None) => {
            match (coin_qty(b, long), coin_qty(b, short)) {
                (Some(ql), Some(qs)) => {
                    let q = if ql <= qs {
                        ql
                    } else {
                        qs
                    };
                    Ok((q, q))
                },
                _ => Err(SizingError::QuantityTooLarge),
            }
        },
        (Some(c), None) => {
            match contract_leg(b, long.price, c) {
                Err(e) => Err(e),
                Ok((n, notional)) => match coin_qty(notional, short) {
                    None => Err(SizingError::QuantityTooLarge),
                    Some(q) => Ok((n, q)),
                },
            }
        },
        (None, Some(c)) => {
            match contract_leg(b, short.price, c) {
                Err(e) => Err(e),
                Ok((n, notional)) => match coin_qty(notional, long) {
                    None => Err(SizingError::QuantityTooLarge),
                    Some(q) => Ok((q, n)),
                },
            }
        },
        (Some(_), Some(_)) => Err(SizingError::BothContractLegs),
    }
}


/// Venue-native text of a leg's quantity: a contract count, or a coin amount with the
/// venue's fractional digits.
pub open spec fn quantity_text(q: nat, leg: LegMarket) -> Seq<char> {
    if leg.contract_size is Some {
        digits_of(q)
    } else {
        fixed_text(q, leg.precision as nat)
    }
}

fn quantity_string(q: u64, leg: LegMarket) -> (r: String)
    requires
        leg.wf(),
    ensures
        r@ == quantity_text(q as nat, leg),
{
    match leg.contract_size {
        Some(_) => format_unsigned(q),
        None => format_fixed(q, leg.precision),
    }
}

/// Fractional digits both legs of a coin pair are written with: those of the leg whose
/// quantity is the smaller, so that the shared quantity is written exactly.
pub open spec fn pair_digits(budget: nat, long: LegMarket, short: LegMarket) -> u32 {
    if coin_qty_spec(budget, long.price as nat, long.precision as nat) <= coin_qty_spec(
        budget,
        short.price as nat,
        short.precision as nat,
    ) {
        long.precision
    } else {
        short.precision
    }
}

/// How a leg's quantity is written: with its own conventions, or, in a pair of coin legs,
/// with the pair's shared digits.
pub open spec fn written_leg(leg: LegMarket, other: LegMarket, digits: u32) -> LegMarket {
    if leg.contract_size is None && other.contract_size is None {
        LegMarket { precision: digits, ..leg }
    } else {
        leg
    }
}

fn pair_digits_exec(budget: u64, long: LegMarket, short: LegMarket) -> (r: u32)
    requires
        long.wf(),
        short.wf(),
        raw_qty_spec(budget as nat, long.price as nat) <= u64::MAX,
        raw_qty_spec(budget as nat, short.price as nat) <= u64::MAX,
    ensures
        r == pair_digits(budget as nat, long, short),
        r <= NANO_DIGITS,
{
    match (coin_qty(budget, long), coin_qty(budget, short)) {
        (Some(ql), Some(qs)) => if ql <= qs {
            long.precision
        } else {
            short.precision
        },
        _ => long.precision,
    }
}

/// `d` is a fresh leg of `sp` on the buy or sell side with quantity text `qty`.
pub open spec fn fresh_leg(d: Directive, sp: RateSpread, side: Side, qty: Seq<char>) -> bool {
    &&& d.exchange == (if side == Side::Buy {
        sp.buy_exchange
    } else {
        sp.sell_exchange
    })
    &&& d.symbol@ == (if side == Side::Buy {
        sp.buy_symbol@
    } else {
        sp.sell_symbol@
    })
    &&& d.coin == sp.coin
    &&& d.side == side
    &&& d.quantity@ == qty
    &&& d.order_id is None
    &&& !d.order_filled
    &&& d.fill_price is None
}

impl RateSpread {
    /// Sizes the two legs of this spread against the balances of its two venues: long on
    /// the buy venue, short on the sell venue.
    pub fn generate_trades(
        &self,
        balances: &AccountBalances,
        buy_market: LegMarket,
        sell_market: LegMarket,
        timestamp: i64,
    ) -> (r: Result<SpreadTrade, SizingError>)
        requires
            buy_market.wf(),
            sell_market.wf(),
        ensures
            (balances.get_spec(self.buy_exchange) is None || balances.get_spec(
                self.sell_exchange,
            ) is None) ==> r == Err::<SpreadTrade, SizingError>(SizingError::MissingBalance),
            balances.get_spec(self.buy_exchange) matches Some(bb) ==> balances.get_spec(
                self.sell_exchange,
            ) matches Some(sb) ==> match sized_spec(
                budget_spec(bb as nat, sb as nat),
                buy_market,
                sell_market,
            ) {
                Err(e) => r == Err::<SpreadTrade, SizingError>(e),
                Ok((ql, qs)) => {
                    let digits = pair_digits(budget_spec(bb as nat, sb as nat), buy_market, sell_market);
                    r matches Ok(t) && t.timestamp == timestamp && fresh_leg(
                        t.long_directive,
                        *self,
                        Side::Buy,
                        quantity_text(ql, written_leg(buy_market, sell_market, digits)),
                    ) && fresh_leg(
                        t.short_directive,
                        *self,
                        Side::Sell,
                        quantity_text(qs, written_leg(sell_market, buy_market, digits)),
                    )
                },
            },
            buy_market.contract_size is None && sell_market.contract_size is None ==> (r matches Ok(
                t,
            ) ==> t.long_directive.quantity@ == t.short_directive.quantity@),
    {
        let (bb, sb) = match (balances.get(self.buy_exchange), balances.get(self.sell_exchange)) {
            (Some(bb), Some(sb)) => (bb, sb),
            _ => return Err(SizingError::MissingBalance),
        };
        let (ql, qs) = match size_legs(bb, sb, buy_market, sell_market) {
            Ok(q) => q,
            Err(e) => return Err(e),
        };
        let (buy_written, sell_written) = if buy_market.contract_size.is_none()
            && sell_market.contract_size.is_none() {
            let digits = pair_digits_exec(budget(bb, sb), buy_market, sell_market);
            (
                LegMarket { precision: digits, ..buy_market },
                LegMarket { precision: digits, ..sell_market },
            )
        } else {
            (buy_market, sell_market)
        };
        let long_directive = Directive {
            exchange: self.buy_exchange,
            coin: self.coin,
            symbol: self.buy_symbol.clone(),
            side: Side::Buy,
            quantity: quantity_string(ql, buy_written),
            order_id: None,
            order_filled: false,
            fill_price: None,
        };
        let short_directive = Directive {
            exchange: self.sell_exchange,
            coin: self.coin,
            symbol: self.sell_symbol.clone(),
            side: Side::Sell,
            quantity: quantity_string(qs, sell_written),
            order_id: None,
            order_filled: false,
            fill_price: None,
        };
        Ok(SpreadTrade { timestamp, long_directive, short_directive })
    }
}

/// Lot of a coin leg: one unit of its last accepted digit, in billionths.
pub open spec fn lot_spec(leg: LegMarket) -> nat {
    pow10((NANO_DIGITS - leg.precision) as nat)
}

proof fn lemma_within_lot(notional: nat, leg: LegMarket)
    requires
        leg.wf(),
    ensures
        ({
            let q = coin_qty_spec(notional, leg.price as nat, leg.precision as nat);
            q * leg.price <= (notional * (NANO as nat)) < (q + lot_spec(leg)) * leg.price
        }),
{
    let raw = raw_qty_spec(notional, leg.price as nat);
    let lot = lot_spec(leg);
    let price = leg.price as nat;
    let x = notional * NANO as nat;
    crate::decimal::lemma_pow10_positive((NANO_DIGITS - leg.precision) as nat);
    let q = coin_qty_spec(notional, price, leg.precision as nat);
    assert(raw % lot < lot && raw % lot >= 0 && raw % lot <= raw) by (nonlinear_arith)
        requires
            lot >= 1,
    ;
    assert(q == raw - raw % lot);
    assert(raw * price <= x && x < (raw + 1) * price) by (nonlinear_arith)
        requires
            price >= 1,
            raw == x / price,
    ;
    assert(q * price <= raw * price) by (nonlinear_arith)
        requires
            q <= raw,
    ;
    assert((raw + 1) * price <= (q + lot) * price) by (nonlinear_arith)
        requires
            raw + 1 <= q + lot,
    ;
}

/// The two legs of a sized trade carry the same exposure within one lot: two coin legs get
/// the very same quantity; a coin leg facing a contract leg is worth the contracts' notional
/// less at most one lot of the coin leg's venue.
pub proof fn lemma_legs_matched(budget: nat, long: LegMarket, short: LegMarket)
    requires
        long.wf(),
        short.wf(),
        sized_spec(budget, long, short) is Ok,
    ensures
        ({
            let (ql, qs) = sized_spec(budget, long, short)->Ok_0;
            &&& (long.contract_size is None && short.contract_size is None ==> ql == qs)
            &&& (long.contract_size matches Some(c) ==> ({
                let notional = notional_spec(ql, long.price as nat, c as nat);
                qs * short.price <= (notional * (NANO as nat)) < (qs + lot_spec(short)) * short.price
            }))
            &&& (short.contract_size matches Some(c) ==> ({
                let notional = notional_spec(qs, short.price as nat, c as nat);
                ql * long.price <= (notional * (NANO as nat)) < (ql + lot_spec(long)) * long.price
            }))
        }),
{
    match (long.contract_size, short.contract_size) {
        (Some(c), None) => {
            let n = contracts_spec(budget, long.price as nat, c as nat);
            lemma_within_lot(notional_spec(n, long.price as nat, c as nat), short);
        },
        (None, Some(c)) => {
            let n = contracts_spec(budget, short.price as nat, c as nat);
            lemma_within_lot(notional_spec(n, short.price as nat, c as nat), long);
        },
        _ => {},
    }
}

} // verus!
