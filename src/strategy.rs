use vstd::prelude::*;

use crate::orders::{OrderID, Quote};
use crate::spread::{FundingRates, RateSpread};
use crate::venue::{CryptoExchange, Side};

verus! {

/// Free collateral per venue, in billionths of the settlement currency.
#[derive(Debug, Clone, Copy, PartialEq, Eq, Structural)]
pub struct AccountBalances {
    pub binance: Option<u64>,
    pub bybit: Option<u64>,
    pub ftx: Option<u64>,
    pub okex: Option<u64>,
}

impl AccountBalances {
    pub open spec fn get_spec(&self, ex: CryptoExchange) -> Option<u64> {
        match ex {
            CryptoExchange::Binance => self.binance,
            CryptoExchange::Bybit => self.bybit,
            CryptoExchange::FTX => self.ftx,
            CryptoExchange::Okex => self.okex,
        }
    }

    pub fn empty() -> (r: AccountBalances)
        ensures
            forall|ex: CryptoExchange| #[trigger] r.get_spec(ex) is None,
    {
        AccountBalances { binance: None, bybit: None, ftx: None, okex: None }
    }

    pub fn get(&self, ex: CryptoExchange) -> (r: Option<u64>)
        ensures
            r == self.get_spec(ex),
    {
        match ex {
            CryptoExchange::Binance => self.binance,
            CryptoExchange::Bybit => self.bybit,
            CryptoExchange::FTX => self.ftx,
            CryptoExchange::Okex => self.okex,
        }
    }

    pub fn insert(&mut self, ex: CryptoExchange, amount: u64)
        ensures
            final(self).get_spec(ex) == Some(amount),
            forall|o: CryptoExchange| o != ex ==> #[trigger] final(self).get_spec(o) == old(self).get_spec(o),
    {
        match ex {
            CryptoExchange::Binance => self.binance = Some(amount),
            CryptoExchange::Bybit => self.bybit = Some(amount),
            CryptoExchange::FTX => self.ftx = Some(amount),
            CryptoExchange::Okex => self.okex = Some(amount),
        }
    }
}

/// What the management task does next in one cycle of the execution coordinator.
#[derive(Debug, Clone)]
pub enum Action {
    /// Keep observing the streams.
    Wait,
    /// Place both limit orders: the buy leg at `buy_price`, the sell leg at `sell_price`.
    PlaceOrders { buy_price: u64, sell_price: u64 },
    /// Cancel `order`, the open leg of a one-sided fill, and replace it by a market order of the
    /// same side and amount.
    CancelReplace { order: OrderID },
    /// One placement was refused: close the accepted leg on `side` by a market order.
    CloseAccepted { side: Side },
    /// The cycle is over; the streams are told to close.
    Done,
}

/// Shared state of the strategy: the rates and balances of the current epoch and the
/// scratchpad of the execution coordinator.
#[derive(Debug, Clone)]
pub struct FundingRateArb {
    pub account_balances: AccountBalances,
    pub funding_rates: Vec<FundingRates>,
    pub trades: Option<RateSpread>,
    pub user_messages: String,
    pub buy_quote: Option<Quote>,
    pub sell_quote: Option<Quote>,
    pub buy_order: Option<OrderID>,
    pub sell_order: Option<OrderID>,
    /// The limit orders have been sent.
    pub orders_were_sent: bool,
    /// The outcome of sending them has been recorded.
    pub orders_acknowledged: bool,
    /// At most one order was accepted, and it has been closed by market.
    pub aborted: bool,
    pub order_cancel_sent: bool,
    pub buy_order_filled: bool,
    pub sell_order_filled: bool,
    pub close_sockets: bool,
    /// Entry prices of the open position, in billionths.
    pub long_avg_price: u64,
    pub short_avg_price: u64,
}

pub open spec fn order_accepted(o: Option<OrderID>) -> bool {
    o matches Some(x) && x.accepted_spec()
}

/// The fill flags of `b` keep every fill recorded in `a`.
pub open spec fn fills_monotone(a: FundingRateArb, b: FundingRateArb) -> bool {
    (a.buy_order_filled ==> b.buy_order_filled) && (a.sell_order_filled ==> b.sell_order_filled)
}

/// Mark-to-market profit, in billionths, of the open position: the long leg against the
/// buy quote's bid, the short leg against the sell quote's ask.
pub open spec fn exit_profit(s: FundingRateArb) -> int {
    (s.buy_quote.unwrap().bid - s.long_avg_price) + (s.short_avg_price - s.sell_quote.unwrap().ask)
}

impl FundingRateArb {
    /// The coordinator's flags are coherent, and a finished cycle leaves no order open:
    /// both legs filled, or the open leg of a one-sided fill cancelled and replaced, or the
    /// single accepted leg of a refused placement closed.
    pub open spec fn inv(&self) -> bool {
        &&& (self.orders_acknowledged ==> self.orders_were_sent)
        &&& (self.aborted ==> self.orders_acknowledged && !(order_accepted(self.buy_order)
            && order_accepted(self.sell_order)))
        &&& (self.orders_acknowledged && !self.aborted ==> order_accepted(self.buy_order)
            && order_accepted(self.sell_order))
        &&& (self.order_cancel_sent ==> self.orders_acknowledged && !self.aborted
            && (self.buy_order_filled || self.sell_order_filled))
        &&& (self.aborted ==> self.close_sockets)
        &&& (self.close_sockets ==> self.orders_acknowledged && self.done_reconciled())
    }

    /// Every order of a finished cycle is accounted for.
    pub open spec fn done_reconciled(&self) -> bool {
        ||| (self.buy_order_filled && self.sell_order_filled)
        ||| (self.order_cancel_sent && (self.buy_order_filled || self.sell_order_filled))
        ||| self.aborted
    }

    /// A fresh state: nothing observed, nothing sent.
    pub open spec fn is_fresh(&self) -> bool {
        &&& self.funding_rates@.len() == 0
        &&& self.trades is None
        &&& self.user_messages@.len() == 0
        &&& self.buy_quote is None
        &&& self.sell_quote is None
        &&& self.buy_order is None
        &&& self.sell_order is None
        &&& !self.orders_were_sent
        &&& !self.orders_acknowledged
        &&& !self.aborted
        &&& !self.order_cancel_sent
        &&& !self.buy_order_filled
        &&& !self.sell_order_filled
        &&& !self.close_sockets
    }

    pub fn new() -> (r: FundingRateArb)
        ensures
            r.is_fresh(),
            r.inv(),
            forall|ex: CryptoExchange| #[trigger] r.account_balances.get_spec(ex) is None,
            r.long_avg_price == 0,
            r.short_avg_price == 0,
    {
        FundingRateArb {
            account_balances: AccountBalances::empty(),
            funding_rates: Vec::new(),
            trades: None,
            user_messages: String::new(),
            buy_quote: None,
            sell_quote: None,
            buy_order: None,
            sell_order: None,
            orders_were_sent: false,
            orders_acknowledged: false,
            aborted: false,
            order_cancel_sent: false,
            buy_order_filled: false,
            sell_order_filled: false,
            close_sockets: false,
            long_avg_price: 0,
            short_avg_price: 0,
        }
    }

    /// A public stream's newest quote for the leg on `side`; each leg writes its own slot.
    pub fn record_quote(&mut self, side: Side, quote: Quote)
        requires
            old(self).inv(),
        ensures
            final(self).inv(),
            side == Side::Buy ==> *final(self) == (FundingRateArb {
                buy_quote: Some(quote),
                ..*old(self)
            }),
            side == Side::Sell ==> *final(self) == (FundingRateArb {
                sell_quote: Some(quote),
                ..*old(self)
            }),
    {
        match side {
            Side::Buy => self.buy_quote = Some(quote),
            Side::Sell => self.sell_quote = Some(quote),
        }
    }

    /// A private stream reported the order of the leg on `side` as fully filled.
    pub fn record_fill(&mut self, side: Side)
        requires
            old(self).inv(),
        ensures
            final(self).inv(),
            fills_monotone(*old(self), *final(self)),
            side == Side::Buy ==> *final(self) == (FundingRateArb {
                buy_order_filled: true,
                ..*old(self)
            }),
            side == Side::Sell ==> *final(self) == (FundingRateArb {
                sell_order_filled: true,
                ..*old(self)
            }),
    {
        match side {
            Side::Buy => self.buy_order_filled = true,
            Side::Sell => self.sell_order_filled = true,
        }
    }

    /// Whether the persisted trade stays once this cycle is over. An entry keeps it unless a
    /// placement was refused, which leaves nothing open. An unwind removes it unless a
    /// placement was refused, which leaves one leg of the position open.
    pub fn keeps_trade_file(&self, exit: bool) -> (r: bool)
        ensures
            r == (if exit {
                self.aborted
            } else {
                !self.aborted
            }),
    {
        if exit {
            self.aborted
        } else {
            !self.aborted
        }
    }

    /// Whether stream tasks should close their connections and exit.
    pub fn should_close(&self) -> (r: bool)
        ensures
            r == self.close_sockets,
    {
        self.close_sockets
    }

    /// The management task's decision on the current state. In exit mode the orders are
    /// placed only while unwinding at the limit prices does not lose money.
    pub fn next_action(&mut self, exit: bool) -> (r: Action)
        requires
            old(self).inv(),
        ensures
            final(self).inv(),
            fills_monotone(*old(self), *final(self)),
            final(self).buy_order_filled == old(self).buy_order_filled,
            final(self).sell_order_filled == old(self).sell_order_filled,
            final(self).buy_quote == old(self).buy_quote,
            final(self).sell_quote == old(self).sell_quote,
            old(self).close_sockets ==> r is Done && *final(self) == *old(self),
            !old(self).close_sockets && (old(self).buy_quote is None || old(self).sell_quote is None)
                ==> r is Wait && *final(self) == *old(self),
            r is Done ==> final(self).close_sockets && final(self).done_reconciled(),
            old(self).orders_were_sent ==> final(self).orders_were_sent,
            old(self).order_cancel_sent ==> final(self).order_cancel_sent,
            old(self).orders_acknowledged ==> final(self).orders_acknowledged,
            final(self).buy_order == old(self).buy_order,
            final(self).sell_order == old(self).sell_order,
            final(self).long_avg_price == old(self).long_avg_price,
            final(self).short_avg_price == old(self).short_avg_price,
            !old(self).close_sockets && old(self).buy_quote is Some && old(self).sell_quote is Some
                && old(self).orders_acknowledged && !old(self).order_cancel_sent
                && old(self).buy_order_filled && !old(self).sell_order_filled ==> r == (
            Action::CancelReplace { order: old(self).sell_order.unwrap() }),
            !old(self).close_sockets && old(self).buy_quote is Some && old(self).sell_quote is Some
                && old(self).orders_acknowledged && !old(self).order_cancel_sent
                && !old(self).buy_order_filled && old(self).sell_order_filled ==> r == (
            Action::CancelReplace { order: old(self).buy_order.unwrap() }),
            old(self).order_cancel_sent ==> !(r is CancelReplace),
            r matches Action::CancelReplace { order } ==> final(self).order_cancel_sent
                && final(self).close_sockets && !old(self).order_cancel_sent && (
            (old(self).buy_order_filled && !old(self).sell_order_filled && Some(order)
                == old(self).sell_order) || (old(self).sell_order_filled
                && !old(self).buy_order_filled && Some(order) == old(self).buy_order)),
            r matches Action::PlaceOrders { buy_price, sell_price } ==> !old(self).orders_were_sent
                && final(self).orders_were_sent && buy_price == old(self).buy_quote.unwrap().bid
                && sell_price == old(self).sell_quote.unwrap().ask,
            !old(self).close_sockets && old(self).buy_quote is Some && old(self).sell_quote is Some
                && !old(self).orders_were_sent ==> (r is PlaceOrders <==> (!exit || exit_profit(
                *old(self),
            ) >= 0)),
            old(self).buy_quote is Some && old(self).sell_quote is Some
                && old(self).orders_acknowledged && !old(self).close_sockets
                && old(self).buy_order_filled && old(self).sell_order_filled ==> r is Done,
            !(r is CloseAccepted),
    {
        if self.close_sockets {
            return Action::Done;
        }
        let (buy_quote, sell_quote) = match (self.buy_quote, self.sell_quote) {
            (Some(b), Some(s)) => (b, s),
            _ => return Action::Wait,
        };
        if !self.orders_were_sent {
            if exit {
                let profit: i128 = (buy_quote.bid as i128 - self.long_avg_price as i128) + (
                self.short_avg_price as i128 - sell_quote.ask as i128);
                if profit < 0 {
                    return Action::Wait;
                }
            }
            self.orders_were_sent = true;
            return Action::PlaceOrders { buy_price: buy_quote.bid, sell_price: sell_quote.ask };
        }
        if !self.orders_acknowledged {
            return Action::Wait;
        }
        if self.buy_order_filled && self.sell_order_filled {
            self.close_sockets = true;
            return Action::Done;
        }
        if self.order_cancel_sent {
            return Action::Wait;
        }
        if self.buy_order_filled {
            match &self.sell_order {
                Some(o) => {
                    let order = o.copied();
                    self.order_cancel_sent = true;
                    self.close_sockets = true;
                    return Action::CancelReplace { order };
                },
                None => return Action::Wait,
            }
        }
        if self.sell_order_filled {
            match &self.buy_order {
                Some(o) => {
                    let order = o.copied();
                    self.order_cancel_sent = true;
                    self.close_sockets = true;
                    return Action::CancelReplace { order };
                },
                None => return Action::Wait,
            }
        }
        Action::Wait
    }

    /// Records what the venues answered to the two limit orders. When exactly one was
    /// refused, the accepted leg is to be closed and the cycle ends; when both were refused
    /// the cycle ends with nothing open.
    pub fn record_placement(&mut self, buy_order: Option<OrderID>, sell_order: Option<OrderID>) -> (r: Action)
        requires
            old(self).inv(),
            old(self).orders_were_sent,
            !old(self).orders_acknowledged,
        ensures
            final(self).inv(),
            fills_monotone(*old(self), *final(self)),
            final(self).orders_acknowledged,
            final(self).buy_order == buy_order,
            final(self).sell_order == sell_order,
            order_accepted(buy_order) && order_accepted(sell_order) ==> r is Wait
                && !final(self).close_sockets && !final(self).aborted,
            order_accepted(buy_order) && !order_accepted(sell_order) ==> r == (Action::CloseAccepted {
                side: Side::Buy,
            }) && final(self).close_sockets && final(self).aborted,
            !order_accepted(buy_order) && order_accepted(sell_order) ==> r == (Action::CloseAccepted {
                side: Side::Sell,
            }) && final(self).close_sockets && final(self).aborted,
            !order_accepted(buy_order) && !order_accepted(sell_order) ==> r is Done
                && final(self).close_sockets && final(self).aborted,
            final(self).close_sockets ==> final(self).done_reconciled(),
            final(self).buy_quote == old(self).buy_quote,
            final(self).sell_quote == old(self).sell_quote,
            final(self).buy_order_filled == old(self).buy_order_filled,
            final(self).sell_order_filled == old(self).sell_order_filled,
            final(self).orders_were_sent,
            final(self).order_cancel_sent == old(self).order_cancel_sent,
            final(self).long_avg_price == old(self).long_avg_price,
            final(self).short_avg_price == old(self).short_avg_price,
    {
        let buy_ok = match &buy_order {
            Some(o) => o.accepted(),
            None => false,
        };
        let sell_ok = match &sell_order {
            Some(o) => o.accepted(),
            None => false,
        };
        self.buy_order = buy_order;
        self.sell_order = sell_order;
        self.orders_acknowledged = true;
        if buy_ok && sell_ok {
            return Action::Wait;
        }
        self.aborted = true;
        self.close_sockets = true;
        if buy_ok {
            Action::CloseAccepted { side: Side::Buy }
        } else if sell_ok {
            Action::CloseAccepted { side: Side::Sell }
        } else {
            Action::Done
        }
    }
}

/// Clears everything a cycle produced, entry prices included, so that the next cycle
/// starts fresh.
pub fn reset_strategy_values(data: &mut FundingRateArb)
    ensures
        final(data).is_fresh(),
        final(data).inv(),
        forall|ex: CryptoExchange| #[trigger] final(data).account_balances.get_spec(ex) is None,
        final(data).long_avg_price == 0,
        final(data).short_avg_price == 0,
{
    data.long_avg_price = 0;
    data.short_avg_price = 0;
    data.account_balances = AccountBalances::empty();
    data.funding_rates = Vec::new();
    data.trades = None;
    data.user_messages = String::new();
    data.buy_quote = None;
    data.sell_quote = None;
    data.buy_order = None;
    data.sell_order = None;
    data.orders_were_sent = false;
    data.orders_acknowledged = false;
    data.aborted = false;
    data.order_cancel_sent = false;
    data.buy_order_filled = false;
    data.sell_order_filled = false;
    data.close_sockets = false;
}

} // verus!
