use vstd::prelude::*;

use crate::venue::{opposite_spec, CryptoExchange, Side};

verus! {

/// Top of book on one venue; prices in billionths of the quote currency.
#[derive(Debug, Clone, Copy, PartialEq, Eq, Structural)]
pub struct Quote {
    pub ask: u64,
    pub bid: u64,
    pub exchange: CryptoExchange,
}

impl Quote {
    /// A usable quote has its bid at or below its ask.
    pub open spec fn wf(&self) -> bool {
        self.bid <= self.ask
    }

    /// Builds a quote, refusing a crossed book.
    pub fn new(exchange: CryptoExchange, ask: u64, bid: u64) -> (r: Option<Quote>)
        ensures
            r is Some <==> bid <= ask,
            r matches Some(q) ==> q.ask == ask && q.bid == bid && q.exchange == exchange,
    {
        if bid <= ask {
            Some(Quote { ask, bid, exchange })
        } else {
            None
        }
    }
}

/// One leg of a trade on one venue.
#[derive(Debug, Clone)]
pub struct Directive {
    pub exchange: CryptoExchange,
    pub coin: u32,
    pub symbol: String,
    pub side: Side,
    /// Venue-native quantity: a coin amount or a whole number of contracts.
    pub quantity: String,
    pub order_id: Option<String>,
    pub order_filled: bool,
    /// Average fill price in billionths, once known.
    pub fill_price: Option<u64>,
}

/// A persisted delta-neutral pair: long on one venue, short on another.
#[derive(Debug, Clone)]
pub struct SpreadTrade {
    pub timestamp: i64,
    pub long_directive: Directive,
    pub short_directive: Directive,
}

/// A live limit order on one venue.
#[derive(Debug, Clone)]
pub struct OrderID {
    pub exchange: CryptoExchange,
    pub side: String,
    pub symbol: String,
    pub order_id: String,
    pub amount: String,
    pub filled: bool,
}

impl OrderID {
    /// The venue accepted the order: it handed back a nonempty identifier.
    pub open spec fn accepted_spec(&self) -> bool {
        self.order_id@.len() > 0
    }

    pub fn accepted(&self) -> (r: bool)
        ensures
            r == self.accepted_spec(),
    {
        !self.order_id.as_str().is_empty()
    }

    pub fn copied(&self) -> (r: OrderID)
        ensures
            r == *self,
    {
        OrderID {
            exchange: self.exchange,
            side: self.side.clone(),
            symbol: self.symbol.clone(),
            order_id: self.order_id.clone(),
            amount: self.amount.clone(),
            filled: self.filled,
        }
    }
}

fn copy_opt_string(s: &Option<String>) -> (r: Option<String>)
    ensures
        r == *s,
{
    match s {
        Some(x) => Some(x.clone()),
        None => None,
    }
}

/// The directive that unwinds `d`: the same leg with its side flipped.
pub open spec fn closing_directive_spec(d: Directive) -> Directive {
    Directive { side: opposite_spec(d.side), ..d }
}

/// The trade that unwinds `t`: both legs flipped, the opening time kept.
pub open spec fn closing_trades_spec(t: SpreadTrade) -> SpreadTrade {
    SpreadTrade {
        timestamp: t.timestamp,
        long_directive: closing_directive_spec(t.long_directive),
        short_directive: closing_directive_spec(t.short_directive),
    }
}

impl Directive {
    pub fn copied(&self) -> (r: Directive)
        ensures
            r == *self,
    {
        Directive {
            exchange: self.exchange,
            coin: self.coin,
            symbol: self.symbol.clone(),
            side: self.side,
            quantity: self.quantity.clone(),
            order_id: copy_opt_string(&self.order_id),
            order_filled: self.order_filled,
            fill_price: self.fill_price,
        }
    }

    pub fn create_closing_directive(&self) -> (r: Directive)
        ensures
            r == closing_directive_spec(*self),
    {
        let mut d = self.copied();
        d.side = self.side.opposite();
        d
    }
}

impl SpreadTrade {
    pub fn create_closing_trades(self) -> (r: SpreadTrade)
        ensures
            r == closing_trades_spec(self),
    {
        SpreadTrade {
            timestamp: self.timestamp,
            long_directive: self.long_directive.create_closing_directive(),
            short_directive: self.short_directive.create_closing_directive(),
        }
    }

    /// Whether either leg trades on `exchange`.
    pub fn involve_exchange(&self, exchange: CryptoExchange) -> (r: bool)
        ensures
            r == (self.long_directive.exchange == exchange || self.short_directive.exchange
                == exchange),
    {
        self.long_directive.exchange == exchange || self.short_directive.exchange == exchange
    }
}

/// Flipping the sides of a trade twice gives back the trade.
pub proof fn lemma_closing_trades_involution(t: SpreadTrade)
    ensures
        closing_trades_spec(closing_trades_spec(t)) == t,
{
    assert(opposite_spec(opposite_spec(t.long_directive.side)) == t.long_directive.side);
    assert(opposite_spec(opposite_spec(t.short_directive.side)) == t.short_directive.side);
}

} // verus!
