use vstd::prelude::*;

use crate::decimal::{decimal_spec, parse_decimal, scaled_spec, to_scaled};
use crate::orders::Quote;
use crate::venue::{fill_status_spec, is_fill_status, CryptoExchange};

verus! {

/// The string found at a JSON pointer in a JSON text, if the text parses and a string
/// stands there.
pub uninterp spec fn json_str_at(text: Seq<char>, pointer: Seq<char>) -> Option<Seq<char>>;

/// The JSON text of the number found at a JSON pointer in a JSON text, if the text parses
/// and a number stands there.
pub uninterp spec fn json_number_at(text: Seq<char>, pointer: Seq<char>) -> Option<Seq<char>>;

/// Relies on `serde_json::from_str`, `Value::pointer` (RFC 6901 lookup) and `Value::as_str`:
/// the string at `pointer` in the JSON text, if any.
#[verifier::external_body]
fn str_at(text: &str, pointer: &str) -> (r: Option<String>)
    ensures
        r matches Some(s) ==> json_str_at(text@, pointer@) == Some(s@),
        r is None ==> json_str_at(text@, pointer@) is None,
{
    let v: serde_json::Value = serde_json::from_str(text).ok()?;
    v.pointer(pointer)?.as_str().map(|s| s.to_string())
}

/// Relies on `serde_json::from_str`, `Value::pointer` (RFC 6901 lookup) and `Number`'s
/// rendering as JSON text: the number at `pointer` in the JSON text, if any.
#[verifier::external_body]
fn number_at(text: &str, pointer: &str) -> (r: Option<String>)
    ensures
        r matches Some(s) ==> json_number_at(text@, pointer@) == Some(s@),
        r is None ==> json_number_at(text@, pointer@) is None,
{
    let v: serde_json::Value = serde_json::from_str(text).ok()?;
    match v.pointer(pointer)? {
        serde_json::Value::Number(n) => Some(n.to_string()),
        _ => None,
    }
}

/// Where a venue's order update carries the order's status.
pub open spec fn fill_pointer_spec(ex: CryptoExchange) -> Seq<char> {
    match ex {
        CryptoExchange::Binance => seq!['/', 'o', '/', 'X'],
        CryptoExchange::Bybit => "/data/0/order_status"@,
        CryptoExchange::FTX => "/data/status"@,
        CryptoExchange::Okex => "/data/0/state"@,
    }
}

fn fill_pointer(ex: CryptoExchange) -> (r: &'static str)
    ensures
        r@ == fill_pointer_spec(ex),
{
    match ex {
        CryptoExchange::Binance => {
            proof {
                reveal_strlit("/o/X");
            }
            "/o/X"
        },
        CryptoExchange::Bybit => "/data/0/order_status",
        CryptoExchange::FTX => "/data/status",
        CryptoExchange::Okex => "/data/0/state",
    }
}

/// Whether a private-stream message reports the venue's fully-filled state.
pub fn check_for_order_fill(exchange: CryptoExchange, message: &str) -> (r: bool)
    ensures
        r == (json_str_at(message@, fill_pointer_spec(exchange)) == Some(
            fill_status_spec(exchange),
        )),
{
    match str_at(message, fill_pointer(exchange)) {
        Some(status) => is_fill_status(exchange, status.as_str()),
        None => false,
    }
}

/// A non-negative price written in decimal, in billionths.
pub open spec fn price_of(text: Seq<char>) -> Option<u64> {
    match decimal_spec(text) {
        Some(d) => {
            let v = scaled_spec(d, 9);
            if d.negative && d.digits > 0 || v > i64::MAX {
                None
            } else {
                Some(v as u64)
            }
        },
        None => None,
    }
}

/// Reads a price written in decimal into billionths; negative or oversized prices are
/// refused.
pub fn parse_price(text: &str) -> (r: Option<u64>)
    ensures
        r == price_of(text@),
{
    match parse_decimal(text) {
        Some(d) => {
            if d.negative && d.digits > 0 {
                return None;
            }
            match to_scaled(d, 9, i64::MAX as u64) {
                Some(v) => {
                    proof {
                        lemma_scaled_nonnegative(d, 9);
                    }
                    Some(v as u64)
                },
                None => {
                    proof {
                        lemma_scaled_nonnegative(d, 9);
                    }
                    None
                },
            }
        },
        None => None,
    }
}

/// The quote written by an ask and a bid price; none if either does not read or the book
/// is crossed.
pub open spec fn quote_of(exchange: CryptoExchange, ask: Seq<char>, bid: Seq<char>) -> Option<Quote> {
    match (price_of(ask), price_of(bid)) {
        (Some(a), Some(b)) => if b <= a {
            Some(Quote { ask: a, bid: b, exchange })
        } else {
            None
        },
        _ => None,
    }
}

/// Builds a quote from the text of its ask and bid prices.
pub fn quote_from_text(exchange: CryptoExchange, ask: &str, bid: &str) -> (r: Option<Quote>)
    ensures
        r == quote_of(exchange, ask@, bid@),
{
    match (parse_price(ask), parse_price(bid)) {
        (Some(a), Some(b)) => Quote::new(exchange, a, b),
        _ => None,
    }
}

fn both_quote(exchange: CryptoExchange, ask: Option<String>, bid: Option<String>) -> (r: Option<Quote>)
    ensures
        r == match (ask, bid) {
            (Some(a), Some(b)) => quote_of(exchange, a@, b@),
            _ => None,
        },
{
    match (ask, bid) {
        (Some(a), Some(b)) => quote_from_text(exchange, a.as_str(), b.as_str()),
        _ => None,
    }
}

/// The quote a venue's public stream message carries, if it is a top-of-book update.
pub open spec fn stream_quote(exchange: CryptoExchange, m: Seq<char>) -> Option<Quote> {
    let pair = |a: Option<Seq<char>>, b: Option<Seq<char>>|
        match (a, b) {
            (Some(x), Some(y)) => quote_of(exchange, x, y),
            _ => None,
        };
    match exchange {
        CryptoExchange::Binance => pair(json_str_at(m, "/a"@), json_str_at(m, "/b"@)),
        CryptoExchange::FTX => if json_str_at(m, "/channel"@) == Some("ticker"@) && json_str_at(
            m,
            "/type"@,
        ) == Some("update"@) {
            pair(json_number_at(m, "/data/ask"@), json_number_at(m, "/data/bid"@))
        } else {
            None
        },
        CryptoExchange::Okex => if json_str_at(m, "/arg/channel"@) == Some("books5"@) && json_str_at(
            m,
            "/event"@,
        ) is None {
            pair(json_str_at(m, "/data/0/asks/0/0"@), json_str_at(m, "/data/0/bids/0/0"@))
        } else {
            None
        },
        CryptoExchange::Bybit => None,
    }
}

impl Quote {
    /// The quote in a public stream message of Binance, FTX or Okex; Bybit's stream is
    /// read by `from_bybit_new` and `from_bybit_update`.
    pub fn from_exchange(exchange: CryptoExchange, message: &str) -> (r: Option<Quote>)
        ensures
            r == stream_quote(exchange, message@),
    {
        match exchange {
            CryptoExchange::Binance => both_quote(exchange, str_at(message, "/a"), str_at(message, "/b")),
            CryptoExchange::FTX => {
                let channel = str_at(message, "/channel");
                let kind = str_at(message, "/type");
                let is_update = match (&channel, &kind) {
                    (Some(c), Some(k)) => crate::venue::str_eq(c.as_str(), "ticker")
                        && crate::venue::str_eq(k.as_str(), "update"),
                    _ => false,
                };
                if is_update {
                    both_quote(exchange, number_at(message, "/data/ask"), number_at(message, "/data/bid"))
                } else {
                    None
                }
            },
            CryptoExchange::Okex => {
                let channel = str_at(message, "/arg/channel");
                let event = str_at(message, "/event");
                let is_book = match &channel {
                    Some(c) => crate::venue::str_eq(c.as_str(), "books5"),
                    None => false,
                } && event.is_none();
                if is_book {
                    both_quote(
                        exchange,
                        str_at(message, "/data/0/asks/0/0"),
                        str_at(message, "/data/0/bids/0/0"),
                    )
                } else {
                    None
                }
            },
            CryptoExchange::Bybit => None,
        }
    }
}


/// A price written in ten-thousandths, in billionths.
pub open spec fn price_e4_of(text: Seq<char>) -> Option<u64> {
    match decimal_spec(text) {
        Some(d) => {
            let v = scaled_spec(d, 5);
            if d.negative && d.digits > 0 || v > i64::MAX {
                None
            } else {
                Some(v as u64)
            }
        },
        None => None,
    }
}

proof fn lemma_scaled_nonnegative(d: crate::decimal::Decimal, e: nat)
    requires
        !(d.negative && d.digits > 0),
    ensures
        scaled_spec(d, e) >= 0,
{
    crate::decimal::lemma_scaled_truncates(d, e);
    crate::decimal::lemma_pow10_positive(d.scale as nat);
    let s = scaled_spec(d, e);
    if d.negative && s < 0 {
        let k = crate::decimal::pow10(d.scale as nat);
        assert((-s) * k <= 0 * crate::decimal::pow10(e));
        assert(false) by (nonlinear_arith)
            requires
                -s >= 1,
                k >= 1,
                (-s) * k <= 0,
        ;
    }
}

/// Reads a price written in ten-thousandths into billionths.
pub fn parse_price_e4(text: &str) -> (r: Option<u64>)
    ensures
        r == price_e4_of(text@),
{
    match parse_decimal(text) {
        Some(d) => {
            if d.negative && d.digits > 0 {
                return None;
            }
            proof {
                lemma_scaled_nonnegative(d, 5);
            }
            match to_scaled(d, 5, i64::MAX as u64) {
                Some(v) => Some(v as u64),
                None => None,
            }
        },
        None => None,
    }
}

/// The quote of a Bybit snapshot message: its best ask and bid in ten-thousandths.
pub open spec fn bybit_snapshot(m: Seq<char>) -> Option<Quote> {
    match (json_str_at(m, "/data/ask1_price_e4"@), json_str_at(m, "/data/bid1_price_e4"@)) {
        (Some(a), Some(b)) => match (price_e4_of(a), price_e4_of(b)) {
            (Some(x), Some(y)) => if y <= x {
                Some(Quote { ask: x, bid: y, exchange: CryptoExchange::Bybit })
            } else {
                None
            },
            _ => None,
        },
        _ => None,
    }
}

/// A price field of a Bybit delta message, or `old` where the message leaves it out.
pub open spec fn bybit_field(m: Seq<char>, pointer: Seq<char>, old: u64) -> u64 {
    match json_str_at(m, pointer) {
        Some(t) => match price_e4_of(t) {
            Some(p) => p,
            None => old,
        },
        None => old,
    }
}

fn bybit_price_or(message: &str, pointer: &str, old: u64) -> (r: u64)
    ensures
        r == bybit_field(message@, pointer@, old),
{
    match str_at(message, pointer) {
        Some(t) => match parse_price_e4(t.as_str()) {
            Some(p) => p,
            None => old,
        },
        None => old,
    }
}

/// A quote moved by a Bybit delta message: each side it carries is replaced, the others
/// kept; a delta that would cross the book leaves the quote as it was.
pub open spec fn bybit_delta(q: Quote, m: Seq<char>) -> Quote {
    let a = bybit_field(m, "/data/update/0/ask1_price_e4"@, q.ask);
    let b = bybit_field(m, "/data/update/0/bid1_price_e4"@, q.bid);
    if b <= a {
        Quote { ask: a, bid: b, ..q }
    } else {
        q
    }
}

/// The quote a leg holds after a public stream message: Bybit moves the leg's last quote by
/// a delta, or reads a snapshot when the leg has none; the other venues send whole quotes.
pub open spec fn next_stream_quote(exchange: CryptoExchange, last: Option<Quote>, m: Seq<char>) -> Option<Quote> {
    if exchange == CryptoExchange::Bybit {
        match last {
            Some(q) => Some(bybit_delta(q, m)),
            None => bybit_snapshot(m),
        }
    } else {
        stream_quote(exchange, m)
    }
}

impl Quote {
    /// The quote a leg on `exchange` holds after `message`, given its last quote.
    pub fn from_stream(exchange: CryptoExchange, last: Option<Quote>, message: &str) -> (r: Option<Quote>)
        ensures
            r == next_stream_quote(exchange, last, message@),
    {
        match exchange {
            CryptoExchange::Bybit => match last {
                Some(q) => Some(q.from_bybit_update(message)),
                None => Quote::from_bybit_new(message),
            },
            _ => Quote::from_exchange(exchange, message),
        }
    }

    /// The quote of a Bybit snapshot message.
    pub fn from_bybit_new(message: &str) -> (r: Option<Quote>)
        ensures
            r == bybit_snapshot(message@),
    {
        let ask = str_at(message, "/data/ask1_price_e4");
        let bid = str_at(message, "/data/bid1_price_e4");
        match (ask, bid) {
            (Some(a), Some(b)) => match (parse_price_e4(a.as_str()), parse_price_e4(b.as_str())) {
                (Some(x), Some(y)) => Quote::new(CryptoExchange::Bybit, x, y),
                _ => None,
            },
            _ => None,
        }
    }

    /// This quote moved by a Bybit delta message: each side it carries is replaced, the
    /// others kept; a delta that would cross the book leaves the quote as it was.
    pub fn from_bybit_update(&self, message: &str) -> (r: Quote)
        ensures
            r == bybit_delta(*self, message@),
    {
        let a = bybit_price_or(message, "/data/update/0/ask1_price_e4", self.ask);
        let b = bybit_price_or(message, "/data/update/0/bid1_price_e4", self.bid);
        if b <= a {
            Quote { ask: a, bid: b, exchange: self.exchange }
        } else {
            *self
        }
    }
}

} // verus!
