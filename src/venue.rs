use vstd::prelude::*;

verus! {

/// Fixed-point scale for rates and fees: one unit is a billionth of a percent.
pub const SCALE: i64 = 1_000_000_000;

/// The derivatives venues the engine trades on, in their fixed enumeration order.
#[derive(Debug, Clone, Copy, PartialEq, Eq, Hash, PartialOrd, Ord, Structural)]
pub enum CryptoExchange {
    Binance,
    Bybit,
    FTX,
    Okex,
}

/// Direction of one leg.
#[derive(Debug, Clone, Copy, PartialEq, Eq, Structural)]
pub enum Side {
    Buy,
    Sell,
}

/// Whether an order rests on the book (maker) or crosses it (taker).
#[derive(Debug, Clone, Copy, PartialEq, Eq, Structural)]
pub enum FillType {
    Maker,
    Taker,
}

/// Position of a venue in the enumeration order, used to break ties.
pub open spec fn venue_rank(ex: CryptoExchange) -> int {
    match ex {
        CryptoExchange::Binance => 0,
        CryptoExchange::Bybit => 1,
        CryptoExchange::FTX => 2,
        CryptoExchange::Okex => 3,
    }
}

/// One-way fee of a venue, in billionths of a percent.
pub open spec fn fee_spec(ex: CryptoExchange, fill: FillType) -> int {
    match fill {
        FillType::Maker => match ex {
            CryptoExchange::Binance => 18_000_000,
            CryptoExchange::Bybit => 25_000_000,
            CryptoExchange::FTX => 20_000_000,
            CryptoExchange::Okex => 20_000_000,
        },
        FillType::Taker => match ex {
            CryptoExchange::Binance => 36_000_000,
            CryptoExchange::Bybit => 70_000_000,
            CryptoExchange::FTX => 70_000_000,
            CryptoExchange::Okex => 50_000_000,
        },
    }
}

/// One-way fee of a venue, in billionths of a percent.
pub fn fee_nanos(ex: CryptoExchange, fill: FillType) -> (r: i64)
    ensures
        r == fee_spec(ex, fill),
        0 < r <= 70_000_000,
{
    match fill {
        FillType::Maker => match ex {
            CryptoExchange::Binance => 18_000_000,
            CryptoExchange::Bybit => 25_000_000,
            CryptoExchange::FTX => 20_000_000,
            CryptoExchange::Okex => 20_000_000,
        },
        FillType::Taker => match ex {
            CryptoExchange::Binance => 36_000_000,
            CryptoExchange::Bybit => 70_000_000,
            CryptoExchange::FTX => 70_000_000,
            CryptoExchange::Okex => 50_000_000,
        },
    }
}

pub open spec fn opposite_spec(side: Side) -> Side {
    match side {
        Side::Buy => Side::Sell,
        Side::Sell => Side::Buy,
    }
}

impl Side {
    /// The side that closes a position opened on `self`.
    pub fn opposite(&self) -> (r: Side)
        ensures
            r == opposite_spec(*self),
    {
        match self {
            Side::Buy => Side::Sell,
            Side::Sell => Side::Buy,
        }
    }
}

/// Venues whose funding settles continuously rather than at the eight-hour epoch.
pub open spec fn continuous_funding_spec(ex: CryptoExchange) -> bool {
    ex == CryptoExchange::FTX
}

pub fn continuous_funding(ex: CryptoExchange) -> (r: bool)
    ensures
        r == continuous_funding_spec(ex),
{
    match ex {
        CryptoExchange::FTX => true,
        _ => false,
    }
}

/// Whether a venue sizes orders in whole contracts of a fixed coin amount.
pub open spec fn contract_count_venue_spec(ex: CryptoExchange) -> bool {
    ex == CryptoExchange::Okex
}

pub fn contract_count_venue(ex: CryptoExchange) -> (r: bool)
    ensures
        r == contract_count_venue_spec(ex),
{
    match ex {
        CryptoExchange::Okex => true,
        _ => false,
    }
}

/// The status string by which a venue reports a fully filled order.
pub open spec fn fill_status_spec(ex: CryptoExchange) -> Seq<char> {
    match ex {
        CryptoExchange::Binance => seq!['F', 'I', 'L', 'L', 'E', 'D'],
        CryptoExchange::Bybit => seq!['F', 'i', 'l', 'l', 'e', 'd'],
        CryptoExchange::FTX => seq!['c', 'l', 'o', 's', 'e', 'd'],
        CryptoExchange::Okex => seq!['f', 'i', 'l', 'l', 'e', 'd'],
    }
}

pub fn fill_status(ex: CryptoExchange) -> (r: &'static str)
    ensures
        r@ == fill_status_spec(ex),
{
    match ex {
        CryptoExchange::Binance => {
            proof {
                reveal_strlit("FILLED");
            }
            "FILLED"
        },
        CryptoExchange::Bybit => {
            proof {
                reveal_strlit("Filled");
            }
            "Filled"
        },
        CryptoExchange::FTX => {
            proof {
                reveal_strlit("closed");
            }
            "closed"
        },
        CryptoExchange::Okex => {
            proof {
                reveal_strlit("filled");
            }
            "filled"
        },
    }
}

/// Character-wise equality of two strings.
pub fn str_eq(a: &str, b: &str) -> (r: bool)
    ensures
        r == (a@ == b@),
{
    let n = a.unicode_len();
    if n != b.unicode_len() {
        return false;
    }
    let mut i: usize = 0;
    while i < n
        invariant
            n == a@.len(),
            n == b@.len(),
            i <= n,
            a@.subrange(0, i as int) == b@.subrange(0, i as int),
        decreases n - i,
    {
        if a.get_char(i) != b.get_char(i) {
            return false;
        }
        assert(a@.subrange(0, i + 1) == a@.subrange(0, i as int).push(a@[i as int]));
        assert(b@.subrange(0, i + 1) == b@.subrange(0, i as int).push(b@[i as int]));
        i = i + 1;
    }
    assert(a@ == a@.subrange(0, n as int));
    assert(b@ == b@.subrange(0, n as int));
    true
}

/// A venue's terminal status string reports a full fill exactly when it is the venue's
/// fully-filled state.
pub fn is_fill_status(ex: CryptoExchange, status: &str) -> (r: bool)
    ensures
        r == (status@ == fill_status_spec(ex)),
{
    str_eq(status, fill_status(ex))
}

} // verus!
