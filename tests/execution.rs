use funding_arb::decimal::{parse_decimal, to_scaled};
use funding_arb::orders::{Directive, OrderID, Quote, SpreadTrade};
use funding_arb::sizing::{LegMarket, SizingError};
use funding_arb::spread::RateSpread;
use funding_arb::strategy::{reset_strategy_values, AccountBalances, Action, FundingRateArb};
use funding_arb::venue::{CryptoExchange, Side};

const NANO: u64 = 1_000_000_000;

fn spread(buy: CryptoExchange, sell: CryptoExchange) -> RateSpread {
    RateSpread {
        coin: 1,
        buy_exchange: buy,
        buy_low_rate: -50_000_000,
        sell_exchange: sell,
        sell_high_rate: 250_000_000,
        gross_spread: 300_000_000,
        net_value_half: 160_000_000,
        net_value_maker: 224_000_000,
        net_value_taker: 128_000_000,
        trade_deadline: 0,
        buy_symbol: "BTCUSDT".to_string(),
        sell_symbol: "BTC-USDT-SWAP".to_string(),
    }
}

fn balances(a: CryptoExchange, x: u64, b: CryptoExchange, y: u64) -> AccountBalances {
    let mut bal = AccountBalances::empty();
    bal.insert(a, x);
    bal.insert(b, y);
    bal
}

#[test]
fn contract_leg_sizes_coin_leg_by_notional() {
    let sp = spread(CryptoExchange::Binance, CryptoExchange::Okex);
    let bal = balances(CryptoExchange::Binance, 1000 * NANO, CryptoExchange::Okex, 1000 * NANO);
    let coin = LegMarket { price: 20_000 * NANO, contract_size: None, precision: 2 };
    let contracts = LegMarket { price: 20_000 * NANO, contract_size: Some(NANO / 100), precision: 0 };
    let t = sp.generate_trades(&bal, coin, contracts, 1_700_000_000).unwrap();
    assert_eq!(t.long_directive.exchange, CryptoExchange::Binance);
    assert_eq!(t.long_directive.side, Side::Buy);
    assert_eq!(t.long_directive.quantity, "0.04");
    assert_eq!(t.short_directive.exchange, CryptoExchange::Okex);
    assert_eq!(t.short_directive.side, Side::Sell);
    assert_eq!(t.short_directive.quantity, "4");
    assert_eq!(t.short_directive.symbol, "BTC-USDT-SWAP");
    assert_eq!(t.timestamp, 1_700_000_000);
    assert!(t.long_directive.order_id.is_none());
}

#[test]
fn coin_legs_take_the_smaller_quantity() {
    let sp = spread(CryptoExchange::Binance, CryptoExchange::FTX);
    let bal = balances(CryptoExchange::Binance, 1000 * NANO, CryptoExchange::FTX, 500 * NANO);
    let long = LegMarket { price: 3_000 * NANO, contract_size: None, precision: 3 };
    let short = LegMarket { price: 2_900 * NANO, contract_size: None, precision: 2 };
    let t = sp.generate_trades(&bal, long, short, 0).unwrap();
    // Budget 400: 400/3000 = 0.133 and 400/2900 = 0.13; both legs take the smaller,
    // written with the digits of the leg it came from.
    assert_eq!(t.long_directive.quantity, "0.13");
    assert_eq!(t.short_directive.quantity, "0.13");
    let long = parse_decimal(&t.long_directive.quantity).unwrap();
    let short = parse_decimal(&t.short_directive.quantity).unwrap();
    assert_eq!(to_scaled(long, 9, u64::MAX >> 1), to_scaled(short, 9, u64::MAX >> 1));
}

#[test]
fn too_little_capital_for_one_contract() {
    let sp = spread(CryptoExchange::Binance, CryptoExchange::Okex);
    let bal = balances(CryptoExchange::Binance, 100 * NANO, CryptoExchange::Okex, 100 * NANO);
    let coin = LegMarket { price: 20_000 * NANO, contract_size: None, precision: 2 };
    let contracts = LegMarket { price: 20_000 * NANO, contract_size: Some(NANO), precision: 0 };
    assert_eq!(
        sp.generate_trades(&bal, coin, contracts, 0).unwrap_err(),
        SizingError::InsufficientCapital
    );
}

#[test]
fn missing_balance_and_two_contract_legs_are_refused() {
    let sp = spread(CryptoExchange::Binance, CryptoExchange::Okex);
    let coin = LegMarket { price: NANO, contract_size: None, precision: 2 };
    let contracts = LegMarket { price: NANO, contract_size: Some(NANO), precision: 0 };
    let only_one = balances(CryptoExchange::Binance, NANO, CryptoExchange::Binance, NANO);
    assert_eq!(
        sp.generate_trades(&only_one, coin, contracts, 0).unwrap_err(),
        SizingError::MissingBalance
    );
    let both = balances(CryptoExchange::Binance, 10 * NANO, CryptoExchange::Okex, 10 * NANO);
    assert_eq!(
        sp.generate_trades(&both, contracts, contracts, 0).unwrap_err(),
        SizingError::BothContractLegs
    );
}

fn order(exchange: CryptoExchange, side: &str, id: &str) -> OrderID {
    OrderID {
        exchange,
        side: side.to_string(),
        symbol: "BTCUSDT".to_string(),
        order_id: id.to_string(),
        amount: "0.04".to_string(),
        filled: false,
    }
}

fn ready_state() -> FundingRateArb {
    let mut s = FundingRateArb::new();
    assert!(matches!(s.next_action(false), Action::Wait));
    s.record_quote(Side::Buy, Quote::new(CryptoExchange::Binance, 101 * NANO, 100 * NANO).unwrap());
    assert!(matches!(s.next_action(false), Action::Wait));
    s.record_quote(Side::Sell, Quote::new(CryptoExchange::Okex, 103 * NANO, 102 * NANO).unwrap());
    s
}

#[test]
fn one_sided_fill_cancels_and_replaces_once() {
    let mut s = ready_state();
    match s.next_action(false) {
        Action::PlaceOrders { buy_price, sell_price } => {
            assert_eq!(buy_price, 100 * NANO);
            assert_eq!(sell_price, 103 * NANO);
        }
        other => panic!("expected placement, got {:?}", other),
    }
    let placed = s.record_placement(
        Some(order(CryptoExchange::Binance, "BUY", "11")),
        Some(order(CryptoExchange::Okex, "sell", "22")),
    );
    assert!(matches!(placed, Action::Wait));
    assert!(matches!(s.next_action(false), Action::Wait));
    s.record_fill(Side::Buy);
    let mut cancels = 0;
    match s.next_action(false) {
        Action::CancelReplace { order } => {
            cancels += 1;
            assert_eq!(order.order_id, "22");
            assert_eq!(order.side, "sell");
            assert_eq!(order.amount, "0.04");
        }
        other => panic!("expected cancel-replace, got {:?}", other),
    }
    for _ in 0..3 {
        if let Action::CancelReplace { .. } = s.next_action(false) {
            cancels += 1;
        }
    }
    assert_eq!(cancels, 1);
    assert!(s.close_sockets);
    assert!(s.should_close());
    assert!(matches!(s.next_action(false), Action::Done));
}

#[test]
fn refused_placement_closes_the_accepted_leg() {
    let mut s = ready_state();
    assert!(matches!(s.next_action(false), Action::PlaceOrders { .. }));
    let r = s.record_placement(
        Some(order(CryptoExchange::Binance, "BUY", "11")),
        Some(order(CryptoExchange::Okex, "sell", "")),
    );
    match r {
        Action::CloseAccepted { side } => assert_eq!(side, Side::Buy),
        other => panic!("expected close of the buy leg, got {:?}", other),
    }
    assert!(s.close_sockets);
    assert!(matches!(s.next_action(false), Action::Done));
}

#[test]
fn both_refused_ends_cycle() {
    let mut s = ready_state();
    assert!(matches!(s.next_action(false), Action::PlaceOrders { .. }));
    let r = s.record_placement(None, Some(order(CryptoExchange::Okex, "sell", "")));
    assert!(matches!(r, Action::Done));
    assert!(s.should_close());
}

#[test]
fn both_filled_is_done_and_fills_stay_set() {
    let mut s = ready_state();
    assert!(matches!(s.next_action(false), Action::PlaceOrders { .. }));
    s.record_placement(
        Some(order(CryptoExchange::Binance, "BUY", "1")),
        Some(order(CryptoExchange::Okex, "sell", "2")),
    );
    s.record_fill(Side::Sell);
    s.record_fill(Side::Buy);
    s.record_quote(Side::Buy, Quote::new(CryptoExchange::Binance, 110 * NANO, 109 * NANO).unwrap());
    assert!(s.buy_order_filled && s.sell_order_filled);
    assert!(matches!(s.next_action(false), Action::Done));
    assert!(s.buy_order_filled && s.sell_order_filled);
    assert!(s.close_sockets);
    reset_strategy_values(&mut s);
    assert!(!s.buy_order_filled && !s.close_sockets && s.buy_quote.is_none());
}

#[test]
fn exit_waits_while_unwinding_loses() {
    let mut s = ready_state();
    // Marked against the buy bid (100) and the sell ask (103): both entries at 100 lose 3.
    s.long_avg_price = 100 * NANO;
    s.short_avg_price = 100 * NANO;
    assert!(matches!(s.next_action(true), Action::Wait));
    assert!(!s.orders_were_sent);
    s.short_avg_price = 104 * NANO;
    assert!(matches!(s.next_action(true), Action::PlaceOrders { .. }));
}

#[test]
fn exit_gate_marks_long_at_bid_and_short_at_ask() {
    let mut s = FundingRateArb::new();
    s.record_quote(Side::Buy, Quote::new(CryptoExchange::Binance, 95 * NANO, 90 * NANO).unwrap());
    s.record_quote(Side::Sell, Quote::new(CryptoExchange::Okex, 110 * NANO, 105 * NANO).unwrap());
    s.long_avg_price = 100 * NANO;
    s.short_avg_price = 100 * NANO;
    // (90 - 100) + (100 - 110) = -20: keep waiting.
    assert!(matches!(s.next_action(true), Action::Wait));
}

#[test]
fn reset_clears_entry_prices() {
    let mut s = ready_state();
    s.long_avg_price = 5;
    s.short_avg_price = 7;
    reset_strategy_values(&mut s);
    assert_eq!((s.long_avg_price, s.short_avg_price), (0, 0));
}

#[test]
fn trade_file_kept_unless_placement_refused() {
    let mut s = ready_state();
    assert!(s.keeps_trade_file(false));
    assert!(!s.keeps_trade_file(true));
    assert!(matches!(s.next_action(false), Action::PlaceOrders { .. }));
    s.record_placement(None, Some(order(CryptoExchange::Okex, "sell", "2")));
    assert!(!s.keeps_trade_file(false));
    assert!(s.keeps_trade_file(true));
}

#[test]
fn coin_pair_takes_smaller_quantity_exactly() {
    let sp = spread(CryptoExchange::Binance, CryptoExchange::FTX);
    let bal = balances(CryptoExchange::Binance, 1000 * NANO, CryptoExchange::FTX, 1000 * NANO);
    // Budget 800: 800/19360 = 0.0413 at three digits, 800/16000 = 0.05 at two.
    let long = LegMarket { price: 19_360 * NANO, contract_size: None, precision: 3 };
    let short = LegMarket { price: 16_000 * NANO, contract_size: None, precision: 2 };
    let t = sp.generate_trades(&bal, long, short, 0).unwrap();
    assert_eq!(t.long_directive.quantity, "0.041");
    assert_eq!(t.short_directive.quantity, "0.041");
}

#[test]
fn crossed_quote_is_refused() {
    assert!(Quote::new(CryptoExchange::FTX, 100, 101).is_none());
    let q = Quote::new(CryptoExchange::FTX, 101, 100).unwrap();
    assert_eq!((q.ask, q.bid), (101, 100));
}

fn directive(exchange: CryptoExchange, side: Side) -> Directive {
    Directive {
        exchange,
        coin: 1,
        symbol: "BTCUSDT".to_string(),
        side,
        quantity: "0.04".to_string(),
        order_id: Some("7".to_string()),
        order_filled: true,
        fill_price: Some(20_000 * NANO),
    }
}

#[test]
fn closing_twice_restores_the_trade() {
    let t = SpreadTrade {
        timestamp: 42,
        long_directive: directive(CryptoExchange::Binance, Side::Buy),
        short_directive: directive(CryptoExchange::Okex, Side::Sell),
    };
    let once = t.clone().create_closing_trades();
    assert_eq!(once.long_directive.side, Side::Sell);
    assert_eq!(once.short_directive.side, Side::Buy);
    assert_eq!(once.long_directive.quantity, "0.04");
    assert_eq!(once.timestamp, 42);
    let twice = once.create_closing_trades();
    assert_eq!(twice.long_directive.side, Side::Buy);
    assert_eq!(twice.short_directive.side, Side::Sell);
    assert_eq!(twice.long_directive.exchange, CryptoExchange::Binance);
    assert_eq!(twice.short_directive.exchange, CryptoExchange::Okex);
    assert_eq!(twice.short_directive.order_id.as_deref(), Some("7"));
    assert!(twice.involve_exchange(CryptoExchange::Okex));
    assert!(!twice.involve_exchange(CryptoExchange::FTX));
}
