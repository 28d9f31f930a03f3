use funding_arb::spread::{best_spread, collect_spreads, rank_spreads, select_trade, FundingRates, RateSpread};
use funding_arb::venue::{fee_nanos, CryptoExchange, FillType};

const BTC: u32 = 1;
const ETH: u32 = 2;

fn rate(exchange: CryptoExchange, asset: u32, rate_tenk: i64, ts: i64, symbol: &str) -> FundingRates {
    FundingRates {
        exchange,
        base_name: asset,
        rate_tenk,
        funding_timestamp: ts,
        symbol: symbol.to_string(),
    }
}

fn find(spreads: &[RateSpread], coin: u32) -> Option<&RateSpread> {
    spreads.iter().find(|s| s.coin == coin)
}

#[test]
fn btc_pair_found_and_eth_tie_fails_threshold() {
    let rates = vec![
        rate(CryptoExchange::Binance, BTC, 30_000_000, 100, "BTCUSDT"),
        rate(CryptoExchange::Bybit, BTC, -10_000_000, 200, "BTCUSDT"),
        rate(CryptoExchange::Binance, ETH, 20_000_000, 100, "ETHUSDT"),
        rate(CryptoExchange::Okex, ETH, 20_000_000, 100, "ETH-USDT-SWAP"),
    ];
    let spreads = collect_spreads(&rates);
    assert_eq!(spreads.len(), 2);
    let btc = find(&spreads, BTC).unwrap();
    assert_eq!(btc.buy_exchange, CryptoExchange::Bybit);
    assert_eq!(btc.sell_exchange, CryptoExchange::Binance);
    assert_eq!(btc.gross_spread, 40_000_000);
    // Bybit maker 0.025 and Binance maker 0.018, each paid twice.
    assert_eq!(btc.net_value_maker, 40_000_000 - 50_000_000 - 36_000_000);
    // Bybit taker 0.07 and Binance taker 0.036, each paid twice.
    assert_eq!(btc.net_value_taker, 40_000_000 - 140_000_000 - 72_000_000);
    // Dearer taker (Bybit) plus dearer maker (Bybit), each paid twice.
    assert_eq!(btc.net_value_half, 40_000_000 - 140_000_000 - 50_000_000);
    assert_eq!(btc.trade_deadline, 200);
    assert_eq!(btc.buy_symbol, "BTCUSDT");
    let eth = find(&spreads, ETH).unwrap();
    assert_eq!(eth.gross_spread, 0);
    assert_eq!(eth.buy_exchange, CryptoExchange::Binance);
    assert_eq!(eth.sell_exchange, CryptoExchange::Okex);
    assert!(!eth.meets_threshold());
    assert!(select_trade(&rates).is_none());
}

#[test]
fn same_venue_bucket_gives_no_spread() {
    let rates = vec![
        rate(CryptoExchange::Okex, BTC, 10_000_000, 0, "BTC-USDT-SWAP"),
        rate(CryptoExchange::Okex, BTC, 90_000_000, 0, "BTC-USDT-SWAP"),
    ];
    assert!(RateSpread::calculate(&rates).is_none());
    assert!(collect_spreads(&rates).is_empty());
}

#[test]
fn single_record_gives_no_spread() {
    let rates = vec![rate(CryptoExchange::FTX, BTC, 10_000_000, 0, "BTC-PERP")];
    assert!(RateSpread::calculate(&rates).is_none());
    assert!(RateSpread::calculate(&Vec::new()).is_none());
}

#[test]
fn legs_on_distinct_venues_and_one_asset() {
    let rates = vec![
        rate(CryptoExchange::Binance, BTC, 5_000_000, 0, "BTCUSDT"),
        rate(CryptoExchange::Okex, ETH, 1_000_000, 0, "ETH-USDT-SWAP"),
        rate(CryptoExchange::FTX, BTC, 250_000_000, 0, "BTC-PERP"),
        rate(CryptoExchange::Bybit, ETH, -3_000_000, 0, "ETHUSDT"),
        rate(CryptoExchange::Okex, BTC, -50_000_000, 0, "BTC-USDT-SWAP"),
    ];
    let spreads = collect_spreads(&rates);
    assert_eq!(spreads.len(), 2);
    for sp in &spreads {
        assert_ne!(sp.buy_exchange, sp.sell_exchange);
        assert!(rates.iter().any(|r| r.base_name == sp.coin && r.exchange == sp.buy_exchange));
        assert!(rates.iter().any(|r| r.base_name == sp.coin && r.exchange == sp.sell_exchange));
    }
    let btc = find(&spreads, BTC).unwrap();
    assert_eq!(btc.buy_exchange, CryptoExchange::Okex);
    assert_eq!(btc.sell_exchange, CryptoExchange::FTX);
    assert_eq!(btc.buy_symbol, "BTC-USDT-SWAP");
    assert_eq!(btc.sell_symbol, "BTC-PERP");
}

#[test]
fn half_estimate_between_taker_and_maker() {
    let rates = vec![
        rate(CryptoExchange::Binance, BTC, 5_000_000, 0, "BTCUSDT"),
        rate(CryptoExchange::Okex, BTC, 300_000_000, 0, "BTC-USDT-SWAP"),
    ];
    let sp = RateSpread::calculate(&rates).unwrap();
    assert!(sp.net_value_taker <= sp.net_value_half);
    assert!(sp.net_value_half <= sp.net_value_maker);
    assert_eq!(sp.net_value_taker, 295_000_000 - 72_000_000 - 100_000_000);
    assert_eq!(sp.net_value_half, 295_000_000 - 100_000_000 - 40_000_000);
    assert_eq!(sp.net_value_maker, 295_000_000 - 36_000_000 - 40_000_000);
}

#[test]
fn best_spread_picks_greatest_and_takes_trade() {
    let rates = vec![
        rate(CryptoExchange::Binance, BTC, 0, 0, "BTCUSDT"),
        rate(CryptoExchange::FTX, BTC, 400_000_000, 0, "BTC-PERP"),
        rate(CryptoExchange::Binance, ETH, 0, 0, "ETHUSDT"),
        rate(CryptoExchange::Okex, ETH, 600_000_000, 0, "ETH-USDT-SWAP"),
    ];
    let spreads = collect_spreads(&rates);
    let b = best_spread(&spreads).unwrap();
    assert_eq!(spreads[b].coin, ETH);
    let chosen = select_trade(&rates).unwrap();
    assert_eq!(chosen.coin, ETH);
    assert_eq!(chosen.net_value_half, 600_000_000 - 100_000_000 - 40_000_000);
    assert!(best_spread(&Vec::new()).is_none());
}

#[test]
fn tie_on_rate_broken_by_venue_order() {
    let rates = vec![
        rate(CryptoExchange::Okex, BTC, 7, 0, "BTC-USDT-SWAP"),
        rate(CryptoExchange::Bybit, BTC, 7, 0, "BTCUSDT"),
        rate(CryptoExchange::FTX, BTC, 7, 0, "BTC-PERP"),
    ];
    let sp = RateSpread::calculate(&rates).unwrap();
    assert_eq!(sp.buy_exchange, CryptoExchange::Bybit);
    assert_eq!(sp.sell_exchange, CryptoExchange::Okex);
}

#[test]
fn fee_table_values() {
    assert_eq!(fee_nanos(CryptoExchange::Binance, FillType::Maker), 18_000_000);
    assert_eq!(fee_nanos(CryptoExchange::Binance, FillType::Taker), 36_000_000);
    assert_eq!(fee_nanos(CryptoExchange::Bybit, FillType::Maker), 25_000_000);
    assert_eq!(fee_nanos(CryptoExchange::Bybit, FillType::Taker), 70_000_000);
    assert_eq!(fee_nanos(CryptoExchange::Okex, FillType::Maker), 20_000_000);
    assert_eq!(fee_nanos(CryptoExchange::Okex, FillType::Taker), 50_000_000);
    assert_eq!(fee_nanos(CryptoExchange::FTX, FillType::Maker), 20_000_000);
    assert_eq!(fee_nanos(CryptoExchange::FTX, FillType::Taker), 70_000_000);
    let r = rate(CryptoExchange::Okex, BTC, 0, 0, "BTC-USDT-SWAP");
    assert_eq!(r.calculate_fee(FillType::Taker), 100_000_000);
}

#[test]
fn spreads_ranked_by_half_net_value() {
    let rates = vec![
        rate(CryptoExchange::Binance, BTC, 0, 0, "BTCUSDT"),
        rate(CryptoExchange::FTX, BTC, 400_000_000, 0, "BTC-PERP"),
        rate(CryptoExchange::Binance, ETH, 0, 0, "ETHUSDT"),
        rate(CryptoExchange::Okex, ETH, 600_000_000, 0, "ETH-USDT-SWAP"),
        rate(CryptoExchange::Bybit, 3, 0, 0, "SOLUSDT"),
        rate(CryptoExchange::Okex, 3, 500_000_000, 0, "SOL-USDT-SWAP"),
    ];
    let ranked = rank_spreads(collect_spreads(&rates));
    let coins: Vec<u32> = ranked.iter().map(|s| s.coin).collect();
    assert_eq!(coins, vec![ETH, 3, BTC]);
    assert!(rank_spreads(Vec::new()).is_empty());
}
