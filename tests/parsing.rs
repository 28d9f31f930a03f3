use funding_arb::decimal::{format_fixed, format_unsigned, parse_decimal, to_rounded, to_scaled, truncate_to_precision, Decimal};
use funding_arb::feed::{check_for_order_fill, parse_price, quote_from_text};
use funding_arb::ingest::{parse_millis, parse_rate, strip_suffix, AssetTable};
use funding_arb::orders::Quote;
use funding_arb::spread::FundingRates;
use funding_arb::venue::{is_fill_status, str_eq, CryptoExchange};

fn assets() -> AssetTable {
    AssetTable { entries: vec![("BTC".to_string(), 1), ("ETH".to_string(), 2)] }
}

#[test]
fn decimal_text_reads_exactly() {
    assert_eq!(
        parse_decimal("-12.50"),
        Some(Decimal { negative: true, digits: 1250, scale: 2 })
    );
    assert_eq!(parse_decimal("7"), Some(Decimal { negative: false, digits: 7, scale: 0 }));
    assert_eq!(parse_decimal("0.000100"), Some(Decimal { negative: false, digits: 100, scale: 6 }));
    assert_eq!(parse_decimal(".5"), Some(Decimal { negative: false, digits: 5, scale: 1 }));
    assert_eq!(parse_decimal(""), None);
    assert_eq!(parse_decimal("-"), None);
    assert_eq!(parse_decimal("."), None);
    assert_eq!(parse_decimal("1.2.3"), None);
    assert_eq!(parse_decimal("1e-5"), None);
    assert_eq!(parse_decimal("1234567890123456789"), None);
}

#[test]
fn scaling_truncates_toward_zero() {
    let d = parse_decimal("0.000123456789012").unwrap();
    // Percent in billionths: the fraction times 10^11, cut after the last whole unit.
    assert_eq!(to_scaled(d, 11, i64::MAX as u64), Some(12_345_678));
    let n = parse_decimal("-0.000123456789012").unwrap();
    assert_eq!(to_scaled(n, 11, i64::MAX as u64), Some(-12_345_678));
    let whole = parse_decimal("3").unwrap();
    assert_eq!(to_scaled(whole, 9, i64::MAX as u64), Some(3_000_000_000));
    assert_eq!(to_scaled(whole, 9, 1_000), None);
    // The scaled value read back at the same scale is the value cut to nine digits.
    let r = parse_decimal("0.1234567899").unwrap();
    let s = to_scaled(r, 9, i64::MAX as u64).unwrap();
    assert_eq!(s, 123_456_789);
    assert_eq!(format_fixed(s as u64, 9), "0.123456789");
    assert_eq!(to_rounded(r, 9, i64::MAX as u64), Some(123_456_790));
    assert_eq!(to_rounded(n, 11, i64::MAX as u64), Some(-12_345_679));
}

#[test]
fn rates_and_times_read() {
    assert_eq!(parse_rate("0.0001"), Some(10_000_000));
    assert_eq!(parse_rate("-0.00075"), Some(-75_000_000));
    assert_eq!(parse_rate("abc"), None);
    // Billionths of a percent are rounded to the nearest, halves away from zero.
    assert_eq!(parse_rate("0.000000000009"), Some(1));
    assert_eq!(parse_rate("0.000000000004"), Some(0));
    assert_eq!(parse_rate("0.000000000005"), Some(1));
    assert_eq!(parse_rate("-0.000000000005"), Some(-1));
    assert_eq!(parse_rate("0.00012345678951"), Some(12_345_679));
    assert_eq!(parse_rate("100000"), None);
    assert_eq!(parse_millis("1640995200000"), Some(1_640_995_200_000));
    assert_eq!(parse_millis("1.5"), None);
}

#[test]
fn fixed_point_text() {
    assert_eq!(format_fixed(40_000_000, 2), "0.04");
    assert_eq!(format_fixed(1_234_567_890, 3), "1.234");
    assert_eq!(format_fixed(5_000_000_000, 0), "5");
    assert_eq!(format_fixed(7, 9), "0.000000007");
    assert_eq!(format_unsigned(0), "0");
    assert_eq!(format_unsigned(1_234_500), "1234500");
    assert_eq!(truncate_to_precision(1_234_567_890, 2), 1_230_000_000);
}

#[test]
fn records_normalize_per_venue() {
    let t = assets();
    let tiny = FundingRates::from_binance("BTCUSDT", "0.000000000009", 0, &t).unwrap();
    assert_eq!(tiny.rate_tenk, 1);
    let r = FundingRates::from_okex("BTC-USDT-SWAP", "0.0001", "1640995200000", &t).unwrap();
    assert_eq!(r.exchange, CryptoExchange::Okex);
    assert_eq!(r.base_name, 1);
    assert_eq!(r.rate_tenk, 10_000_000);
    assert_eq!(r.funding_timestamp, 1_640_995_200_000);
    assert_eq!(r.symbol, "BTC-USDT-SWAP");
    let b = FundingRates::from_binance("ETHUSDT", "-0.00010000", 1_640_995_200_000, &t).unwrap();
    assert_eq!((b.base_name, b.rate_tenk), (2, -10_000_000));
    let f = FundingRates::from_ftx("BTC-PERP", "0.000025", "2022-01-01T00:00:00+00:00", &t).unwrap();
    assert_eq!(f.funding_timestamp, 1_640_995_200_000);
    assert_eq!(f.rate_tenk, 2_500_000);
    let y = FundingRates::from_bybit("ETHUSDT", "0.0001", "2022-01-01T08:00:00Z", &t).unwrap();
    assert_eq!(y.funding_timestamp, 1_641_024_000_000);
    assert!(FundingRates::from_binance("DOGEUSDT", "0.0001", 0, &t).is_none());
    assert!(FundingRates::from_binance("BTCBUSD", "0.0001", 0, &t).is_none());
    assert!(FundingRates::from_okex("BTC-USDT-SWAP", "n/a", "0", &t).is_none());
    assert!(FundingRates::from_bybit("ETHUSDT", "0.0001", "tomorrow", &t).is_none());
}

#[test]
fn suffixes_and_lookup() {
    assert_eq!(strip_suffix("BTC-PERP", "-PERP"), Some("BTC".to_string()));
    assert_eq!(strip_suffix("BTC", "-PERP"), None);
    assert_eq!(strip_suffix("BTCUSD", "USDT"), None);
    assert_eq!(assets().lookup("ETH"), Some(2));
    assert_eq!(assets().lookup("SOL"), None);
    assert!(str_eq("abc", "abc"));
    assert!(!str_eq("abc", "abd"));
}

#[test]
fn fill_messages_per_venue() {
    assert!(check_for_order_fill(CryptoExchange::Binance, r#"{"e":"ORDER_TRADE_UPDATE","o":{"X":"FILLED"}}"#));
    assert!(!check_for_order_fill(CryptoExchange::Binance, r#"{"o":{"X":"PARTIALLY_FILLED"}}"#));
    assert!(check_for_order_fill(CryptoExchange::Okex, r#"{"data":[{"state":"filled"}]}"#));
    assert!(!check_for_order_fill(CryptoExchange::Okex, r#"{"data":[{"state":"live"}]}"#));
    assert!(check_for_order_fill(CryptoExchange::Bybit, r#"{"data":[{"order_status":"Filled"}]}"#));
    assert!(check_for_order_fill(CryptoExchange::FTX, r#"{"data":{"status":"closed"}}"#));
    assert!(!check_for_order_fill(CryptoExchange::FTX, "not json"));
    assert!(is_fill_status(CryptoExchange::Okex, "filled"));
    assert!(!is_fill_status(CryptoExchange::Binance, "filled"));
}

#[test]
fn quotes_from_stream_messages() {
    let b = Quote::from_exchange(CryptoExchange::Binance, r#"{"u":1,"s":"BTCUSDT","b":"20000.10","a":"20000.50"}"#).unwrap();
    assert_eq!(b.ask, 20_000_500_000_000);
    assert_eq!(b.bid, 20_000_100_000_000);
    let f = Quote::from_exchange(
        CryptoExchange::FTX,
        r#"{"channel":"ticker","type":"update","data":{"ask":101.5,"bid":101.25}}"#,
    )
    .unwrap();
    assert_eq!((f.ask, f.bid), (101_500_000_000, 101_250_000_000));
    assert!(Quote::from_exchange(CryptoExchange::FTX, r#"{"channel":"ticker","type":"subscribed"}"#).is_none());
    let o = Quote::from_exchange(
        CryptoExchange::Okex,
        r#"{"arg":{"channel":"books5","instId":"BTC-USDT-SWAP"},"data":[{"asks":[["20001","3","0","1"]],"bids":[["20000","5","0","2"]]}]}"#,
    )
    .unwrap();
    assert_eq!((o.ask, o.bid), (20_001_000_000_000, 20_000_000_000_000));
    assert!(Quote::from_exchange(
        CryptoExchange::Okex,
        r#"{"event":"subscribe","arg":{"channel":"books5"}}"#
    )
    .is_none());
    assert!(Quote::from_exchange(CryptoExchange::Bybit, r#"{"a":"1","b":"1"}"#).is_none());
}

#[test]
fn bybit_snapshot_and_delta() {
    let q = Quote::from_bybit_new(r#"{"data":{"ask1_price_e4":"200005000","bid1_price_e4":"200000000"}}"#).unwrap();
    assert_eq!((q.ask, q.bid), (20_000_500_000_000, 20_000_000_000_000));
    let moved = q.from_bybit_update(r#"{"data":{"update":[{"bid1_price_e4":"200001000"}]}}"#);
    assert_eq!((moved.ask, moved.bid), (20_000_500_000_000, 20_000_100_000_000));
    assert_eq!(Quote::from_stream(CryptoExchange::Bybit, Some(q), r#"{"data":{"update":[{"bid1_price_e4":"200001000"}]}}"#), Some(moved));
    assert_eq!(
        Quote::from_stream(CryptoExchange::Bybit, None, r#"{"data":{"ask1_price_e4":"200005000","bid1_price_e4":"200000000"}}"#),
        Some(q)
    );
    assert_eq!(Quote::from_stream(CryptoExchange::Binance, Some(q), r#"{"a":"2","b":"1"}"#).unwrap().ask, 2_000_000_000);
    let crossed = q.from_bybit_update(r#"{"data":{"update":[{"bid1_price_e4":"300000000"}]}}"#);
    assert_eq!((crossed.ask, crossed.bid), (q.ask, q.bid));
}

#[test]
fn price_text() {
    assert_eq!(parse_price("20000.5"), Some(20_000_500_000_000));
    assert_eq!(parse_price("-1"), None);
    assert_eq!(parse_price("-0"), Some(0));
    assert!(quote_from_text(CryptoExchange::Okex, "1", "2").is_none());
    assert_eq!(quote_from_text(CryptoExchange::Okex, "2", "1").unwrap().ask, 2_000_000_000);
}
