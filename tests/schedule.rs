use funding_arb::orders::{Directive, SpreadTrade};
use funding_arb::query::{concatenate_query, get_ftx_signature, get_okex_signature, get_signature, hmac_hex};
use funding_arb::schedule::{calculate_duration_to_next_rate, seconds_to_next_entry, seconds_to_next_funding, should_close_position, utc_time};
use funding_arb::venue::{continuous_funding, CryptoExchange, Side};

fn leg(exchange: CryptoExchange, side: Side) -> Directive {
    Directive {
        exchange,
        coin: 1,
        symbol: "BTC".to_string(),
        side,
        quantity: "1".to_string(),
        order_id: None,
        order_filled: false,
        fill_price: None,
    }
}

fn trade(long: CryptoExchange, short: CryptoExchange) -> SpreadTrade {
    SpreadTrade { timestamp: 0, long_directive: leg(long, Side::Buy), short_directive: leg(short, Side::Sell) }
}

#[test]
fn continuous_venue_closes_in_last_quarter_hour() {
    let t = trade(CryptoExchange::FTX, CryptoExchange::Binance);
    // 10:50 UTC; live spread -0.05%.
    let now = 10 * 3600 + 50 * 60;
    assert!(should_close_position(&t, 30_000_000, -20_000_000, now));
    assert!(!should_close_position(&t, 30_000_000, -20_000_000, 10 * 3600 + 40 * 60));
    let closing = t.create_closing_trades();
    assert_eq!(closing.long_directive.side, Side::Sell);
    assert!(continuous_funding(CryptoExchange::FTX));
    assert!(!continuous_funding(CryptoExchange::Okex));
}

#[test]
fn positive_spread_keeps_position() {
    let t = trade(CryptoExchange::FTX, CryptoExchange::Binance);
    assert!(!should_close_position(&t, -50_000_000, 50_000_000, 10 * 3600 + 50 * 60));
    assert!(!should_close_position(&t, 0, 0, 10 * 3600 + 50 * 60));
}

#[test]
fn epoch_venue_closes_near_funding() {
    let t = trade(CryptoExchange::Okex, CryptoExchange::Binance);
    assert!(should_close_position(&t, 10, 0, 7 * 3600 + 50 * 60));
    assert!(!should_close_position(&t, 10, 0, 7 * 3600 + 40 * 60));
    assert_eq!(seconds_to_next_funding(7 * 3600 + 50 * 60), 600);
    assert_eq!(seconds_to_next_funding(0), 28_800);
}

#[test]
fn next_entry_time() {
    assert_eq!(seconds_to_next_entry(0), Some(27_000));
    assert_eq!(seconds_to_next_entry(27_000), Some(28_800));
    assert_eq!(seconds_to_next_entry(60_000), Some(24_600));
    assert_eq!(seconds_to_next_entry(84_600), None);
    assert_eq!(seconds_to_next_entry(86_399), None);
    assert!(utc_time() < 86_400);
    if let Some(d) = calculate_duration_to_next_rate() {
        assert!(d > 0 && d < 86_400);
    }
}

#[test]
fn query_text_is_sorted() {
    let q = vec![("timestamp", "123".to_string()), ("api_key", "abc".to_string())];
    assert_eq!(concatenate_query(q), "api_key=abc&timestamp=123");
    let one = vec![("symbol", "BTCUSDT".to_string())];
    assert_eq!(concatenate_query(one), "symbol=BTCUSDT");
    assert_eq!(concatenate_query(Vec::new()), "");
    let same = vec![("a", "2".to_string()), ("a", "1".to_string()), ("ab", "0".to_string())];
    assert_eq!(concatenate_query(same), "a=1&a=2&ab=0");
}

#[test]
fn signatures_match_reference_values() {
    assert_eq!(
        hmac_hex("key", "The quick brown fox jumps over the lazy dog"),
        "f7bc83f430538424b13298e6aa6fb143ef4d59a14946175997479dbc2d1a3cd8"
    );
    let q = vec![("timestamp", "123".to_string()), ("api_key", "abc".to_string())];
    assert_eq!(
        get_signature(q, "secret"),
        "42fc0950f38c19171a120572b1bf3ddc83eb555e8f1d8924e56d1a7d3b9a5547"
    );
    assert_eq!(
        get_okex_signature("secret", "2020-12-08T09:08:57.715Z", "GET", "/api/v5/account/balance", None),
        "5ktoTKif8DCJlIPb/3Kfd1A17bIRye6jpS9QBWj+9AU="
    );
    assert_eq!(
        get_ftx_signature("secret", "1588591511721", "get", "/markets", None),
        "01b647b352735eacafe8455358b4fcd4225fdd8e4e0f9d85b9c249046bc3b531"
    );
}
