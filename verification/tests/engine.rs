//! The aggregation engine: health transitions, last-write-wins book,
//! staleness detection, and the exact cache write-through.

use pricefeed::publisher::{
    cache_commands, is_high_error_count, is_stale_at, PricePublisher, CHANNEL_SIZE,
    REDIS_PRICE_EXPIRY_S,
};
use pricefeed::types::PriceUpdate;

fn update(symbol: &str, source: &str, price: u64, ts: u64) -> PriceUpdate {
    PriceUpdate {
        symbol: symbol.to_string(),
        price,
        timestamp: ts,
        source: source.to_string(),
    }
}

#[test]
fn publisher_starts_with_four_connected_sources() {
    let p = PricePublisher::new(1_700_000_000).unwrap();
    let health = p.get_exchange_health();
    assert_eq!(health.len(), 4);
    let names: Vec<&str> = health.iter().map(|e| e.0.as_str()).collect();
    assert_eq!(names, vec!["binance", "bybit", "coinbase", "hyperliquid"]);
    for (_, h) in health {
        assert!(h.is_connected);
        assert_eq!(h.error_count, 0);
        assert_eq!(h.last_update, 1_700_000_000);
    }
    assert!(p.get_latest_prices().is_empty());
    assert_eq!(p.exchanges.len(), 4);
    assert_eq!(CHANNEL_SIZE, 1000);
}

#[test]
fn health_transitions() {
    // P5: an error strictly increments the count and disconnects; a success
    // resets the count to zero and connects.
    let mut p = PricePublisher::new(1000).unwrap();
    p.update_health_metrics("binance", false, true, 1010);
    let h = &p.get_exchange_health()[0].1;
    assert_eq!(h.error_count, 1);
    assert!(!h.is_connected);
    assert_eq!(h.last_update, 1010);
    p.update_health_metrics("binance", false, true, 1020);
    assert_eq!(p.get_exchange_health()[0].1.error_count, 2);
    p.update_health_metrics("binance", true, false, 1030);
    let h = &p.get_exchange_health()[0].1;
    assert_eq!(h.error_count, 0);
    assert!(h.is_connected);
    // A source that never had a record stays unrecorded.
    p.update_health_metrics("nosuch", false, true, 1040);
    assert_eq!(p.get_exchange_health().len(), 4);
}

#[test]
fn last_write_wins() {
    // P4: writing the same (symbol, source, price) twice leaves the entry
    // equal to the most recent write only, regardless of write count.
    let mut p = PricePublisher::new(0).unwrap();
    let u = update("BTCUSDT", "binance", 5_000_000_000_000, 100);
    p.apply_update(&u);
    p.apply_update(&u);
    p.apply_update(&u);
    let book = p.get_latest_prices();
    assert_eq!(book.len(), 1);
    assert_eq!(book[0].0 .0, "BTCUSDT");
    assert_eq!(book[0].0 .1, "binance");
    assert_eq!(book[0].1, (5_000_000_000_000, 100));
    let newer = update("BTCUSDT", "binance", 5_100_000_000_000, 200);
    p.apply_update(&newer);
    let book = p.get_latest_prices();
    assert_eq!(book.len(), 1);
    assert_eq!(book[0].1, (5_100_000_000_000, 200));
    // A second source for the same symbol gets its own entry.
    p.apply_update(&update("BTCUSDT", "bybit", 1, 201));
    assert_eq!(p.get_latest_prices().len(), 2);
}

#[test]
fn staleness_detection() {
    // P6: an entry older than the threshold at check time is flagged; a
    // younger one is not.
    let mut p = PricePublisher::new(0).unwrap();
    p.apply_update(&update("BTCUSDT", "binance", 1, 1000));
    p.apply_update(&update("ETHUSDT", "binance", 2, 1025));
    let stale = p.stale_entries(1031);
    assert_eq!(stale.len(), 1);
    assert_eq!(stale[0].0, "BTCUSDT");
    assert_eq!(stale[0].1, "binance");
    assert_eq!(stale[0].2, 31);
    assert!(p.stale_entries(1030).is_empty());
    assert!(is_stale_at(1000, 1031));
    assert!(!is_stale_at(1000, 1030));
    assert!(is_high_error_count(6));
    assert!(!is_high_error_count(5));
}

#[test]
fn cache_write_through() {
    // P9: the engine records the update and issues the two cache writes,
    // with the plain decimal price, the eight-decimal source record, and
    // the fixed sixty-second expiry.
    let mut p = PricePublisher::new(0).unwrap();
    let u = update("BTCUSDT", "binance", 5_000_000_000_000, 1_700_000_000);
    let w = p.process_update(&u);
    assert_eq!(w.price_key, "price:BTCUSDT");
    assert_eq!(w.price_value, "50000");
    assert_eq!(w.sources_key, "price:BTCUSDT:sources");
    assert_eq!(w.sources_value, "binance:50000.00000000:1700000000");
    assert_eq!(w.expiry_s, 60);
    assert_eq!(REDIS_PRICE_EXPIRY_S, 60);
    let book = p.get_latest_prices();
    assert_eq!(book.len(), 1);
    assert_eq!(book[0].1, (5_000_000_000_000, 1_700_000_000));
}

#[test]
fn cache_commands_fractional_price() {
    let u = update("ETHUSDT", "coinbase", 300_012_345_678, 7);
    let w = cache_commands(&u);
    assert_eq!(w.price_key, "price:ETHUSDT");
    assert_eq!(w.price_value, "3000.12345678");
    assert_eq!(w.sources_value, "coinbase:3000.12345678:7");
}

#[test]
fn engine_adapters_carry_the_fixed_configuration() {
    let p = PricePublisher::new(0).unwrap();
    let binance = &p.exchanges[0];
    assert_eq!(
        binance.get_websocket_url(),
        "wss://stream.binance.com:9443/ws/btcusdt/ethusdt/solusdt/usdcusdt@bookTicker"
    );
    // The stablecoin pair is configured, so the ticker-channel adapter owes
    // its synthetic event at the start of every listen cycle.
    match &p.exchanges[2] {
        pricefeed::exchanges::ExchangeImpl::Coinbase(c) => {
            let u = c.handle_usdc_usdt(3).expect("synthetic event owed");
            assert_eq!(u.symbol, "USDCUSDT");
            assert_eq!(u.price, 100_000_000);
        }
        _ => panic!("the third adapter serves the ticker-channel exchange"),
    }
}
