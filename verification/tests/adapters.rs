//! The four adapters on realistic wire messages.

use pricefeed::exchanges::binance::BinanceExchange;
use pricefeed::exchanges::bybit::BybitExchange;
use pricefeed::exchanges::coinbase::CoinbaseExchange;
use pricefeed::exchanges::hyperliquid::HyperliquidExchange;
use pricefeed::exchanges::{create_exchange, ExchangeImpl};
use pricefeed::price::PRICE_SCALE;
use pricefeed::types::{Exchange, TradingPair};

fn pairs() -> Vec<TradingPair> {
    vec![
        TradingPair::new("BTC", "USDT"),
        TradingPair::new("ETH", "USDT"),
    ]
}

#[test]
fn binance_url_and_subscription() {
    let ex = BinanceExchange::new(pairs(), 0);
    assert_eq!(
        ex.get_websocket_url(),
        "wss://stream.binance.com:9443/ws/btcusdt/ethusdt@bookTicker"
    );
    assert_eq!(
        ex.create_subscription_message(),
        "{\"id\":1,\"method\":\"SUBSCRIBE\",\"params\":[\"btcusdt/ethusdt@bookTicker\"]}"
    );
}

#[test]
fn binance_mid_price_event() {
    let msg = "{\"u\":400900217,\"s\":\"BTCUSDT\",\"b\":\"50000\",\"B\":\"31.21\",\"a\":\"50001\",\"A\":\"40.66\"}";
    let ups = BinanceExchange::handle_message(msg, 1_700_000_000);
    assert_eq!(ups.len(), 1);
    assert_eq!(ups[0].symbol, "BTCUSDT");
    assert_eq!(ups[0].price, 5_000_050_000_000);
    assert_eq!(ups[0].timestamp, 1_700_000_000);
    assert_eq!(ups[0].source, "binance");
}

#[test]
fn binance_drops_unparsable_quotes() {
    let msg = "{\"s\":\"BTCUSDT\",\"b\":\"abc\",\"a\":\"50001\"}";
    assert!(BinanceExchange::handle_message(msg, 0).is_empty());
    let msg2 = "{\"result\":null,\"id\":1}";
    assert!(BinanceExchange::handle_message(msg2, 0).is_empty());
}

#[test]
fn bybit_subscription_and_symbol_stripping() {
    let ex = BybitExchange::new(pairs(), 0);
    assert_eq!(ex.get_websocket_url(), "wss://stream.bybit.com/v5/public/spot");
    assert_eq!(
        ex.create_subscription_message(),
        "{\"args\":[\"orderbook.1.BTCUSDT\",\"orderbook.1.ETHUSDT\"],\"op\":\"subscribe\"}"
    );
    let msg = "{\"topic\":\"orderbook.1.BTCUSDT\",\"data\":{\"b\":[[\"16493.50\",\"0.006\"]],\"a\":[[\"16611\",\"0.029\"]]}}";
    let ups = BybitExchange::handle_message(msg, 7);
    assert_eq!(ups.len(), 1);
    assert_eq!(ups[0].symbol, "BTCUSDT");
    assert_eq!(ups[0].price, (1_649_350_000_000 + 1_661_100_000_000) / 2);
    assert_eq!(ups[0].source, "bybit");
}

#[test]
fn bybit_drops_empty_sides() {
    let empty_bids = "{\"topic\":\"orderbook.1.BTCUSDT\",\"data\":{\"b\":[],\"a\":[[\"1\",\"1\"]]}}";
    assert!(BybitExchange::handle_message(empty_bids, 0).is_empty());
    let empty_asks = "{\"topic\":\"orderbook.1.BTCUSDT\",\"data\":{\"b\":[[\"1\",\"1\"]],\"a\":[]}}";
    assert!(BybitExchange::handle_message(empty_asks, 0).is_empty());
}

#[test]
fn coinbase_subscription_and_event() {
    let ex = CoinbaseExchange::new(pairs(), 0);
    assert_eq!(ex.get_websocket_url(), "wss://ws-feed.exchange.coinbase.com/ws");
    assert_eq!(
        ex.create_subscription_message(),
        "{\"channels\":[\"ticker\"],\"product_ids\":[\"BTC-USDT\",\"ETH-USDT\"],\"type\":\"subscribe\"}"
    );
    let msg = "{\"type\":\"ticker\",\"product_id\":\"BTC-USD\",\"best_bid\":\"50000\",\"best_ask\":\"50001\"}";
    let ups = CoinbaseExchange::handle_message(msg, 9);
    assert_eq!(ups.len(), 1);
    assert_eq!(ups[0].symbol, "BTCUSD");
    assert_eq!(ups[0].price, 5_000_050_000_000);
    assert_eq!(ups[0].source, "coinbase");
}

#[test]
fn coinbase_drops_unparsable_quotes() {
    let msg = "{\"product_id\":\"BTC-USD\",\"best_bid\":\"x\",\"best_ask\":\"50001\"}";
    assert!(CoinbaseExchange::handle_message(msg, 0).is_empty());
}

#[test]
fn synthetic_stablecoin_event_iff_pair_configured() {
    // P3: present exactly when the stablecoin pair is configured, with
    // price exactly one whole unit, matched without regard to case.
    let with = CoinbaseExchange::new(
        vec![TradingPair::new("BTC", "USDT"), TradingPair::new("usdc", "usdt")],
        0,
    );
    let u = with.handle_usdc_usdt(42).expect("synthetic event owed");
    assert_eq!(u.symbol, "USDCUSDT");
    assert_eq!(u.price, PRICE_SCALE);
    assert_eq!(u.timestamp, 42);
    assert_eq!(u.source, "coinbase");
    let without = CoinbaseExchange::new(pairs(), 0);
    assert!(without.handle_usdc_usdt(42).is_none());
}

#[test]
fn hyperliquid_fans_out_every_entry() {
    // P2: one broadcast with N parseable entries yields exactly N events,
    // each with its own symbol and the adapter's source tag.
    let msg = "{\"channel\":\"allMids\",\"data\":{\"mids\":{\"APE\":\"4.33245\",\"ARB\":\"1.21695\",\"BTC\":\"50000\"}}}";
    let ups = HyperliquidExchange::handle_message(msg, 5);
    assert_eq!(ups.len(), 3);
    assert_eq!(ups[0].symbol, "APE");
    assert_eq!(ups[0].price, 433_245_000);
    assert_eq!(ups[1].symbol, "ARB");
    assert_eq!(ups[1].price, 121_695_000);
    assert_eq!(ups[2].symbol, "BTC");
    assert_eq!(ups[2].price, 5_000_000_000_000);
    assert!(ups.iter().all(|u| u.source == "hyperliquid" && u.timestamp == 5));
}

#[test]
fn hyperliquid_skips_unparsable_entries_and_other_channels() {
    let msg = "{\"channel\":\"allMids\",\"data\":{\"mids\":{\"GOOD\":\"1\",\"BAD\":\"x\"}}}";
    let ups = HyperliquidExchange::handle_message(msg, 0);
    assert_eq!(ups.len(), 1);
    assert_eq!(ups[0].symbol, "GOOD");
    let other = "{\"channel\":\"trades\",\"data\":{\"mids\":{\"A\":\"1\"}}}";
    assert!(HyperliquidExchange::handle_message(other, 0).is_empty());
    let sub = HyperliquidExchange::new(vec![], 0);
    assert_eq!(
        sub.create_subscription_message(),
        "{\"method\":\"subscribe\",\"subscription\":{\"type\":\"allMids\"}}"
    );
}

#[test]
fn malformed_json_yields_no_events_for_any_adapter() {
    // P8: malformed input is dropped; the adapter's loop sees an empty
    // batch and simply polls the next frame.
    let junk = "{not json at all";
    assert!(BinanceExchange::handle_message(junk, 0).is_empty());
    assert!(BybitExchange::handle_message(junk, 0).is_empty());
    assert!(CoinbaseExchange::handle_message(junk, 0).is_empty());
    assert!(HyperliquidExchange::handle_message(junk, 0).is_empty());
    // The next, well-formed frame is still processed.
    let good = "{\"s\":\"BTCUSDT\",\"b\":\"1\",\"a\":\"3\"}";
    let ups = BinanceExchange::handle_message(good, 0);
    assert_eq!(ups.len(), 1);
    assert_eq!(ups[0].price, 2 * PRICE_SCALE);
}

#[test]
fn create_exchange_refuses_only_the_unimplemented_one() {
    assert!(create_exchange(Exchange::Binance, pairs(), 0).is_ok());
    assert!(create_exchange(Exchange::Bybit, pairs(), 0).is_ok());
    assert!(create_exchange(Exchange::Coinbase, pairs(), 0).is_ok());
    assert!(create_exchange(Exchange::Hyperliquid, pairs(), 0).is_ok());
    assert!(create_exchange(Exchange::UniswapV2, pairs(), 0).is_err());
}

#[test]
fn dispatch_and_heartbeat() {
    let mut ex = create_exchange(Exchange::Binance, pairs(), 1000).unwrap();
    assert_eq!(ex.get_name(), "binance");
    assert_eq!(ex.get_trading_pairs().len(), 2);
    assert!(ex.init().is_ok());
    assert!(ex.is_healthy(1009));
    assert!(!ex.is_healthy(1010));
    ex.set_heartbeat(2000);
    assert!(ex.is_healthy(2009));
    let ups = ex.handle_message("{\"s\":\"ETHUSDT\",\"b\":\"2999\",\"a\":\"3001\"}", 1);
    assert_eq!(ups.len(), 1);
    assert_eq!(ups[0].price, 3000 * PRICE_SCALE);
    match create_exchange(Exchange::Hyperliquid, pairs(), 0).unwrap() {
        ExchangeImpl::Hyperliquid(_) => {}
        _ => panic!("wrong variant"),
    }
}

#[test]
fn update_heartbeat_uses_the_wall_clock() {
    let mut ex = create_exchange(Exchange::Coinbase, pairs(), 0).unwrap();
    let now = chrono::Utc::now().timestamp().max(0) as u64;
    assert!(!ex.is_healthy(now)); // the heartbeat of zero is long past
    ex.update_heartbeat();
    assert!(ex.is_healthy(chrono::Utc::now().timestamp().max(0) as u64));
}
