//! The model, the fixed-point price arithmetic, the JSON subset parser and
//! the transport read rules, on concrete values.

use pricefeed::json::{parse_json, Json};
use pricefeed::price::{
    format_price, format_price_8dp, mid_price, parse_price, MAX_PRICE_UNITS, PRICE_SCALE,
};
use pricefeed::transport::{probe_step, read_step, Frame, PollResult, ReadStep, TransportError};
use pricefeed::types::{Exchange, TradingPair};

#[test]
fn trading_pair_uppercases_on_construction() {
    let p = TradingPair::new("btc", "usdt");
    assert_eq!(p.base, "BTC");
    assert_eq!(p.quote, "USDT");
}

#[test]
fn trading_pair_symbols() {
    let p = TradingPair::new("BTC", "USDT");
    assert_eq!(p.to_binance_symbol(), "BTCUSDT");
    assert_eq!(p.to_bybit_symbol(), "BTCUSDT");
    assert_eq!(p.to_coinbase_symbol(), "BTC-USDT");
    assert_eq!(p.to_redis_key(), "price:BTC:USDT");
}

#[test]
fn exchange_names() {
    assert_eq!(Exchange::Binance.as_str(), "binance");
    assert_eq!(Exchange::Bybit.as_str(), "bybit");
    assert_eq!(Exchange::Coinbase.as_str(), "coinbase");
    assert_eq!(Exchange::Hyperliquid.as_str(), "hyperliquid");
    assert_eq!(Exchange::UniswapV2.as_str(), "univ2");
}

#[test]
fn parse_price_plain_and_fractional() {
    assert_eq!(parse_price("50000"), Some(50_000 * PRICE_SCALE));
    assert_eq!(parse_price("0.5"), Some(50_000_000));
    assert_eq!(parse_price("1"), Some(PRICE_SCALE));
    assert_eq!(parse_price("0.00000001"), Some(1));
    assert_eq!(parse_price("25.35190000"), Some(2_535_190_000));
}

#[test]
fn parse_price_rejections() {
    assert_eq!(parse_price(""), None);
    assert_eq!(parse_price("-5"), None);
    assert_eq!(parse_price("1.2.3"), None);
    assert_eq!(parse_price("5e4"), None);
    assert_eq!(parse_price("abc"), None);
    assert_eq!(parse_price("1."), None);
    assert_eq!(parse_price(".5"), None);
    assert_eq!(parse_price("1.123456789"), None); // nine fractional digits
    assert_eq!(parse_price("123456789012"), None); // integral part too large
    assert_eq!(parse_price("10000000000"), Some(10_000_000_000 * PRICE_SCALE));
}

#[test]
fn mid_price_is_exact() {
    let b = parse_price("50000").unwrap();
    let a = parse_price("50001").unwrap();
    let m = mid_price(b, a);
    assert_eq!(m, 5_000_050_000_000);
    // P1 at floating-point level: the derived mid equals (bid + ask) / 2.
    let got = m as f64 / PRICE_SCALE as f64;
    let want = (50000.0_f64 + 50001.0_f64) / 2.0;
    assert!((got - want).abs() < 1e-9);
    assert!(b <= MAX_PRICE_UNITS && a <= MAX_PRICE_UNITS);
}

#[test]
fn format_price_trims_trailing_zeros() {
    assert_eq!(format_price(5_000_000_000_000), "50000");
    assert_eq!(format_price(5_000_050_000_000), "50000.5");
    assert_eq!(format_price(PRICE_SCALE), "1");
    assert_eq!(format_price(1), "0.00000001");
    assert_eq!(format_price(0), "0");
}

#[test]
fn format_price_8dp_is_fixed_width() {
    assert_eq!(format_price_8dp(5_000_000_000_000), "50000.00000000");
    assert_eq!(format_price_8dp(5_000_050_000_000), "50000.50000000");
    assert_eq!(format_price_8dp(1), "0.00000001");
}

#[test]
fn parse_json_accepts_the_subset() {
    match parse_json("{\"a\":1,\"b\":[\"x\",true,null],\"c\":{\"d\":\"e\"}}") {
        Some(Json::Obj(ms)) => {
            assert_eq!(ms.len(), 3);
            assert_eq!(ms[0].0, "a");
            match &ms[1].1 {
                Json::Arr(vs) => assert_eq!(vs.len(), 3),
                _ => panic!("expected array"),
            }
        }
        _ => panic!("expected object"),
    }
    match parse_json(" \"hello\" ") {
        Some(Json::Str(s)) => assert_eq!(s, "hello"),
        _ => panic!("expected string"),
    }
    match parse_json("-12.75") {
        Some(Json::Num(s)) => assert_eq!(s, "-12.75"),
        _ => panic!("expected number"),
    }
}

#[test]
fn parse_json_rejects_malformed_input() {
    assert!(parse_json("").is_none());
    assert!(parse_json("{").is_none());
    assert!(parse_json("{\"a\":}").is_none());
    assert!(parse_json("[1,]").is_none());
    assert!(parse_json("{\"a\":1} trailing").is_none());
    assert!(parse_json("\"esc\\nape\"").is_none()); // escapes are outside the subset
}

#[test]
fn read_step_rules() {
    match read_step(PollResult::Frame(Frame::Text("tick".to_string()))) {
        ReadStep::Data(t) => assert_eq!(t, "tick"),
        _ => panic!("text must be delivered"),
    }
    match read_step(PollResult::Frame(Frame::Ping(vec![1, 2]))) {
        ReadStep::PongReply(d) => assert_eq!(d, vec![1, 2]),
        _ => panic!("a ping must be answered"),
    }
    assert!(matches!(read_step(PollResult::Frame(Frame::Pong(vec![]))), ReadStep::NoData));
    assert!(matches!(
        read_step(PollResult::Frame(Frame::Close)),
        ReadStep::Fail(TransportError::Closed)
    ));
    assert!(matches!(read_step(PollResult::ProtocolError), ReadStep::NoData));
    assert!(matches!(
        read_step(PollResult::FatalError),
        ReadStep::Fail(TransportError::ReadFailed)
    ));
    assert!(matches!(
        read_step(PollResult::StreamEnded),
        ReadStep::Fail(TransportError::StreamEnded)
    ));
}

#[test]
fn probe_round_trip() {
    // P7: an idle window asks for exactly one probe; a liveness response
    // within the probe window means "no data, poll again"; anything else is
    // a timeout error.
    assert!(matches!(read_step(PollResult::TimedOut), ReadStep::SendProbe));
    assert!(matches!(probe_step(PollResult::Frame(Frame::Pong(vec![]))), ReadStep::NoData));
    assert!(matches!(
        probe_step(PollResult::TimedOut),
        ReadStep::Fail(TransportError::ProbeTimeout)
    ));
    assert!(matches!(
        probe_step(PollResult::Frame(Frame::Text("x".to_string()))),
        ReadStep::Fail(TransportError::ProbeTimeout)
    ));
}
