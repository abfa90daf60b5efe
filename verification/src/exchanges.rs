//! The per-exchange adapters and their closed dispatch enum. Each adapter
//! knows one exchange's endpoint, subscription payload, wire shape and
//! symbol spelling, and turns one inbound text frame into canonical events.

pub mod binance;
pub mod bybit;
pub mod coinbase;
pub mod hyperliquid;

use vstd::prelude::*;
use crate::transport::TransportError;
use crate::types::{Exchange, PriceUpdate, SpecUpdate, TradingPair, updates_view};

verus! {

/// Why an adapter's listen cycle ended. The channel-closed case is kept
/// apart from transport loss: it means the consumer is gone and is logged
/// distinctly.
#[derive(Debug, Clone, Copy, PartialEq, Eq, Structural)]
pub enum AdapterError {
    /// The connection or the stream failed.
    Transport(TransportError),
    /// The consumer end of the event channel is gone; fatal for the adapter.
    ChannelClosed,
    /// The exchange is declared but has no adapter.
    Unsupported,
}

/// A liveness signal is fresh for this many seconds.
pub const HEARTBEAT_FRESH_S: u64 = 10;

/// The closed set of adapters.
#[derive(Debug, Clone)]
pub enum ExchangeImpl {
    Binance(binance::BinanceExchange),
    Bybit(bybit::BybitExchange),
    Coinbase(coinbase::CoinbaseExchange),
    Hyperliquid(hyperliquid::HyperliquidExchange),
}

/// The events one inbound frame yields for the given adapter.
pub open spec fn spec_exchange_updates(e: ExchangeImpl, s: Seq<char>, now_s: u64) -> Seq<
    SpecUpdate,
> {
    match e {
        ExchangeImpl::Binance(_) => binance::BinanceExchange::spec_updates(s, now_s),
        ExchangeImpl::Bybit(_) => bybit::BybitExchange::spec_updates(s, now_s),
        ExchangeImpl::Coinbase(_) => coinbase::CoinbaseExchange::spec_updates(s, now_s),
        ExchangeImpl::Hyperliquid(_) => hyperliquid::HyperliquidExchange::spec_updates(s, now_s),
    }
}

/// The trading pairs an adapter was configured with.
pub open spec fn spec_exchange_pairs(e: ExchangeImpl) -> Seq<TradingPair> {
    match e {
        ExchangeImpl::Binance(x) => x.trading_pairs@,
        ExchangeImpl::Bybit(x) => x.trading_pairs@,
        ExchangeImpl::Coinbase(x) => x.trading_pairs@,
        ExchangeImpl::Hyperliquid(x) => x.trading_pairs@,
    }
}

/// An adapter's last liveness timestamp.
pub open spec fn spec_exchange_heartbeat(e: ExchangeImpl) -> u64 {
    match e {
        ExchangeImpl::Binance(x) => x.last_heartbeat,
        ExchangeImpl::Bybit(x) => x.last_heartbeat,
        ExchangeImpl::Coinbase(x) => x.last_heartbeat,
        ExchangeImpl::Hyperliquid(x) => x.last_heartbeat,
    }
}

impl ExchangeImpl {
    /// Pre-connection setup; none of the adapters needs any.
    pub fn init(&mut self) -> (r: Result<(), AdapterError>)
        ensures
            r is Ok,
            *final(self) == *old(self),
    {
        Ok(())
    }

    /// The adapter's source tag.
    pub fn get_name(&self) -> (r: &'static str)
        ensures
            r@ == crate::types::spec_exchange_name(self.kind()),
    {
        match self {
            ExchangeImpl::Binance(_) => "binance",
            ExchangeImpl::Bybit(_) => "bybit",
            ExchangeImpl::Coinbase(_) => "coinbase",
            ExchangeImpl::Hyperliquid(_) => "hyperliquid",
        }
    }

    /// Which exchange this adapter serves.
    pub open spec fn kind(&self) -> Exchange {
        match self {
            ExchangeImpl::Binance(_) => Exchange::Binance,
            ExchangeImpl::Bybit(_) => Exchange::Bybit,
            ExchangeImpl::Coinbase(_) => Exchange::Coinbase,
            ExchangeImpl::Hyperliquid(_) => Exchange::Hyperliquid,
        }
    }

    /// The configured pairs, in configuration order.
    pub fn get_trading_pairs(&self) -> (r: &Vec<TradingPair>)
        ensures
            r@ == spec_exchange_pairs(*self),
    {
        match self {
            ExchangeImpl::Binance(x) => &x.trading_pairs,
            ExchangeImpl::Bybit(x) => &x.trading_pairs,
            ExchangeImpl::Coinbase(x) => &x.trading_pairs,
            ExchangeImpl::Hyperliquid(x) => &x.trading_pairs,
        }
    }

    /// True iff a liveness signal was observed within the freshness window.
    pub fn is_healthy(&self, now_s: u64) -> (r: bool)
        ensures
            r == (now_s < spec_exchange_heartbeat(*self) + HEARTBEAT_FRESH_S),
    {
        let last = match self {
            ExchangeImpl::Binance(x) => x.last_heartbeat,
            ExchangeImpl::Bybit(x) => x.last_heartbeat,
            ExchangeImpl::Coinbase(x) => x.last_heartbeat,
            ExchangeImpl::Hyperliquid(x) => x.last_heartbeat,
        };
        now_s <= last || now_s - last < HEARTBEAT_FRESH_S
    }

    /// Record a liveness signal at the given time.
    pub fn set_heartbeat(&mut self, now_s: u64)
        ensures
            spec_exchange_heartbeat(*final(self)) == now_s,
            spec_exchange_pairs(*final(self)) == spec_exchange_pairs(*old(self)),
            final(self).kind() == old(self).kind(),
    {
        match self {
            ExchangeImpl::Binance(x) => x.last_heartbeat = now_s,
            ExchangeImpl::Bybit(x) => x.last_heartbeat = now_s,
            ExchangeImpl::Coinbase(x) => x.last_heartbeat = now_s,
            ExchangeImpl::Hyperliquid(x) => x.last_heartbeat = now_s,
        }
    }

    /// Record a liveness signal at the present wall-clock time.
    pub fn update_heartbeat(&mut self)
        ensures
            spec_exchange_pairs(*final(self)) == spec_exchange_pairs(*old(self)),
            final(self).kind() == old(self).kind(),
    {
        let t = crate::clock::unix_now();
        self.set_heartbeat(t);
    }

    /// The endpoint this adapter connects to.
    pub fn get_websocket_url(&self) -> (r: String)
        ensures
            (match self {
                ExchangeImpl::Binance(x) => r@ == binance::BinanceExchange::spec_url(
                    x.trading_pairs@,
                ),
                ExchangeImpl::Bybit(_) => r@ == "wss://stream.bybit.com/v5/public/spot"@,
                ExchangeImpl::Coinbase(_) => r@ == "wss://ws-feed.exchange.coinbase.com/ws"@,
                ExchangeImpl::Hyperliquid(_) => r@ == "wss://api.hyperliquid.xyz/ws"@,
            }),
    {
        match self {
            ExchangeImpl::Binance(x) => x.get_websocket_url(),
            ExchangeImpl::Bybit(x) => x.get_websocket_url(),
            ExchangeImpl::Coinbase(x) => x.get_websocket_url(),
            ExchangeImpl::Hyperliquid(x) => x.get_websocket_url(),
        }
    }

    /// The exact subscription payload this adapter sends after connecting.
    pub fn create_subscription_message(&self) -> (r: String)
        ensures
            (match self {
                ExchangeImpl::Binance(x) => r@ == binance::BinanceExchange::spec_subscription(
                    x.trading_pairs@,
                ),
                ExchangeImpl::Bybit(x) => r@ == bybit::BybitExchange::spec_subscription(
                    x.trading_pairs@,
                ),
                ExchangeImpl::Coinbase(x) => r@ == coinbase::CoinbaseExchange::spec_subscription(
                    x.trading_pairs@,
                ),
                ExchangeImpl::Hyperliquid(_) => r@
                    == hyperliquid::HyperliquidExchange::spec_subscription(),
            }),
    {
        match self {
            ExchangeImpl::Binance(x) => x.create_subscription_message(),
            ExchangeImpl::Bybit(x) => x.create_subscription_message(),
            ExchangeImpl::Coinbase(x) => x.create_subscription_message(),
            ExchangeImpl::Hyperliquid(x) => x.create_subscription_message(),
        }
    }

    /// The canonical events one inbound text frame yields; an unparsable or
    /// out-of-shape message yields none and is thereby dropped.
    pub fn handle_message(&self, text: &str, now_s: u64) -> (r: Vec<PriceUpdate>)
        ensures
            updates_view(r@) == spec_exchange_updates(*self, text@, now_s),
    {
        match self {
            ExchangeImpl::Binance(_) => binance::BinanceExchange::handle_message(text, now_s),
            ExchangeImpl::Bybit(_) => bybit::BybitExchange::handle_message(text, now_s),
            ExchangeImpl::Coinbase(_) => coinbase::CoinbaseExchange::handle_message(text, now_s),
            ExchangeImpl::Hyperliquid(_) => hyperliquid::HyperliquidExchange::handle_message(
                text,
                now_s,
            ),
        }
    }
}

/// Build the adapter for an exchange. The one declared exchange without an
/// implementation is refused, and only it.
pub fn create_exchange(exchange_type: Exchange, trading_pairs: Vec<TradingPair>, now_s: u64) -> (r:
    Result<ExchangeImpl, AdapterError>)
    ensures
        r is Ok <==> exchange_type != Exchange::UniswapV2,
        r is Err ==> r == Err::<ExchangeImpl, AdapterError>(AdapterError::Unsupported),
        r matches Ok(e) ==> e.kind() == exchange_type && spec_exchange_pairs(e)
            == trading_pairs@ && spec_exchange_heartbeat(e) == now_s,
{
    match exchange_type {
        Exchange::Binance => Ok(
            ExchangeImpl::Binance(binance::BinanceExchange::new(trading_pairs, now_s)),
        ),
        Exchange::Bybit => Ok(ExchangeImpl::Bybit(bybit::BybitExchange::new(trading_pairs, now_s))),
        Exchange::Coinbase => Ok(
            ExchangeImpl::Coinbase(coinbase::CoinbaseExchange::new(trading_pairs, now_s)),
        ),
        Exchange::Hyperliquid => Ok(
            ExchangeImpl::Hyperliquid(hyperliquid::HyperliquidExchange::new(trading_pairs, now_s)),
        ),
        Exchange::UniswapV2 => Err(AdapterError::Unsupported),
    }
}


/// A message outside the JSON subset yields no events for any adapter: the
/// frame is dropped and the listen loop simply goes on to the next one;
/// malformed input never ends an adapter.
pub proof fn lemma_malformed_dropped(e: ExchangeImpl, s: Seq<char>, now_s: u64)
    requires
        crate::json::spec_parse_json(s) is None,
    ensures
        spec_exchange_updates(e, s, now_s) == Seq::<SpecUpdate>::empty(),
{
}

} // verus!