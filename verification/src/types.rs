//! The canonical model: exchange identities, trading pairs, and the one
//! price-update event that every adapter emits and the engine consumes.

use vstd::prelude::*;
use crate::text::{spec_upper_seq, to_upper};

verus! {

/// The configured exchanges. One of them is declared but has no adapter yet.
#[derive(Debug, Clone, Copy, PartialEq, Eq, Structural)]
pub enum Exchange {
    Binance,
    Bybit,
    Coinbase,
    Hyperliquid,
    UniswapV2,
}

/// The tag under which each exchange appears in health entries and events.
pub open spec fn spec_exchange_name(e: Exchange) -> Seq<char> {
    match e {
        Exchange::Binance => "binance"@,
        Exchange::Bybit => "bybit"@,
        Exchange::Coinbase => "coinbase"@,
        Exchange::Hyperliquid => "hyperliquid"@,
        Exchange::UniswapV2 => "univ2"@,
    }
}

impl Exchange {
    /// The exchange's name tag.
    pub fn as_str(&self) -> (r: &'static str)
        ensures
            r@ == spec_exchange_name(*self),
    {
        match self {
            Exchange::Binance => "binance",
            Exchange::Bybit => "bybit",
            Exchange::Coinbase => "coinbase",
            Exchange::Hyperliquid => "hyperliquid",
            Exchange::UniswapV2 => "univ2",
        }
    }
}

/// A trading pair; both legs are stored in ASCII uppercase.
#[derive(Debug, Clone, Hash, Eq, PartialEq)]
pub struct TradingPair {
    pub base: String,
    pub quote: String,
}

impl TradingPair {
    /// A pair with both legs mapped to ASCII uppercase.
    pub fn new(base: &str, quote: &str) -> (r: Self)
        ensures
            r.base@ == spec_upper_seq(base@),
            r.quote@ == spec_upper_seq(quote@),
    {
        TradingPair { base: to_upper(base), quote: to_upper(quote) }
    }

    /// The concatenated spelling used by the combined-stream exchange.
    pub fn to_binance_symbol(&self) -> (r: String)
        ensures
            r@ == self.base@ + self.quote@,
    {
        let mut s = self.base.clone();
        s.append(self.quote.as_str());
        s
    }

    /// The concatenated spelling used by the depth-snapshot exchange.
    pub fn to_bybit_symbol(&self) -> (r: String)
        ensures
            r@ == self.base@ + self.quote@,
    {
        let mut s = self.base.clone();
        s.append(self.quote.as_str());
        s
    }

    /// The hyphen-joined spelling used by the ticker-channel exchange.
    pub fn to_coinbase_symbol(&self) -> (r: String)
        ensures
            r@ == self.base@ + seq!['-'] + self.quote@,
    {
        let mut s = self.base.clone();
        s.push('-');
        s.append(self.quote.as_str());
        proof {
            assert(s@ =~= self.base@ + seq!['-'] + self.quote@);
        }
        s
    }

    /// The cache key under which this pair's price would be kept.
    pub fn to_redis_key(&self) -> (r: String)
        ensures
            r@ == "price:"@ + self.base@ + seq![':'] + self.quote@,
    {
        let mut s = String::new();
        s.append("price:");
        s.append(self.base.as_str());
        s.push(':');
        s.append(self.quote.as_str());
        proof {
            assert(s@ =~= "price:"@ + self.base@ + seq![':'] + self.quote@);
        }
        s
    }
}

/// The mathematical shape of a canonical event.
pub ghost struct SpecUpdate {
    pub symbol: Seq<char>,
    pub price: u64,
    pub timestamp: u64,
    pub source: Seq<char>,
}

/// The canonical event: one accepted tick, with the exchange-native symbol
/// spelling, a fixed-point price, a unix-seconds timestamp and a source tag.
#[derive(Debug, Clone)]
pub struct PriceUpdate {
    pub symbol: String,
    pub price: u64,
    pub timestamp: u64,
    pub source: String,
}

impl View for PriceUpdate {
    type V = SpecUpdate;

    open spec fn view(&self) -> SpecUpdate {
        SpecUpdate {
            symbol: self.symbol@,
            price: self.price,
            timestamp: self.timestamp,
            source: self.source@,
        }
    }
}

/// The abstraction of a whole batch of events.
pub open spec fn updates_view(s: Seq<PriceUpdate>) -> Seq<SpecUpdate> {
    s.map_values(|u: PriceUpdate| u.view())
}

} // verus!
