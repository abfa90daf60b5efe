//! The combined-stream adapter. All pair symbols are lowercased,
//! concatenated and joined with `/` into one stream URL; each book-ticker
//! message carries the symbol and the best bid and ask as decimal strings,
//! and the adapter emits their exact mid.

use vstd::prelude::*;
use crate::json::{Json, SpecJson, parse_json, spec_parse_json, sp_obj_get, obj_get};
use crate::price::{spec_parse_price, spec_mid, parse_price, mid_price};
use crate::text::{spec_lower_seq, to_lower};
use crate::types::{PriceUpdate, SpecUpdate, TradingPair, updates_view};

verus! {

/// The adapter for the combined-stream exchange.
#[derive(Debug, Clone)]
pub struct BinanceExchange {
    pub trading_pairs: Vec<TradingPair>,
    pub last_heartbeat: u64,
}

impl BinanceExchange {
    /// A fresh adapter over the given pairs, alive as of `now_s`.
    pub fn new(trading_pairs: Vec<TradingPair>, now_s: u64) -> (r: Self)
        ensures
            r.trading_pairs == trading_pairs,
            r.last_heartbeat == now_s,
    {
        BinanceExchange { trading_pairs, last_heartbeat: now_s }
    }

    /// One pair's spelling in the stream path: lowercased base then quote.
    pub open spec fn spec_stream_sym(p: TradingPair) -> Seq<char> {
        spec_lower_seq(p.base@ + p.quote@)
    }

    /// All pair spellings joined with `/`.
    pub open spec fn spec_joined(pairs: Seq<TradingPair>) -> Seq<char>
        decreases pairs.len(),
    {
        if pairs.len() == 0 {
            Seq::empty()
        } else if pairs.len() == 1 {
            Self::spec_stream_sym(pairs[0])
        } else {
            Self::spec_joined(pairs.drop_last()) + seq!['/'] + Self::spec_stream_sym(pairs.last())
        }
    }

    /// The combined stream URL.
    pub open spec fn spec_url(pairs: Seq<TradingPair>) -> Seq<char> {
        "wss://stream.binance.com:9443/ws/"@ + Self::spec_joined(pairs) + "@bookTicker"@
    }

    /// The exact subscription payload.
    pub open spec fn spec_subscription(pairs: Seq<TradingPair>) -> Seq<char> {
        "{\"id\":1,\"method\":\"SUBSCRIBE\",\"params\":[\""@ + Self::spec_joined(pairs)
            + "@bookTicker\"]}"@
    }

    fn joined_symbols(pairs: &Vec<TradingPair>) -> (r: String)
        ensures
            r@ == Self::spec_joined(pairs@),
    {
        let mut out = String::new();
        let mut i: usize = 0;
        while i < pairs.len()
            invariant
                i <= pairs@.len(),
                out@ == Self::spec_joined(pairs@.subrange(0, i as int)),
            decreases pairs@.len() - i,
        {
            if i > 0 {
                out.push('/');
            }
            let sym = pairs[i].to_binance_symbol();
            let low = to_lower(sym.as_str());
            out.append(low.as_str());
            proof {
                let pre = pairs@.subrange(0, i as int);
                let cur = pairs@.subrange(0, i + 1);
                assert(cur.drop_last() =~= pre);
                assert(cur.last() == pairs@[i as int]);
                assert(out@ =~= Self::spec_joined(cur));
            }
            i += 1;
        }
        proof {
            assert(pairs@.subrange(0, pairs@.len() as int) =~= pairs@);
        }
        out
    }

    /// The combined stream URL for the configured pairs.
    pub fn get_websocket_url(&self) -> (r: String)
        ensures
            r@ == Self::spec_url(self.trading_pairs@),
    {
        let mut out = String::new();
        out.append("wss://stream.binance.com:9443/ws/");
        let j = Self::joined_symbols(&self.trading_pairs);
        out.append(j.as_str());
        out.append("@bookTicker");
        proof {
            assert(out@ =~= Self::spec_url(self.trading_pairs@));
        }
        out
    }

    /// The subscription payload for the configured pairs.
    pub fn create_subscription_message(&self) -> (r: String)
        ensures
            r@ == Self::spec_subscription(self.trading_pairs@),
    {
        let mut out = String::new();
        out.append("{\"id\":1,\"method\":\"SUBSCRIBE\",\"params\":[\"");
        let j = Self::joined_symbols(&self.trading_pairs);
        out.append(j.as_str());
        out.append("@bookTicker\"]}");
        proof {
            assert(out@ =~= Self::spec_subscription(self.trading_pairs@));
        }
        out
    }

    /// The events one book-ticker message yields: when the message is an
    /// object whose `s`, `b` and `a` members are strings and both quotes
    /// parse as prices, exactly one event with the exact mid; otherwise
    /// none, and the message is dropped.
    pub open spec fn spec_updates(s: Seq<char>, now_s: u64) -> Seq<SpecUpdate> {
        match spec_parse_json(s) {
            Some(SpecJson::Obj(ms)) => match (
                sp_obj_get(ms, "s"@),
                sp_obj_get(ms, "b"@),
                sp_obj_get(ms, "a"@),
            ) {
                (Some(SpecJson::Str(sym)), Some(SpecJson::Str(b)), Some(SpecJson::Str(a))) => {
                    match (spec_parse_price(b), spec_parse_price(a)) {
                        (Some(bu), Some(au)) => seq![
                            SpecUpdate {
                                symbol: sym,
                                price: spec_mid(bu, au) as u64,
                                timestamp: now_s,
                                source: "binance"@,
                            },
                        ],
                        _ => Seq::empty(),
                    }
                },
                _ => Seq::empty(),
            },
            _ => Seq::empty(),
        }
    }

    /// Turn one inbound message into canonical events.
    pub fn handle_message(text: &str, now_s: u64) -> (r: Vec<PriceUpdate>)
        ensures
            updates_view(r@) == Self::spec_updates(text@, now_s),
    {
        let mut out: Vec<PriceUpdate> = Vec::new();
        match parse_json(text) {
            Some(Json::Obj(ms)) => {
                match (obj_get(&ms, "s"), obj_get(&ms, "b"), obj_get(&ms, "a")) {
                    (Some(Json::Str(sym)), Some(Json::Str(b)), Some(Json::Str(a))) => {
                        match (parse_price(b.as_str()), parse_price(a.as_str())) {
                            (Some(bu), Some(au)) => {
                                let mid = mid_price(bu, au);
                                let mut source = String::new();
                                source.append("binance");
                                out.push(
                                    PriceUpdate {
                                        symbol: sym.clone(),
                                        price: mid,
                                        timestamp: now_s,
                                        source,
                                    },
                                );
                            },
                            _ => (),
                        }
                    },
                    _ => (),
                }
            },
            _ => (),
        }
        proof {
            assert(updates_view(out@) =~= Self::spec_updates(text@, now_s));
        }
        out
    }
}

} // verus!
