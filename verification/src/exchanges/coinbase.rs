//! The ticker-channel adapter. Pairs are spelled `BASE-QUOTE`; each ticker
//! message carries best bid and ask as decimal strings, and the emitted
//! symbol is the product id with its hyphens removed. A configured
//! stablecoin pair additionally yields one synthetic fixed-price event at
//! the start of every listen cycle, before the connection is opened.

use vstd::prelude::*;
use crate::json::{Json, SpecJson, parse_json, spec_parse_json, sp_obj_get, obj_get};
use crate::price::{PRICE_SCALE, spec_parse_price, spec_mid, parse_price, mid_price};
use crate::text::{spec_upper_seq, eq_ignore_case};
use crate::types::{PriceUpdate, SpecUpdate, TradingPair, updates_view};

verus! {

/// The adapter for the ticker-channel exchange.
#[derive(Debug, Clone)]
pub struct CoinbaseExchange {
    pub trading_pairs: Vec<TradingPair>,
    pub last_heartbeat: u64,
}

/// A sequence with every hyphen removed.
pub open spec fn spec_strip_dash(s: Seq<char>) -> Seq<char>
    decreases s.len(),
{
    if s.len() == 0 {
        Seq::empty()
    } else if s.last() == '-' {
        spec_strip_dash(s.drop_last())
    } else {
        spec_strip_dash(s.drop_last()).push(s.last())
    }
}

/// A new string with every hyphen removed.
fn strip_dashes(s: &str) -> (r: String)
    ensures
        r@ == spec_strip_dash(s@),
{
    let n = s.unicode_len();
    let mut out = String::new();
    let mut i: usize = 0;
    while i < n
        invariant
            n == s@.len(),
            i <= n,
            out@ == spec_strip_dash(s@.subrange(0, i as int)),
        decreases n - i,
    {
        let c = s.get_char(i);
        if c != '-' {
            out.push(c);
        }
        proof {
            assert(s@.subrange(0, i + 1).drop_last() =~= s@.subrange(0, i as int));
            assert(s@.subrange(0, i + 1).last() == s@[i as int]);
        }
        i += 1;
    }
    proof {
        assert(s@.subrange(0, n as int) =~= s@);
    }
    out
}

impl CoinbaseExchange {
    /// A fresh adapter over the given pairs, alive as of `now_s`.
    pub fn new(trading_pairs: Vec<TradingPair>, now_s: u64) -> (r: Self)
        ensures
            r.trading_pairs == trading_pairs,
            r.last_heartbeat == now_s,
    {
        CoinbaseExchange { trading_pairs, last_heartbeat: now_s }
    }

    /// The shared endpoint.
    pub fn get_websocket_url(&self) -> (r: String)
        ensures
            r@ == "wss://ws-feed.exchange.coinbase.com/ws"@,
    {
        let mut out = String::new();
        out.append("wss://ws-feed.exchange.coinbase.com/ws");
        proof {
            assert(out@ =~= "wss://ws-feed.exchange.coinbase.com/ws"@);
        }
        out
    }

    /// One quoted product id: `"BASE-QUOTE"`.
    pub open spec fn spec_product_id(p: TradingPair) -> Seq<char> {
        seq!['"'] + p.base@ + seq!['-'] + p.quote@ + seq!['"']
    }

    /// All quoted product ids joined with commas.
    pub open spec fn spec_joined(pairs: Seq<TradingPair>) -> Seq<char>
        decreases pairs.len(),
    {
        if pairs.len() == 0 {
            Seq::empty()
        } else if pairs.len() == 1 {
            Self::spec_product_id(pairs[0])
        } else {
            Self::spec_joined(pairs.drop_last()) + seq![','] + Self::spec_product_id(pairs.last())
        }
    }

    /// The exact subscription payload.
    pub open spec fn spec_subscription(pairs: Seq<TradingPair>) -> Seq<char> {
        "{\"channels\":[\"ticker\"],\"product_ids\":["@ + Self::spec_joined(pairs)
            + "],\"type\":\"subscribe\"}"@
    }

    fn joined_ids(pairs: &Vec<TradingPair>) -> (r: String)
        ensures
            r@ == Self::spec_joined(pairs@),
    {
        let mut out = String::new();
        let mut i: usize = 0;
        while i < pairs.len()
            invariant
                i <= pairs@.len(),
                out@ == Self::spec_joined(pairs@.subrange(0, i as int)),
            decreases pairs@.len() - i,
        {
            if i > 0 {
                out.push(',');
            }
            out.push('"');
            let sym = pairs[i].to_coinbase_symbol();
            out.append(sym.as_str());
            out.push('"');
            proof {
                let pre = pairs@.subrange(0, i as int);
                let cur = pairs@.subrange(0, i + 1);
                assert(cur.drop_last() =~= pre);
                assert(cur.last() == pairs@[i as int]);
                assert(out@ =~= Self::spec_joined(cur));
            }
            i += 1;
        }
        proof {
            assert(pairs@.subrange(0, pairs@.len() as int) =~= pairs@);
        }
        out
    }

    /// The subscription payload for the configured pairs.
    pub fn create_subscription_message(&self) -> (r: String)
        ensures
            r@ == Self::spec_subscription(self.trading_pairs@),
    {
        let mut out = String::new();
        out.append("{\"channels\":[\"ticker\"],\"product_ids\":[");
        let j = Self::joined_ids(&self.trading_pairs);
        out.append(j.as_str());
        out.append("],\"type\":\"subscribe\"}");
        proof {
            assert(out@ =~= Self::spec_subscription(self.trading_pairs@));
        }
        out
    }

    /// The pair that triggers the synthetic event: a 1:1-pegged stablecoin
    /// pair, matched without regard to letter case.
    pub open spec fn spec_is_stable_pair(p: TradingPair) -> bool {
        spec_upper_seq(p.base@) == "USDC"@ && spec_upper_seq(p.quote@) == "USDT"@
    }

    /// The synthetic event: present exactly when some configured pair is the
    /// stablecoin pair, with price exactly one whole unit.
    pub open spec fn spec_synthetic(pairs: Seq<TradingPair>, now_s: u64) -> Option<SpecUpdate> {
        if exists|i: int| 0 <= i < pairs.len() && Self::spec_is_stable_pair(#[trigger] pairs[i]) {
            Some(
                SpecUpdate {
                    symbol: "USDCUSDT"@,
                    price: PRICE_SCALE,
                    timestamp: now_s,
                    source: "coinbase"@,
                },
            )
        } else {
            None
        }
    }

    /// The synthetic stablecoin event, emitted once per listen cycle before
    /// the connection is opened; sent without blocking and dropped when the
    /// channel is full.
    pub fn handle_usdc_usdt(&self, now_s: u64) -> (r: Option<PriceUpdate>)
        ensures
            (match r {
                Some(u) => Self::spec_synthetic(self.trading_pairs@, now_s) == Some(u@),
                None => Self::spec_synthetic(self.trading_pairs@, now_s) is None,
            }),
    {
        let pairs = &self.trading_pairs;
        let mut i: usize = 0;
        while i < pairs.len()
            invariant
                pairs@ == self.trading_pairs@,
                i <= pairs@.len(),
                forall|k: int| 0 <= k < i ==> !Self::spec_is_stable_pair(#[trigger] pairs@[k]),
            decreases pairs@.len() - i,
        {
            let base_ok = eq_ignore_case(pairs[i].base.as_str(), "USDC");
            let quote_ok = eq_ignore_case(pairs[i].quote.as_str(), "USDT");
            if base_ok && quote_ok {
                proof {
                    reveal_strlit("USDC");
                    reveal_strlit("USDT");
                    assert(spec_upper_seq("USDC"@) =~= "USDC"@);
                    assert(spec_upper_seq("USDT"@) =~= "USDT"@);
                    let w = i as int;
                    assert(0 <= w < self.trading_pairs@.len());
                    assert(Self::spec_is_stable_pair(self.trading_pairs@[w]));
                    assert(exists|k: int|
                        0 <= k < self.trading_pairs@.len() && Self::spec_is_stable_pair(
                            #[trigger] self.trading_pairs@[k],
                        ));
                }
                let mut symbol = String::new();
                symbol.append("USDCUSDT");
                let mut source = String::new();
                source.append("coinbase");
                proof {
                    assert(symbol@ =~= "USDCUSDT"@);
                    assert(source@ =~= "coinbase"@);
                }
                let u = PriceUpdate { symbol, price: PRICE_SCALE, timestamp: now_s, source };
                return Some(u);
            }
            proof {
                reveal_strlit("USDC");
                reveal_strlit("USDT");
                assert(spec_upper_seq("USDC"@) =~= "USDC"@);
                assert(spec_upper_seq("USDT"@) =~= "USDT"@);
            }
            i += 1;
        }
        None
    }

    /// The events one ticker message yields: when the message is an object
    /// whose `product_id`, `best_bid` and `best_ask` members are strings and
    /// both quotes parse as prices, exactly one event with the exact mid and
    /// the de-hyphenated product id as symbol; otherwise none.
    pub open spec fn spec_updates(s: Seq<char>, now_s: u64) -> Seq<SpecUpdate> {
        match spec_parse_json(s) {
            Some(SpecJson::Obj(ms)) => match (
                sp_obj_get(ms, "product_id"@),
                sp_obj_get(ms, "best_bid"@),
                sp_obj_get(ms, "best_ask"@),
            ) {
                (Some(SpecJson::Str(pid)), Some(SpecJson::Str(b)), Some(SpecJson::Str(a))) => {
                    match (spec_parse_price(b), spec_parse_price(a)) {
                        (Some(bu), Some(au)) => seq![
                            SpecUpdate {
                                symbol: spec_strip_dash(pid),
                                price: spec_mid(bu, au) as u64,
                                timestamp: now_s,
                                source: "coinbase"@,
                            },
                        ],
                        _ => Seq::empty(),
                    }
                },
                _ => Seq::empty(),
            },
            _ => Seq::empty(),
        }
    }

    /// Turn one inbound message into canonical events.
    pub fn handle_message(text: &str, now_s: u64) -> (r: Vec<PriceUpdate>)
        ensures
            updates_view(r@) == Self::spec_updates(text@, now_s),
    {
        let mut out: Vec<PriceUpdate> = Vec::new();
        match parse_json(text) {
            Some(Json::Obj(ms)) => {
                match (obj_get(&ms, "product_id"), obj_get(&ms, "best_bid"), obj_get(
                    &ms,
                    "best_ask",
                )) {
                    (Some(Json::Str(pid)), Some(Json::Str(b)), Some(Json::Str(a))) => {
                        match (parse_price(b.as_str()), parse_price(a.as_str())) {
                            (Some(bu), Some(au)) => {
                                let mid = mid_price(bu, au);
                                let symbol = strip_dashes(pid.as_str());
                                let mut source = String::new();
                                source.append("coinbase");
                                out.push(
                                    PriceUpdate { symbol, price: mid, timestamp: now_s, source },
                                );
                            },
                            _ => (),
                        }
                    },
                    _ => (),
                }
            },
            _ => (),
        }
        proof {
            assert(updates_view(out@) =~= Self::spec_updates(text@, now_s));
        }
        out
    }
}

} // verus!
