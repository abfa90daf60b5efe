//! The depth-snapshot adapter. All pairs share one endpoint and are
//! subscribed as depth-1 order-book topics; each snapshot carries the best
//! bid and ask rows, and the emitted symbol is the topic with its known
//! prefix removed. Snapshots with an empty bid or ask side are dropped.

use vstd::prelude::*;
use crate::json::{
    Json, SpecJson, parse_json, spec_parse_json, sp_obj_get, obj_get, lemma_view_list_index,
};
use crate::price::{spec_parse_price, spec_mid, parse_price, mid_price};
use crate::text::str_eq_str;
use crate::types::{PriceUpdate, SpecUpdate, TradingPair, updates_view};

verus! {

/// The adapter for the depth-snapshot exchange.
#[derive(Debug, Clone)]
pub struct BybitExchange {
    pub trading_pairs: Vec<TradingPair>,
    pub last_heartbeat: u64,
}

/// The topic prefix under which depth-1 snapshots arrive.
pub open spec fn spec_topic_prefix() -> Seq<char> {
    "orderbook.1."@
}

/// The emitted symbol: the topic with the known prefix removed, or the topic
/// itself when the prefix is absent.
pub open spec fn spec_topic_symbol(topic: Seq<char>) -> Seq<char> {
    if topic.len() >= 12 && topic.subrange(0, 12) == spec_topic_prefix() {
        topic.skip(12)
    } else {
        topic
    }
}

fn topic_symbol(topic: &str) -> (r: String)
    ensures
        r@ == spec_topic_symbol(topic@),
{
    let n = topic.unicode_len();
    if n >= 12 && str_eq_str(topic.substring_char(0, 12), "orderbook.1.") {
        let tail = topic.substring_char(12, n).to_owned();
        proof {
            assert(tail@ =~= topic@.skip(12));
        }
        tail
    } else {
        topic.to_owned()
    }
}

impl BybitExchange {
    /// A fresh adapter over the given pairs, alive as of `now_s`.
    pub fn new(trading_pairs: Vec<TradingPair>, now_s: u64) -> (r: Self)
        ensures
            r.trading_pairs == trading_pairs,
            r.last_heartbeat == now_s,
    {
        BybitExchange { trading_pairs, last_heartbeat: now_s }
    }

    /// The shared endpoint.
    pub fn get_websocket_url(&self) -> (r: String)
        ensures
            r@ == "wss://stream.bybit.com/v5/public/spot"@,
    {
        let mut out = String::new();
        out.append("wss://stream.bybit.com/v5/public/spot");
        proof {
            assert(out@ =~= "wss://stream.bybit.com/v5/public/spot"@);
        }
        out
    }

    /// One quoted topic argument: `"orderbook.1.BASEQUOTE"`.
    pub open spec fn spec_arg(p: TradingPair) -> Seq<char> {
        seq!['"'] + spec_topic_prefix() + p.base@ + p.quote@ + seq!['"']
    }

    /// All quoted topics joined with commas.
    pub open spec fn spec_joined(pairs: Seq<TradingPair>) -> Seq<char>
        decreases pairs.len(),
    {
        if pairs.len() == 0 {
            Seq::empty()
        } else if pairs.len() == 1 {
            Self::spec_arg(pairs[0])
        } else {
            Self::spec_joined(pairs.drop_last()) + seq![','] + Self::spec_arg(pairs.last())
        }
    }

    /// The exact subscription payload.
    pub open spec fn spec_subscription(pairs: Seq<TradingPair>) -> Seq<char> {
        "{\"args\":["@ + Self::spec_joined(pairs) + "],\"op\":\"subscribe\"}"@
    }

    fn joined_args(pairs: &Vec<TradingPair>) -> (r: String)
        ensures
            r@ == Self::spec_joined(pairs@),
    {
        let mut out = String::new();
        let mut i: usize = 0;
        while i < pairs.len()
            invariant
                i <= pairs@.len(),
                out@ == Self::spec_joined(pairs@.subrange(0, i as int)),
            decreases pairs@.len() - i,
        {
            if i > 0 {
                out.push(',');
            }
            out.push('"');
            out.append("orderbook.1.");
            let sym = pairs[i].to_bybit_symbol();
            out.append(sym.as_str());
            out.push('"');
            proof {
                let pre = pairs@.subrange(0, i as int);
                let cur = pairs@.subrange(0, i + 1);
                assert(cur.drop_last() =~= pre);
                assert(cur.last() == pairs@[i as int]);
                assert(out@ =~= Self::spec_joined(cur));
            }
            i += 1;
        }
        proof {
            assert(pairs@.subrange(0, pairs@.len() as int) =~= pairs@);
        }
        out
    }

    /// The subscription payload for the configured pairs.
    pub fn create_subscription_message(&self) -> (r: String)
        ensures
            r@ == Self::spec_subscription(self.trading_pairs@),
    {
        let mut out = String::new();
        out.append("{\"args\":[");
        let j = Self::joined_args(&self.trading_pairs);
        out.append(j.as_str());
        out.append("],\"op\":\"subscribe\"}");
        proof {
            assert(out@ =~= Self::spec_subscription(self.trading_pairs@));
        }
        out
    }

    /// The events one depth snapshot yields: the message must be an object
    /// with a string `topic` and an object `data` whose `b` and `a` members
    /// are arrays; the first row of each side must itself be an array whose
    /// first cell is a parseable price string. The event carries the exact
    /// mid of the two. Everything else yields nothing — in particular a
    /// snapshot whose bid or ask side is empty.
    pub open spec fn spec_updates(s: Seq<char>, now_s: u64) -> Seq<SpecUpdate> {
        match spec_parse_json(s) {
            Some(SpecJson::Obj(ms)) => match (sp_obj_get(ms, "topic"@), sp_obj_get(ms, "data"@)) {
                (Some(SpecJson::Str(topic)), Some(SpecJson::Obj(dm))) => {
                    match (sp_obj_get(dm, "b"@), sp_obj_get(dm, "a"@)) {
                        (Some(SpecJson::Arr(bids)), Some(SpecJson::Arr(asks))) => {
                            if bids.len() > 0 && asks.len() > 0 {
                                match (bids[0], asks[0]) {
                                    (SpecJson::Arr(brow), SpecJson::Arr(arow)) => {
                                        if brow.len() > 0 && arow.len() > 0 {
                                            match (brow[0], arow[0]) {
                                                (SpecJson::Str(bs), SpecJson::Str(a_s)) => {
                                                    match (
                                                        spec_parse_price(bs),
                                                        spec_parse_price(a_s),
                                                    ) {
                                                        (Some(bu), Some(au)) => seq![
                                                            SpecUpdate {
                                                                symbol: spec_topic_symbol(topic),
                                                                price: spec_mid(bu, au) as u64,
                                                                timestamp: now_s,
                                                                source: "bybit"@,
                                                            },
                                                        ],
                                                        _ => Seq::empty(),
                                                    }
                                                },
                                                _ => Seq::empty(),
                                            }
                                        } else {
                                            Seq::empty()
                                        }
                                    },
                                    _ => Seq::empty(),
                                }
                            } else {
                                Seq::empty()
                            }
                        },
                        _ => Seq::empty(),
                    }
                },
                _ => Seq::empty(),
            },
            _ => Seq::empty(),
        }
    }

    /// Turn one inbound message into canonical events.
    pub fn handle_message(text: &str, now_s: u64) -> (r: Vec<PriceUpdate>)
        ensures
            updates_view(r@) == Self::spec_updates(text@, now_s),
    {
        let mut out: Vec<PriceUpdate> = Vec::new();
        match parse_json(text) {
            Some(Json::Obj(ms)) => {
                match (obj_get(&ms, "topic"), obj_get(&ms, "data")) {
                    (Some(Json::Str(topic)), Some(Json::Obj(dm))) => {
                        match (obj_get(dm, "b"), obj_get(dm, "a")) {
                            (Some(Json::Arr(bids)), Some(Json::Arr(asks))) => {
                                proof {
                                    lemma_view_list_index(bids@);
                                    lemma_view_list_index(asks@);
                                }
                                if bids.len() > 0 && asks.len() > 0 {
                                    match (&bids[0], &asks[0]) {
                                        (Json::Arr(brow), Json::Arr(arow)) => {
                                            proof {
                                                lemma_view_list_index(brow@);
                                                lemma_view_list_index(arow@);
                                            }
                                            if brow.len() > 0 && arow.len() > 0 {
                                                match (&brow[0], &arow[0]) {
                                                    (Json::Str(bs), Json::Str(a_s)) => {
                                                        match (
                                                            parse_price(bs.as_str()),
                                                            parse_price(a_s.as_str()),
                                                        ) {
                                                            (Some(bu), Some(au)) => {
                                                                let mid = mid_price(bu, au);
                                                                let symbol = topic_symbol(
                                                                    topic.as_str(),
                                                                );
                                                                let mut source = String::new();
                                                                source.append("bybit");
                                                                out.push(
                                                                    PriceUpdate {
                                                                        symbol,
                                                                        price: mid,
                                                                        timestamp: now_s,
                                                                        source,
                                                                    },
                                                                );
                                                            },
                                                            _ => (),
                                                        }
                                                    },
                                                    _ => (),
                                                }
                                            }
                                        },
                                        _ => (),
                                    }
                                }
                            },
                            _ => (),
                        }
                    },
                    _ => (),
                }
            },
            _ => (),
        }
        proof {
            assert(updates_view(out@) =~= Self::spec_updates(text@, now_s));
        }
        out
    }
}

} // verus!
