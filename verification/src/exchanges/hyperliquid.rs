//! The mids-broadcast adapter. One subscription covers every symbol; each
//! broadcast carries a map from symbol to mid-price string, and every entry
//! with a parseable price fans out into its own canonical event.

use vstd::prelude::*;
use crate::json::{
    Json, SpecJson, parse_json, spec_parse_json, sp_obj_get, obj_get, lemma_view_members_index,
};
use crate::price::{spec_parse_price, parse_price};
use crate::text::str_eq_str;
use crate::types::{PriceUpdate, SpecUpdate, TradingPair, updates_view};

verus! {

/// The adapter for the mids-broadcast exchange.
#[derive(Debug, Clone)]
pub struct HyperliquidExchange {
    pub trading_pairs: Vec<TradingPair>,
    pub last_heartbeat: u64,
}

/// The string payload of a string node; the empty sequence elsewhere.
pub open spec fn spec_str_content(j: SpecJson) -> Seq<char> {
    match j {
        SpecJson::Str(s) => s,
        _ => Seq::empty(),
    }
}

/// The events one `(symbol, price)` entry of a broadcast yields: one event
/// when the value is a parseable price string, none otherwise.
pub open spec fn spec_mid_entry(kv: (Seq<char>, SpecJson), now_s: u64) -> Seq<SpecUpdate> {
    match kv.1 {
        SpecJson::Str(v) => match spec_parse_price(v) {
            Some(p) => seq![
                SpecUpdate { symbol: kv.0, price: p, timestamp: now_s, source: "hyperliquid"@ },
            ],
            None => Seq::empty(),
        },
        _ => Seq::empty(),
    }
}

/// The events a whole broadcast map yields, in document order.
pub open spec fn spec_mids_updates(mids: Seq<(Seq<char>, SpecJson)>, now_s: u64) -> Seq<SpecUpdate>
    decreases mids.len(),
{
    if mids.len() == 0 {
        Seq::empty()
    } else {
        spec_mids_updates(mids.drop_last(), now_s) + spec_mid_entry(mids.last(), now_s)
    }
}

/// An entry whose value is a parseable price string.
pub open spec fn spec_is_price_entry(kv: (Seq<char>, SpecJson)) -> bool {
    kv.1 is Str && spec_parse_price(spec_str_content(kv.1)) is Some
}

/// One broadcast holding only parseable entries fans out into exactly one
/// event per entry, each with that entry's own symbol, the adapter's source
/// tag, and the shared timestamp.
pub proof fn lemma_broadcast_fanout(mids: Seq<(Seq<char>, SpecJson)>, now_s: u64)
    requires
        forall|i: int| 0 <= i < mids.len() ==> spec_is_price_entry(#[trigger] mids[i]),
    ensures
        spec_mids_updates(mids, now_s).len() == mids.len(),
        forall|i: int|
            0 <= i < mids.len() ==> {
                let u = #[trigger] spec_mids_updates(mids, now_s)[i];
                u.symbol == mids[i].0 && u.source == "hyperliquid"@ && u.timestamp == now_s
            },
    decreases mids.len(),
{
    if mids.len() > 0 {
        lemma_broadcast_fanout(mids.drop_last(), now_s);
    }
}

impl HyperliquidExchange {
    /// A fresh adapter over the given pairs, alive as of `now_s`.
    pub fn new(trading_pairs: Vec<TradingPair>, now_s: u64) -> (r: Self)
        ensures
            r.trading_pairs == trading_pairs,
            r.last_heartbeat == now_s,
    {
        HyperliquidExchange { trading_pairs, last_heartbeat: now_s }
    }

    /// The shared endpoint.
    pub fn get_websocket_url(&self) -> (r: String)
        ensures
            r@ == "wss://api.hyperliquid.xyz/ws"@,
    {
        let mut out = String::new();
        out.append("wss://api.hyperliquid.xyz/ws");
        proof {
            assert(out@ =~= "wss://api.hyperliquid.xyz/ws"@);
        }
        out
    }

    /// The exact subscription payload; it does not depend on the pairs.
    pub open spec fn spec_subscription() -> Seq<char> {
        "{\"method\":\"subscribe\",\"subscription\":{\"type\":\"allMids\"}}"@
    }

    /// The subscription payload.
    pub fn create_subscription_message(&self) -> (r: String)
        ensures
            r@ == Self::spec_subscription(),
    {
        let mut out = String::new();
        out.append("{\"method\":\"subscribe\",\"subscription\":{\"type\":\"allMids\"}}");
        proof {
            assert(out@ =~= Self::spec_subscription());
        }
        out
    }

    /// The events one broadcast yields: the message must be an object whose
    /// `channel` member is the string `allMids` and whose `data.mids` member
    /// is an object; every entry of it with a parseable price string fans
    /// out into its own event, in document order.
    pub open spec fn spec_updates(s: Seq<char>, now_s: u64) -> Seq<SpecUpdate> {
        match spec_parse_json(s) {
            Some(SpecJson::Obj(ms)) => match (
                sp_obj_get(ms, "channel"@),
                sp_obj_get(ms, "data"@),
            ) {
                (Some(SpecJson::Str(ch)), Some(SpecJson::Obj(dm))) => {
                    if ch == "allMids"@ {
                        match sp_obj_get(dm, "mids"@) {
                            Some(SpecJson::Obj(mids)) => spec_mids_updates(mids, now_s),
                            _ => Seq::empty(),
                        }
                    } else {
                        Seq::empty()
                    }
                },
                _ => Seq::empty(),
            },
            _ => Seq::empty(),
        }
    }

    /// Turn one inbound message into canonical events.
    pub fn handle_message(text: &str, now_s: u64) -> (r: Vec<PriceUpdate>)
        ensures
            updates_view(r@) == Self::spec_updates(text@, now_s),
    {
        let mut out: Vec<PriceUpdate> = Vec::new();
        match parse_json(text) {
            Some(Json::Obj(ms)) => {
                match (obj_get(&ms, "channel"), obj_get(&ms, "data")) {
                    (Some(Json::Str(ch)), Some(Json::Obj(dm))) => {
                        if str_eq_str(ch.as_str(), "allMids") {
                            match obj_get(dm, "mids") {
                                Some(Json::Obj(mids)) => {
                                    let ghost vm = Json::view_members(mids@);
                                    proof {
                                        lemma_view_members_index(mids@);
                                    }
                                    let mut i: usize = 0;
                                    while i < mids.len()
                                        invariant
                                            i <= mids@.len(),
                                            vm == Json::view_members(mids@),
                                            vm.len() == mids@.len(),
                                            forall|k: int|
                                                0 <= k < mids@.len() ==> #[trigger] vm[k] == (
                                                    mids@[k].0@,
                                                    mids@[k].1.view(),
                                                ),
                                            updates_view(out@) == spec_mids_updates(
                                                vm.subrange(0, i as int),
                                                now_s,
                                            ),
                                        decreases mids@.len() - i,
                                    {
                                        match &mids[i].1 {
                                            Json::Str(v) => {
                                                match parse_price(v.as_str()) {
                                                    Some(p) => {
                                                        let mut source = String::new();
                                                        source.append("hyperliquid");
                                                        out.push(
                                                            PriceUpdate {
                                                                symbol: mids[i].0.clone(),
                                                                price: p,
                                                                timestamp: now_s,
                                                                source,
                                                            },
                                                        );
                                                    },
                                                    None => (),
                                                }
                                            },
                                            _ => (),
                                        }
                                        proof {
                                            assert(vm.subrange(0, i + 1).drop_last() =~= vm
                                                .subrange(0, i as int));
                                            assert(vm.subrange(0, i + 1).last() == vm[i as int]);
                                            assert(updates_view(out@) =~= spec_mids_updates(
                                                vm.subrange(0, i + 1),
                                                now_s,
                                            ));
                                        }
                                        i += 1;
                                    }
                                    proof {
                                        assert(vm.subrange(0, vm.len() as int) =~= vm);
                                    }
                                },
                                _ => (),
                            }
                        }
                    },
                    _ => (),
                }
            },
            _ => (),
        }
        proof {
            assert(updates_view(out@) =~= Self::spec_updates(text@, now_s));
        }
        out
    }
}

} // verus!
