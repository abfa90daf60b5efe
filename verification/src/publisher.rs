//! The aggregation and supervision engine's state and rules: per-source
//! health, the authoritative latest-price book, staleness detection, and the
//! exact strings written through to the external cache. The engine's actual
//! task spawning, channel draining and cache connection are an unverified
//! shell around these functions.

use vstd::prelude::*;
use crate::exchanges::{AdapterError, ExchangeImpl, create_exchange};
use crate::price::{spec_dec, spec_price_str, spec_price_8dp, format_price, format_price_8dp, push_dec, chars_to_string};
use crate::text::str_eq_str;
use crate::types::{Exchange, PriceUpdate, TradingPair};

verus! {

/// Capacity of the bounded egress channel between adapters and consumer.
pub const CHANNEL_SIZE: usize = 1000;

/// Expiry, in seconds, on every cache write.
pub const REDIS_PRICE_EXPIRY_S: u64 = 60;

/// Period of the health-check pass.
pub const HEALTH_CHECK_INTERVAL_S: u64 = 30;

/// A price entry older than this is stale.
pub const STALE_PRICE_THRESHOLD_S: u64 = 30;

/// A source with more consecutive errors than this is flagged.
pub const HIGH_ERROR_THRESHOLD: u32 = 5;

/// Fixed backoff between listen cycles of one adapter, in seconds.
pub const RECONNECT_BACKOFF_S: u64 = 5;

/// One source's mutable health record.
#[derive(Debug, Clone)]
pub struct ExchangeHealth {
    pub last_update: u64,
    pub is_connected: bool,
    pub error_count: u32,
}

/// A price entry: fixed-point price and unix-seconds timestamp.
pub type PriceEntry = (u64, u64);

/// The per-source health list as a map from source name to record.
pub open spec fn health_map(s: Seq<(String, ExchangeHealth)>) -> Map<Seq<char>, ExchangeHealth>
    decreases s.len(),
{
    if s.len() == 0 {
        Map::empty()
    } else {
        health_map(s.drop_last()).insert(s.last().0@, s.last().1)
    }
}

/// The latest-price list as a map from `(symbol, source)` to entry.
pub open spec fn book_map(s: Seq<((String, String), PriceEntry)>) -> Map<
    (Seq<char>, Seq<char>),
    PriceEntry,
>
    decreases s.len(),
{
    if s.len() == 0 {
        Map::empty()
    } else {
        book_map(s.drop_last()).insert((s.last().0.0@, s.last().0.1@), s.last().1)
    }
}

/// No two health entries share a source name.
pub open spec fn health_keys_unique(s: Seq<(String, ExchangeHealth)>) -> bool {
    forall|j: int, k: int| 0 <= j < k < s.len() ==> (#[trigger] s[j]).0@ != (#[trigger] s[k]).0@
}

/// No two price entries share a `(symbol, source)` pair.
pub open spec fn book_keys_unique(s: Seq<((String, String), PriceEntry)>) -> bool {
    forall|j: int, k: int|
        0 <= j < k < s.len() ==> ((#[trigger] s[j]).0.0@, s[j].0.1@) != ((#[trigger] s[k]).0.0@,
        s[k].0.1@)
}

/// A source name is in the health map exactly when some entry carries it.
proof fn lemma_health_contains(s: Seq<(String, ExchangeHealth)>, key: Seq<char>)
    ensures
        health_map(s).contains_key(key) <==> exists|j: int|
            0 <= j < s.len() && (#[trigger] s[j]).0@ == key,
    decreases s.len(),
{
    if s.len() > 0 {
        lemma_health_contains(s.drop_last(), key);
        if s.last().0@ == key {
            assert(s[s.len() - 1].0@ == key);
        } else if health_map(s).contains_key(key) {
            let j = choose|j: int| 0 <= j < s.len() - 1 && (#[trigger] s.drop_last()[j]).0@ == key;
            assert(s[j].0@ == key);
        } else {
            assert forall|j: int| 0 <= j < s.len() implies (#[trigger] s[j]).0@ != key by {
                if j < s.len() - 1 {
                    assert(s.drop_last()[j] == s[j]);
                }
            }
        }
    }
}

/// Under unique source names, the map's value at an entry's name is that
/// entry's record.
proof fn lemma_health_lookup(s: Seq<(String, ExchangeHealth)>, j: int)
    requires
        health_keys_unique(s),
        0 <= j < s.len(),
    ensures
        health_map(s).contains_key(s[j].0@),
        health_map(s)[s[j].0@] == s[j].1,
    decreases s.len(),
{
    if j == s.len() - 1 {
    } else {
        assert(health_keys_unique(s.drop_last())) by {
            assert forall|x: int, y: int|
                0 <= x < y < s.drop_last().len() implies (#[trigger] s.drop_last()[x]).0@ != (
            #[trigger] s.drop_last()[y]).0@ by {
                assert(s.drop_last()[x] == s[x]);
                assert(s.drop_last()[y] == s[y]);
            }
        }
        assert(s.drop_last()[j] == s[j]);
        lemma_health_lookup(s.drop_last(), j);
        assert(s[j].0@ != s.last().0@);
    }
}

/// Replacing the entry at `j` by one with the same source name updates the
/// health map at that name.
proof fn lemma_health_set(s: Seq<(String, ExchangeHealth)>, j: int, kv: (String, ExchangeHealth))
    requires
        0 <= j < s.len(),
        kv.0@ == s[j].0@,
        health_keys_unique(s),
    ensures
        health_map(s.update(j, kv)) =~= health_map(s).insert(s[j].0@, kv.1),
        health_keys_unique(s.update(j, kv)),
    decreases s.len(),
{
    let t = s.update(j, kv);
    if j == s.len() - 1 {
        assert(t.drop_last() =~= s.drop_last());
        assert(t.last() == kv);
        assert(health_map(t) =~= health_map(s).insert(s[j].0@, kv.1));
    } else {
        assert(health_keys_unique(s.drop_last())) by {
            assert forall|x: int, y: int|
                0 <= x < y < s.drop_last().len() implies (#[trigger] s.drop_last()[x]).0@ != (
            #[trigger] s.drop_last()[y]).0@ by {
                assert(s.drop_last()[x] == s[x]);
                assert(s.drop_last()[y] == s[y]);
            }
        }
        assert(s.drop_last()[j] == s[j]);
        lemma_health_set(s.drop_last(), j, kv);
        assert(t.drop_last() =~= s.drop_last().update(j, kv));
        assert(t.last() == s.last());
        assert(s[j].0@ != s.last().0@);
        assert(health_map(t) =~= health_map(s).insert(s[j].0@, kv.1));
    }
    assert forall|x: int, y: int|
        0 <= x < y < t.len() implies (#[trigger] t[x]).0@ != (#[trigger] t[y]).0@ by {
        if x != j {
            assert(t[x] == s[x]);
        }
        if y != j {
            assert(t[y] == s[y]);
        }
    }
}

/// Replacing the entry at `j` by one with the same key pair updates the
/// book map at that pair.
proof fn lemma_book_set(s: Seq<((String, String), PriceEntry)>, j: int, kv: (
    (String, String),
    PriceEntry,
))
    requires
        0 <= j < s.len(),
        kv.0.0@ == s[j].0.0@,
        kv.0.1@ == s[j].0.1@,
        book_keys_unique(s),
    ensures
        book_map(s.update(j, kv)) =~= book_map(s).insert((s[j].0.0@, s[j].0.1@), kv.1),
        book_keys_unique(s.update(j, kv)),
    decreases s.len(),
{
    let t = s.update(j, kv);
    if j == s.len() - 1 {
        assert(t.drop_last() =~= s.drop_last());
        assert(t.last() == kv);
        assert(book_map(t) =~= book_map(s).insert((s[j].0.0@, s[j].0.1@), kv.1));
    } else {
        assert(book_keys_unique(s.drop_last())) by {
            assert forall|x: int, y: int|
                0 <= x < y < s.drop_last().len() implies ((#[trigger] s.drop_last()[x]).0.0@,
            s.drop_last()[x].0.1@) != ((#[trigger] s.drop_last()[y]).0.0@,
            s.drop_last()[y].0.1@) by {
                assert(s.drop_last()[x] == s[x]);
                assert(s.drop_last()[y] == s[y]);
            }
        }
        assert(s.drop_last()[j] == s[j]);
        lemma_book_set(s.drop_last(), j, kv);
        assert(t.drop_last() =~= s.drop_last().update(j, kv));
        assert(t.last() == s.last());
        assert((s[j].0.0@, s[j].0.1@) != (s.last().0.0@, s.last().0.1@));
        assert(book_map(t) =~= book_map(s).insert((s[j].0.0@, s[j].0.1@), kv.1));
    }
    assert forall|x: int, y: int|
        0 <= x < y < t.len() implies ((#[trigger] t[x]).0.0@, t[x].0.1@) != ((#[trigger] t[y]).0.0@,
    t[y].0.1@) by {
        if x != j {
            assert(t[x] == s[x]);
        }
        if y != j {
            assert(t[y] == s[y]);
        }
    }
}

/// The engine's owned state: the adapters, the health records, and the
/// authoritative latest-price book, keyed by `(symbol, source)`.
pub struct PricePublisher {
    pub exchanges: Vec<ExchangeImpl>,
    pub health_metrics: Vec<(String, ExchangeHealth)>,
    pub latest_prices: Vec<((String, String), PriceEntry)>,
}

/// What one health record becomes after a listen cycle ends: the pass is
/// stamped, a success connects the source and clears its errors, a failure
/// disconnects it and counts one more error (saturating at the type limit).
pub open spec fn spec_health_after(
    m: Map<Seq<char>, ExchangeHealth>,
    key: Seq<char>,
    is_healthy: bool,
    had_error: bool,
    now_s: u64,
) -> Map<Seq<char>, ExchangeHealth> {
    if m.contains_key(key) {
        m.insert(
            key,
            ExchangeHealth {
                last_update: now_s,
                is_connected: is_healthy,
                error_count: if had_error {
                    if m[key].error_count == u32::MAX {
                        u32::MAX
                    } else {
                        (m[key].error_count + 1) as u32
                    }
                } else {
                    0
                },
            },
        )
    } else {
        m
    }
}

/// What the book becomes when an update is accepted: last write wins for its
/// `(symbol, source)` pair, and nothing else moves.
pub open spec fn spec_book_after(
    b: Map<(Seq<char>, Seq<char>), PriceEntry>,
    u: crate::types::SpecUpdate,
) -> Map<(Seq<char>, Seq<char>), PriceEntry> {
    b.insert((u.symbol, u.source), (u.price, u.timestamp))
}

/// Writing the same update twice leaves the book exactly as one write does,
/// regardless of the count: last write wins.
pub proof fn lemma_last_write_wins(
    b: Map<(Seq<char>, Seq<char>), PriceEntry>,
    u: crate::types::SpecUpdate,
)
    ensures
        spec_book_after(spec_book_after(b, u), u) == spec_book_after(b, u),
{
    assert(spec_book_after(spec_book_after(b, u), u) =~= spec_book_after(b, u));
}

/// After a failed cycle the error count rises by exactly one and the source
/// is disconnected; after a successful cycle it is zero and the source is
/// connected. (At the type's own limit the count stays put.)
pub proof fn lemma_health_transition(
    m: Map<Seq<char>, ExchangeHealth>,
    key: Seq<char>,
    now_s: u64,
)
    requires
        m.contains_key(key),
        m[key].error_count < u32::MAX,
    ensures
        spec_health_after(m, key, false, true, now_s)[key].error_count == m[key].error_count + 1,
        !spec_health_after(m, key, false, true, now_s)[key].is_connected,
        spec_health_after(m, key, true, false, now_s)[key].error_count == 0,
        spec_health_after(m, key, true, false, now_s)[key].is_connected,
{
}

/// An entry is stale at `now_s` when its timestamp is more than the
/// staleness threshold in the past.
pub open spec fn spec_is_stale(ts: u64, now_s: u64) -> bool {
    now_s > ts + STALE_PRICE_THRESHOLD_S
}

/// Whether a price entry's age tops the staleness threshold.
pub fn is_stale_at(ts: u64, now_s: u64) -> (r: bool)
    ensures
        r == spec_is_stale(ts, now_s),
{
    now_s > ts && now_s - ts > STALE_PRICE_THRESHOLD_S
}

/// Whether a source's consecutive error count tops the reporting threshold.
pub fn is_high_error_count(c: u32) -> (r: bool)
    ensures
        r == (c > HIGH_ERROR_THRESHOLD),
{
    c > HIGH_ERROR_THRESHOLD
}

/// The stale entries of the book at `now_s`, in book order: symbol, source,
/// and age in seconds.
pub open spec fn spec_stale_entries(s: Seq<((String, String), PriceEntry)>, now_s: u64) -> Seq<
    (Seq<char>, Seq<char>, u64),
>
    decreases s.len(),
{
    if s.len() == 0 {
        Seq::empty()
    } else {
        spec_stale_entries(s.drop_last(), now_s) + (if spec_is_stale(s.last().1.1, now_s) {
            seq![(s.last().0.0@, s.last().0.1@, (now_s - s.last().1.1) as u64)]
        } else {
            Seq::empty()
        })
    }
}

/// A `(symbol, source)` entry appears among the stale entries exactly when
/// its timestamp is older than the staleness threshold at check time.
pub proof fn lemma_staleness(s: Seq<((String, String), PriceEntry)>, now_s: u64, j: int)
    requires
        0 <= j < s.len(),
    ensures
        spec_is_stale(s[j].1.1, now_s) ==> spec_stale_entries(s, now_s).contains(
            (s[j].0.0@, s[j].0.1@, (now_s - s[j].1.1) as u64),
        ),
        book_keys_unique(s) && !spec_is_stale(s[j].1.1, now_s) ==> forall|a: u64|
            !spec_stale_entries(s, now_s).contains((s[j].0.0@, s[j].0.1@, a)),
    decreases s.len(),
{
    let whole = spec_stale_entries(s, now_s);
    let pre = spec_stale_entries(s.drop_last(), now_s);
    if j == s.len() - 1 {
        if spec_is_stale(s[j].1.1, now_s) {
            assert(whole[whole.len() - 1] == (s[j].0.0@, s[j].0.1@, (now_s - s[j].1.1) as u64));
        } else if book_keys_unique(s) {
            assert forall|a: u64| !whole.contains((s[j].0.0@, s[j].0.1@, a)) by {
                if exists|t: int| 0 <= t < whole.len() && whole[t] == (s[j].0.0@, s[j].0.1@, a) {
                    let t = choose|t: int|
                        0 <= t < whole.len() && whole[t] == (s[j].0.0@, s[j].0.1@, a);
                    assert(pre.contains((s[j].0.0@, s[j].0.1@, a)));
                    lemma_stale_entry_has_owner(s.drop_last(), now_s, (s[j].0.0@, s[j].0.1@, a));
                    let o = choose|o: int|
                        0 <= o < s.drop_last().len() && (#[trigger] s.drop_last()[o]).0.0@ == s[j]
                            .0.0@ && s.drop_last()[o].0.1@ == s[j].0.1@;
                    assert(s[o] == s.drop_last()[o]);
                }
            }
        }
    } else {
        lemma_staleness(s.drop_last(), now_s, j);
        assert(s.drop_last()[j] == s[j]);
        if spec_is_stale(s[j].1.1, now_s) {
            let e = (s[j].0.0@, s[j].0.1@, (now_s - s[j].1.1) as u64);
            let t = choose|t: int| 0 <= t < pre.len() && pre[t] == e;
            assert(whole[t] == e);
        } else if book_keys_unique(s) {
            assert(book_keys_unique(s.drop_last())) by {
                assert forall|x: int, y: int|
                    0 <= x < y < s.drop_last().len() implies ((#[trigger] s.drop_last()[x]).0.0@,
                s.drop_last()[x].0.1@) != ((#[trigger] s.drop_last()[y]).0.0@,
                s.drop_last()[y].0.1@) by {
                    assert(s.drop_last()[x] == s[x]);
                    assert(s.drop_last()[y] == s[y]);
                }
            }
            assert forall|a: u64| !whole.contains((s[j].0.0@, s[j].0.1@, a)) by {
                if exists|t: int| 0 <= t < whole.len() && whole[t] == (s[j].0.0@, s[j].0.1@, a) {
                    let t = choose|t: int|
                        0 <= t < whole.len() && whole[t] == (s[j].0.0@, s[j].0.1@, a);
                    if t < pre.len() {
                        assert(pre.contains((s[j].0.0@, s[j].0.1@, a)));
                    } else {
                        assert(spec_is_stale(s.last().1.1, now_s));
                        assert((s.last().0.0@, s.last().0.1@) == (s[j].0.0@, s[j].0.1@));
                        assert(((#[trigger] s[j]).0.0@, s[j].0.1@) != ((#[trigger] s[s.len()
                            - 1]).0.0@, s[s.len() - 1].0.1@));
                    }
                }
            }
        }
    }
}

/// Every stale entry names some book entry's key pair.
proof fn lemma_stale_entry_has_owner(
    s: Seq<((String, String), PriceEntry)>,
    now_s: u64,
    e: (Seq<char>, Seq<char>, u64),
)
    requires
        spec_stale_entries(s, now_s).contains(e),
    ensures
        exists|o: int|
            0 <= o < s.len() && (#[trigger] s[o]).0.0@ == e.0 && s[o].0.1@ == e.1,
    decreases s.len(),
{
    if s.len() > 0 {
        let whole = spec_stale_entries(s, now_s);
        let pre = spec_stale_entries(s.drop_last(), now_s);
        let t = choose|t: int| 0 <= t < whole.len() && whole[t] == e;
        if t < pre.len() {
            lemma_stale_entry_has_owner(s.drop_last(), now_s, e);
            let o = choose|o: int|
                0 <= o < s.drop_last().len() && (#[trigger] s.drop_last()[o]).0.0@ == e.0
                    && s.drop_last()[o].0.1@ == e.1;
            assert(s[o] == s.drop_last()[o]);
        } else {
            assert((s[s.len() - 1]).0.0@ == e.0 && s[s.len() - 1].0.1@ == e.1);
        }
    }
}

/// One cache write-through: two keyed strings, both set with the same fixed
/// expiry.
pub struct CacheWrite {
    pub price_key: String,
    pub price_value: String,
    pub sources_key: String,
    pub sources_value: String,
    pub expiry_s: u64,
}

/// The exact strings one accepted update writes through to the cache: the
/// plain decimal price under `price:<symbol>`, and
/// `<source>:<price to 8 decimals>:<unix seconds>` under
/// `price:<symbol>:sources`, both expiring after the fixed window.
pub fn cache_commands(u: &PriceUpdate) -> (r: CacheWrite)
    ensures
        r.price_key@ == "price:"@ + u.symbol@,
        r.price_value@ == spec_price_str(u.price),
        r.sources_key@ == "price:"@ + u.symbol@ + ":sources"@,
        r.sources_value@ == u.source@ + seq![':'] + spec_price_8dp(u.price) + seq![':']
            + spec_dec(u.timestamp as int),
        r.expiry_s == REDIS_PRICE_EXPIRY_S,
{
    let mut price_key = String::new();
    price_key.append("price:");
    price_key.append(u.symbol.as_str());
    let price_value = format_price(u.price);
    let mut sources_key = String::new();
    sources_key.append("price:");
    sources_key.append(u.symbol.as_str());
    sources_key.append(":sources");
    let mut sources_value = String::new();
    sources_value.append(u.source.as_str());
    sources_value.push(':');
    let p8 = format_price_8dp(u.price);
    sources_value.append(p8.as_str());
    sources_value.push(':');
    let mut ts_chars: Vec<char> = Vec::new();
    push_dec(&mut ts_chars, u.timestamp);
    let ts_str = chars_to_string(&ts_chars);
    sources_value.append(ts_str.as_str());
    proof {
        assert(price_key@ =~= "price:"@ + u.symbol@);
        assert(sources_key@ =~= "price:"@ + u.symbol@ + ":sources"@);
        assert(sources_value@ =~= u.source@ + seq![':'] + spec_price_8dp(u.price) + seq![':']
            + spec_dec(u.timestamp as int));
    }
    CacheWrite { price_key, price_value, sources_key, sources_value, expiry_s: REDIS_PRICE_EXPIRY_S }
}

impl PricePublisher {
    /// The state's invariant: health sources and book key pairs are unique.
    pub open spec fn wf(&self) -> bool {
        health_keys_unique(self.health_metrics@) && book_keys_unique(self.latest_prices@)
    }

    /// The fixed configuration: the engine starts with all four implemented
    /// adapters over the same four pairs, every source freshly connected
    /// with no errors, and an empty book.
    pub fn new(now_s: u64) -> (r: Result<PricePublisher, AdapterError>)
        ensures
            (match r {
                Ok(p) => {
                    &&& p.wf()
                    &&& p.latest_prices@.len() == 0
                    &&& p.exchanges@.len() == 4
                    &&& p.exchanges@[0].kind() == Exchange::Binance
                    &&& p.exchanges@[1].kind() == Exchange::Bybit
                    &&& p.exchanges@[2].kind() == Exchange::Coinbase
                    &&& p.exchanges@[3].kind() == Exchange::Hyperliquid
                    &&& p.health_metrics@.len() == 4
                    &&& forall|i: int|
                        0 <= i < 4 ==> (#[trigger] p.health_metrics@[i]).1 == (ExchangeHealth {
                            last_update: now_s,
                            is_connected: true,
                            error_count: 0,
                        })
                    &&& p.health_metrics@[0].0@ == "binance"@
                    &&& p.health_metrics@[1].0@ == "bybit"@
                    &&& p.health_metrics@[2].0@ == "coinbase"@
                    &&& p.health_metrics@[3].0@ == "hyperliquid"@
                    &&& forall|i: int|
                        0 <= i < 4 ==> spec_default_pairs(
                            crate::exchanges::spec_exchange_pairs(#[trigger] p.exchanges@[i]),
                        ) && crate::exchanges::spec_exchange_heartbeat(p.exchanges@[i]) == now_s
                },
                Err(_) => false,
            }),
    {
        let trading_pairs: Vec<TradingPair> = make_default_pairs();
        let mut exchanges: Vec<ExchangeImpl> = Vec::new();
        let mut health_metrics: Vec<(String, ExchangeHealth)> = Vec::new();
        let kinds: [Exchange; 4] = [
            Exchange::Binance,
            Exchange::Bybit,
            Exchange::Coinbase,
            Exchange::Hyperliquid,
        ];
        let mut i: usize = 0;
        while i < 4
            invariant
                i <= 4,
                spec_default_pairs(trading_pairs@),
                kinds@ =~= seq![
                    Exchange::Binance,
                    Exchange::Bybit,
                    Exchange::Coinbase,
                    Exchange::Hyperliquid,
                ],
                exchanges@.len() == i,
                health_metrics@.len() == i,
                forall|k: int|
                    0 <= k < i ==> (#[trigger] exchanges@[k]).kind() == kinds@[k]
                        && spec_default_pairs(crate::exchanges::spec_exchange_pairs(exchanges@[k]))
                        && crate::exchanges::spec_exchange_heartbeat(exchanges@[k]) == now_s,
                forall|k: int|
                    0 <= k < i ==> (#[trigger] health_metrics@[k]).1 == (ExchangeHealth {
                        last_update: now_s,
                        is_connected: true,
                        error_count: 0,
                    }) && health_metrics@[k].0@ == crate::types::spec_exchange_name(kinds@[k]),
            decreases 4 - i,
        {
            let kind = kinds[i];
            let mut ex = match create_exchange(kind, clone_pairs(&trading_pairs), now_s) {
                Ok(e) => e,
                Err(_) => {
                    proof {
                        assert(kinds@[i as int] != Exchange::UniswapV2);
                    }
                    return Err(AdapterError::Unsupported);
                },
            };
            let init_ok = ex.init();
            match init_ok {
                Ok(_) => (),
                Err(_) => return Err(AdapterError::Unsupported),
            }
            let name = kind.as_str().to_owned();
            exchanges.push(ex);
            health_metrics.push(
                (name, ExchangeHealth { last_update: now_s, is_connected: true, error_count: 0 }),
            );
            i += 1;
        }
        let p = PricePublisher { exchanges, health_metrics, latest_prices: Vec::new() };
        proof {
            assert(p.health_metrics@[0].0@ == "binance"@);
            assert(p.health_metrics@[1].0@ == "bybit"@);
            assert(p.health_metrics@[2].0@ == "coinbase"@);
            assert(p.health_metrics@[3].0@ == "hyperliquid"@);
            assert(health_keys_unique(p.health_metrics@)) by {
                reveal_strlit("binance");
                reveal_strlit("bybit");
                reveal_strlit("coinbase");
                reveal_strlit("hyperliquid");
                assert forall|j: int, k: int|
                    0 <= j < k < p.health_metrics@.len() implies (#[trigger] p.health_metrics@[j]).0@
                    != (#[trigger] p.health_metrics@[k]).0@ by {
                    assert("binance"@.len() == 7);
                    assert("bybit"@.len() == 5);
                    assert("coinbase"@.len() == 8);
                    assert("hyperliquid"@.len() == 11);
                }
            }
        }
        Ok(p)
    }

    /// Stamp a listen-cycle completion into the source's health record; a
    /// name that never had a record is left unrecorded.
    pub fn update_health_metrics(
        &mut self,
        exchange: &str,
        is_healthy: bool,
        had_error: bool,
        now_s: u64,
    )
        requires
            old(self).wf(),
        ensures
            final(self).wf(),
            health_map(final(self).health_metrics@) == spec_health_after(
                health_map(old(self).health_metrics@),
                exchange@,
                is_healthy,
                had_error,
                now_s,
            ),
            final(self).latest_prices == old(self).latest_prices,
            final(self).exchanges == old(self).exchanges,
    {
        proof {
            lemma_health_contains(self.health_metrics@, exchange@);
        }
        let n = self.health_metrics.len();
        let mut j: usize = 0;
        while j < n
            invariant
                *self == *old(self),
                old(self).wf(),
                n == self.health_metrics@.len(),
                j <= n,
                forall|k: int| 0 <= k < j ==> (#[trigger] self.health_metrics@[k]).0@ != exchange@,
            decreases n - j,
        {
            if str_eq_str(self.health_metrics[j].0.as_str(), exchange) {
                let prev = self.health_metrics[j].1.error_count;
                let key = self.health_metrics[j].0.clone();
                let entry = ExchangeHealth {
                    last_update: now_s,
                    is_connected: is_healthy,
                    error_count: if had_error {
                        if prev == u32::MAX {
                            u32::MAX
                        } else {
                            prev + 1
                        }
                    } else {
                        0
                    },
                };
                proof {
                    lemma_health_lookup(self.health_metrics@, j as int);
                    lemma_health_set(self.health_metrics@, j as int, (key, entry));
                    lemma_health_contains(self.health_metrics@, exchange@);
                }
                self.health_metrics[j] = (key, entry);
                return;
            }
            j += 1;
        }
        proof {
            lemma_health_contains(self.health_metrics@, exchange@);
        }
    }

    /// Accept one canonical event into the book: last write wins for its
    /// `(symbol, source)` pair; symbols and sources accumulate, none is ever
    /// removed.
    pub fn apply_update(&mut self, u: &PriceUpdate)
        requires
            old(self).wf(),
        ensures
            final(self).wf(),
            book_map(final(self).latest_prices@) == spec_book_after(
                book_map(old(self).latest_prices@),
                u@,
            ),
            final(self).health_metrics == old(self).health_metrics,
            final(self).exchanges == old(self).exchanges,
    {
        let n = self.latest_prices.len();
        let mut j: usize = 0;
        while j < n
            invariant
                *self == *old(self),
                old(self).wf(),
                n == self.latest_prices@.len(),
                j <= n,
                forall|k: int|
                    0 <= k < j ==> ((#[trigger] self.latest_prices@[k]).0.0@,
                    self.latest_prices@[k].0.1@) != (u.symbol@, u.source@),
            decreases n - j,
        {
            let sym_eq = str_eq_str(self.latest_prices[j].0.0.as_str(), u.symbol.as_str());
            let src_eq = str_eq_str(self.latest_prices[j].0.1.as_str(), u.source.as_str());
            if sym_eq && src_eq {
                let kv = ((u.symbol.clone(), u.source.clone()), (u.price, u.timestamp));
                proof {
                    lemma_book_set(self.latest_prices@, j as int, kv);
                }
                self.latest_prices[j] = kv;
                return;
            }
            j += 1;
        }
        let kv = ((u.symbol.clone(), u.source.clone()), (u.price, u.timestamp));
        let ghost before = self.latest_prices@;
        self.latest_prices.push(kv);
        proof {
            assert(self.latest_prices@.drop_last() =~= before);
            assert(book_map(self.latest_prices@) =~= spec_book_after(book_map(before), u@));
            assert forall|x: int, y: int|
                0 <= x < y < self.latest_prices@.len() implies ((
            #[trigger] self.latest_prices@[x]).0.0@, self.latest_prices@[x].0.1@) != ((
            #[trigger] self.latest_prices@[y]).0.0@, self.latest_prices@[y].0.1@) by {
                if y < self.latest_prices@.len() - 1 {
                    assert(before[x] == self.latest_prices@[x]);
                    assert(before[y] == self.latest_prices@[y]);
                } else {
                    assert(before[x] == self.latest_prices@[x]);
                }
            }
        }
    }

    /// Accept one event and say exactly what to write through to the cache.
    /// The book is updated first; a failed cache write is logged by the
    /// caller and never rolls the book back.
    pub fn process_update(&mut self, u: &PriceUpdate) -> (w: CacheWrite)
        requires
            old(self).wf(),
        ensures
            final(self).wf(),
            book_map(final(self).latest_prices@) == spec_book_after(
                book_map(old(self).latest_prices@),
                u@,
            ),
            final(self).health_metrics == old(self).health_metrics,
            final(self).exchanges == old(self).exchanges,
            w.price_key@ == "price:"@ + u.symbol@,
            w.price_value@ == spec_price_str(u.price),
            w.sources_key@ == "price:"@ + u.symbol@ + ":sources"@,
            w.sources_value@ == u.source@ + seq![':'] + spec_price_8dp(u.price) + seq![':']
                + spec_dec(u.timestamp as int),
            w.expiry_s == REDIS_PRICE_EXPIRY_S,
    {
        self.apply_update(u);
        cache_commands(u)
    }

    /// The stale book entries at `now_s`, in book order.
    pub fn stale_entries(&self, now_s: u64) -> (r: Vec<(String, String, u64)>)
        ensures
            r@.map_values(|e: (String, String, u64)| (e.0@, e.1@, e.2)) == spec_stale_entries(
                self.latest_prices@,
                now_s,
            ),
    {
        let ghost b = self.latest_prices@;
        let mut out: Vec<(String, String, u64)> = Vec::new();
        let mut i: usize = 0;
        while i < self.latest_prices.len()
            invariant
                b == self.latest_prices@,
                i <= b.len(),
                out@.map_values(|e: (String, String, u64)| (e.0@, e.1@, e.2))
                    == spec_stale_entries(b.subrange(0, i as int), now_s),
            decreases b.len() - i,
        {
            let ts = self.latest_prices[i].1.1;
            if is_stale_at(ts, now_s) {
                let sym = self.latest_prices[i].0.0.clone();
                let src = self.latest_prices[i].0.1.clone();
                out.push((sym, src, now_s - ts));
            }
            proof {
                assert(b.subrange(0, i + 1).drop_last() =~= b.subrange(0, i as int));
                assert(b.subrange(0, i + 1).last() == b[i as int]);
                assert(out@.map_values(|e: (String, String, u64)| (e.0@, e.1@, e.2))
                    =~= spec_stale_entries(b.subrange(0, i + 1), now_s));
            }
            i += 1;
        }
        proof {
            assert(b.subrange(0, b.len() as int) =~= b);
        }
        out
    }

    /// The per-source health records, in configuration order: the
    /// authoritative in-memory view.
    pub fn get_exchange_health(&self) -> (r: &Vec<(String, ExchangeHealth)>)
        ensures
            r == &self.health_metrics,
    {
        &self.health_metrics
    }

    /// The latest-price book, keyed by `(symbol, source)`: the authoritative
    /// in-memory view of which the external cache is a derived projection.
    pub fn get_latest_prices(&self) -> (r: &Vec<((String, String), PriceEntry)>)
        ensures
            r == &self.latest_prices,
    {
        &self.latest_prices
    }
}

/// A fresh copy of the configured pairs for one adapter.
fn clone_pairs(pairs: &Vec<TradingPair>) -> (r: Vec<TradingPair>)
    ensures
        r@.len() == pairs@.len(),
        forall|i: int|
            0 <= i < pairs@.len() ==> (#[trigger] r@[i]).base@ == pairs@[i].base@ && r@[i].quote@
                == pairs@[i].quote@,
{
    let mut out: Vec<TradingPair> = Vec::new();
    let mut i: usize = 0;
    while i < pairs.len()
        invariant
            i <= pairs@.len(),
            out@.len() == i,
            forall|k: int|
                0 <= k < i ==> (#[trigger] out@[k]).base@ == pairs@[k].base@ && out@[k].quote@
                    == pairs@[k].quote@,
        decreases pairs@.len() - i,
    {
        let p = TradingPair {
            base: pairs[i].base.clone(),
            quote: pairs[i].quote.clone(),
        };
        out.push(p);
        i += 1;
    }
    out
}

/// The fixed pair configuration: three majors against the quote stablecoin,
/// and the pegged stablecoin pair that triggers the synthetic event.
pub open spec fn spec_default_pairs(ps: Seq<TradingPair>) -> bool {
    &&& ps.len() == 4
    &&& ps[0].base@ == "BTC"@ && ps[0].quote@ == "USDT"@
    &&& ps[1].base@ == "ETH"@ && ps[1].quote@ == "USDT"@
    &&& ps[2].base@ == "SOL"@ && ps[2].quote@ == "USDT"@
    &&& ps[3].base@ == "USDC"@ && ps[3].quote@ == "USDT"@
}

/// The fixed trading pairs the engine tracks, the stablecoin pair among
/// them.
pub fn make_default_pairs() -> (r: Vec<TradingPair>)
    ensures
        spec_default_pairs(r@),
{
    let mut out: Vec<TradingPair> = Vec::new();
    out.push(TradingPair::new("BTC", "USDT"));
    out.push(TradingPair::new("ETH", "USDT"));
    out.push(TradingPair::new("SOL", "USDT"));
    out.push(TradingPair::new("USDC", "USDT"));
    proof {
        reveal_strlit("BTC");
        reveal_strlit("ETH");
        reveal_strlit("SOL");
        reveal_strlit("USDC");
        reveal_strlit("USDT");
        assert(crate::text::spec_upper_seq("BTC"@) =~= "BTC"@);
        assert(crate::text::spec_upper_seq("ETH"@) =~= "ETH"@);
        assert(crate::text::spec_upper_seq("SOL"@) =~= "SOL"@);
        assert(crate::text::spec_upper_seq("USDC"@) =~= "USDC"@);
        assert(crate::text::spec_upper_seq("USDT"@) =~= "USDT"@);
    }
    out
}

} // verus!
