//! The concurrent market-data store.
//!
//! A `MarketStore` maps a key of venue and canonical symbol to the latest
//! `SymbolData` snapshot.  The backing table is a sharded concurrent map from
//! the `dashmap` crate, held behind trusted wrappers; its contents are
//! modelled as a `Map` from `(Exchange, Seq<char>)` to `SymbolData`, and every
//! verified operation is specified against that model.  Price updates and
//! funding updates are independent per-key write paths: each touches only its
//! own fields plus the timestamp, and no other key.

use vstd::prelude::*;
use crate::num::{Price, Rate};

verus! {

/// A trading venue.
#[derive(Clone, Copy, Debug, PartialEq, Eq, Structural, Hash)]
pub enum Exchange {
    Hyperliquid,
    Bitbank,
    Kraken,
    Gmo,
}

impl Exchange {
    /// The venue's display name.
    pub fn name(&self) -> (r: &'static str)
        ensures
            *self == Exchange::Hyperliquid ==> r@ == "Hyperliquid"@,
            *self == Exchange::Bitbank ==> r@ == "Bitbank"@,
            *self == Exchange::Kraken ==> r@ == "Kraken"@,
            *self == Exchange::Gmo ==> r@ == "Gmo"@,
    {
        match self {
            Exchange::Hyperliquid => "Hyperliquid",
            Exchange::Bitbank => "Bitbank",
            Exchange::Kraken => "Kraken",
            Exchange::Gmo => "Gmo",
        }
    }
}

/// The latest snapshot for one store key.  Every field starts at zero and is
/// written only by its own update path: prices by `update_market_data`,
/// the funding rate by `update_funding_rate`, the timestamp by both.
#[derive(Clone, Copy, Debug, PartialEq, Eq, Structural)]
pub struct SymbolData {
    pub bid: Price,
    pub ask: Price,
    pub last_price: Price,
    pub funding_rate: Rate,
    pub timestamp: u64,
}

impl SymbolData {
    /// Whether every field lies in the range the engine's arithmetic admits.
    pub open spec fn wf(self) -> bool {
        &&& self.bid.wf()
        &&& self.ask.wf()
        &&& self.last_price.wf()
        &&& self.funding_rate.wf()
    }
}

impl Default for SymbolData {
    /// The all-zero snapshot a fresh entry starts from.
    fn default() -> (r: SymbolData)
        ensures
            r == (SymbolData {
                bid: Price { raw: 0 },
                ask: Price { raw: 0 },
                last_price: Price { raw: 0 },
                funding_rate: Rate { raw: 0 },
                timestamp: 0u64,
            }),
    {
        SymbolData {
            bid: Price { raw: 0 },
            ask: Price { raw: 0 },
            last_price: Price { raw: 0 },
            funding_rate: Rate { raw: 0 },
            timestamp: 0,
        }
    }
}

/// The sharded concurrent map type of the `dashmap` crate, taken as opaque.
#[verifier::external_type_specification]
#[verifier::external_body]
#[verifier::reject_recursive_types(K)]
#[verifier::reject_recursive_types(V)]
#[verifier::reject_recursive_types(S)]
pub struct ExDashMap<K, V, S>(dashmap::DashMap<K, V, S>);

/// The mathematical contents of the backing table: which snapshot each
/// venue-and-symbol key currently holds.
pub uninterp spec fn store_map(
    m: dashmap::DashMap<(Exchange, String), SymbolData>,
) -> Map<(Exchange, Seq<char>), SymbolData>;

/// The model of a store that holds nothing.
pub open spec fn empty_store_model() -> Map<(Exchange, Seq<char>), SymbolData> {
    Map::empty()
}

/// Relies on `dashmap::DashMap::new`: the new table is empty.
#[verifier::external_body]
fn dm_new() -> (m: dashmap::DashMap<(Exchange, String), SymbolData>)
    ensures
        store_map(m) == empty_store_model(),
{
    dashmap::DashMap::new()
}

/// Relies on `dashmap::DashMap::insert`: after the call the key holds exactly
/// the given value and no other key changes.  The write locks only the one
/// shard the key hashes to, so writers of other keys are never blocked.
#[verifier::external_body]
fn dm_insert(
    m: &mut dashmap::DashMap<(Exchange, String), SymbolData>,
    exchange: Exchange,
    symbol: &str,
    value: SymbolData,
)
    ensures
        store_map(*final(m)) == store_map(*old(m)).insert((exchange, symbol@), value),
{
    m.insert((exchange, symbol.to_string()), value);
}

/// Relies on `dashmap::DashMap::get`: returns a copy of the value the key
/// holds, or nothing for an absent key.
#[verifier::external_body]
fn dm_get(
    m: &dashmap::DashMap<(Exchange, String), SymbolData>,
    exchange: Exchange,
    symbol: &str,
) -> (r: Option<SymbolData>)
    ensures
        r == spec_read(store_map(*m), exchange, symbol@),
{
    m.get(&(exchange, symbol.to_string())).map(|entry| *entry)
}

/// What a read of one key yields from the store model.
pub open spec fn spec_read(
    m: Map<(Exchange, Seq<char>), SymbolData>,
    exchange: Exchange,
    symbol: Seq<char>,
) -> Option<SymbolData> {
    if m.contains_key((exchange, symbol)) {
        Some(m[(exchange, symbol)])
    } else {
        None
    }
}

/// The snapshot after a price update: new bid, ask and last price and the new
/// timestamp; the funding rate carries over (zero on first creation).
pub open spec fn price_updated(
    prev: Option<SymbolData>,
    bid: Price,
    ask: Price,
    last: Price,
    timestamp: u64,
) -> SymbolData {
    SymbolData {
        bid,
        ask,
        last_price: last,
        funding_rate: match prev {
            Some(d) => d.funding_rate,
            None => Rate { raw: 0 },
        },
        timestamp,
    }
}

/// The snapshot after a funding update: new funding rate and timestamp; the
/// price fields carry over (zero on first creation).
pub open spec fn funding_updated(prev: Option<SymbolData>, funding: Rate, timestamp: u64) -> SymbolData {
    SymbolData {
        bid: match prev {
            Some(d) => d.bid,
            None => Price { raw: 0 },
        },
        ask: match prev {
            Some(d) => d.ask,
            None => Price { raw: 0 },
        },
        last_price: match prev {
            Some(d) => d.last_price,
            None => Price { raw: 0 },
        },
        funding_rate: funding,
        timestamp,
    }
}

/// The store model `after` is `before` with exactly one price write at the
/// key: the written bid, ask and last, the funding rate carried over, and
/// the timestamp the write stamped (read off the new entry itself).
pub open spec fn price_written(
    before: Map<(Exchange, Seq<char>), SymbolData>,
    after: Map<(Exchange, Seq<char>), SymbolData>,
    exchange: Exchange,
    symbol: Seq<char>,
    bid: Price,
    ask: Price,
    last: Price,
) -> bool {
    &&& after.contains_key((exchange, symbol))
    &&& after == before.insert(
        (exchange, symbol),
        price_updated(
            spec_read(before, exchange, symbol),
            bid,
            ask,
            last,
            after[(exchange, symbol)].timestamp,
        ),
    )
}

/// The store model `after` is `before` with exactly one funding write at the
/// key: the written funding rate, the price fields carried over, and the
/// timestamp the write stamped.
pub open spec fn funding_written(
    before: Map<(Exchange, Seq<char>), SymbolData>,
    after: Map<(Exchange, Seq<char>), SymbolData>,
    exchange: Exchange,
    symbol: Seq<char>,
    funding: Rate,
) -> bool {
    &&& after.contains_key((exchange, symbol))
    &&& after == before.insert(
        (exchange, symbol),
        funding_updated(
            spec_read(before, exchange, symbol),
            funding,
            after[(exchange, symbol)].timestamp,
        ),
    )
}

/// Relies on `std::time::SystemTime::now`: seconds since the Unix epoch, or
/// zero when the clock reads earlier than the epoch.  Two calls may return
/// anything: wall-clock time is not monotone.
#[verifier::external_body]
fn clock_seconds() -> u64 {
    match std::time::SystemTime::now().duration_since(std::time::UNIX_EPOCH) {
        Ok(d) => d.as_secs(),
        Err(_) => 0,
    }
}

/// The wall-clock timestamp every update stamps its entry with: seconds
/// since the Unix epoch.
pub fn current_timestamp() -> u64 {
    clock_seconds()
}

/// The shared market-data store, keyed by venue and canonical symbol.
/// Entries are created lazily on first write and never deleted.
pub struct MarketStore {
    data: dashmap::DashMap<(Exchange, String), SymbolData>,
}

impl View for MarketStore {
    type V = Map<(Exchange, Seq<char>), SymbolData>;

    closed spec fn view(&self) -> Map<(Exchange, Seq<char>), SymbolData> {
        store_map(self.data)
    }
}

impl MarketStore {
    /// Every snapshot the store holds is well formed.
    pub open spec fn inv(&self) -> bool {
        forall|k: (Exchange, Seq<char>)| #[trigger]
            self@.contains_key(k) ==> self@[k].wf()
    }

    /// Creates an empty store.
    pub fn new() -> (r: MarketStore)
        ensures
            r@ == empty_store_model(),
            r.inv(),
    {
        MarketStore { data: dm_new() }
    }

    /// Writes bid, ask and last price for one key at the given timestamp,
    /// leaving the funding rate and every other key untouched.
    pub fn update_market_data_at(
        &mut self,
        exchange: Exchange,
        symbol: &str,
        bid: Price,
        ask: Price,
        last: Price,
        timestamp: u64,
    )
        requires
            old(self).inv(),
            bid.wf(),
            ask.wf(),
            last.wf(),
        ensures
            final(self)@ == old(self)@.insert(
                (exchange, symbol@),
                price_updated(spec_read(old(self)@, exchange, symbol@), bid, ask, last, timestamp),
            ),
            final(self).inv(),
    {
        let prev = dm_get(&self.data, exchange, symbol);
        let funding_rate = match prev {
            Some(d) => d.funding_rate,
            None => Rate::zero(),
        };
        let value = SymbolData { bid, ask, last_price: last, funding_rate, timestamp };
        dm_insert(&mut self.data, exchange, symbol, value);
    }

    /// Writes bid, ask and last price for one key, stamped with the current
    /// wall-clock time.
    pub fn update_market_data(
        &mut self,
        exchange: Exchange,
        symbol: &str,
        bid: Price,
        ask: Price,
        last: Price,
    )
        requires
            old(self).inv(),
            bid.wf(),
            ask.wf(),
            last.wf(),
        ensures
            price_written(old(self)@, final(self)@, exchange, symbol@, bid, ask, last),
            final(self).inv(),
    {
        let ts = current_timestamp();
        self.update_market_data_at(exchange, symbol, bid, ask, last, ts);
    }

    /// Writes the funding rate for one key at the given timestamp, leaving
    /// the price fields and every other key untouched.
    pub fn update_funding_rate_at(
        &mut self,
        exchange: Exchange,
        symbol: &str,
        funding: Rate,
        timestamp: u64,
    )
        requires
            old(self).inv(),
            funding.wf(),
        ensures
            final(self)@ == old(self)@.insert(
                (exchange, symbol@),
                funding_updated(spec_read(old(self)@, exchange, symbol@), funding, timestamp),
            ),
            final(self).inv(),
    {
        let prev = dm_get(&self.data, exchange, symbol);
        let (bid, ask, last_price) = match prev {
            Some(d) => (d.bid, d.ask, d.last_price),
            None => (Price::zero(), Price::zero(), Price::zero()),
        };
        let value = SymbolData { bid, ask, last_price, funding_rate: funding, timestamp };
        dm_insert(&mut self.data, exchange, symbol, value);
    }

    /// Writes the funding rate for one key, stamped with the current
    /// wall-clock time.
    pub fn update_funding_rate(&mut self, exchange: Exchange, symbol: &str, funding: Rate)
        requires
            old(self).inv(),
            funding.wf(),
        ensures
            funding_written(old(self)@, final(self)@, exchange, symbol@, funding),
            final(self).inv(),
    {
        let ts = current_timestamp();
        self.update_funding_rate_at(exchange, symbol, funding, ts);
    }

    /// Returns a snapshot copy for the key, or nothing when the key has never
    /// been written.
    pub fn get_symbol_data(&self, exchange: Exchange, symbol: &str) -> (r: Option<SymbolData>)
        ensures
            r == spec_read(self@, exchange, symbol@),
    {
        dm_get(&self.data, exchange, symbol)
    }

    /// The last price of the designated foreign-exchange reporting key.
    pub fn get_fx_rate(&self, symbol: &str) -> (r: Option<Price>)
        ensures
            r == match spec_read(self@, Exchange::Kraken, symbol@) {
                Some(d) => Some(d.last_price),
                None => None::<Price>,
            },
    {
        match self.get_symbol_data(Exchange::Kraken, symbol) {
            Some(d) => Some(d.last_price),
            None => None,
        }
    }

    /// Returns a snapshot copy for the key; a synonym of `get_symbol_data`.
    pub fn get_market_data(&self, exchange: Exchange, symbol: &str) -> (r: Option<SymbolData>)
        ensures
            r == spec_read(self@, exchange, symbol@),
    {
        self.get_symbol_data(exchange, symbol)
    }
}

/// After a price update, a read of the same key returns exactly the written
/// bid, ask and last price with the written timestamp; the funding rate is
/// unaffected by the price-only update; and every other key is untouched.
/// When the written timestamp is not older than the previous one, the
/// timestamp never moves backwards.
pub proof fn lemma_read_after_price_update(
    m: Map<(Exchange, Seq<char>), SymbolData>,
    exchange: Exchange,
    symbol: Seq<char>,
    bid: Price,
    ask: Price,
    last: Price,
    timestamp: u64,
)
    ensures
        ({
            let m2 = m.insert(
                (exchange, symbol),
                price_updated(spec_read(m, exchange, symbol), bid, ask, last, timestamp),
            );
            &&& spec_read(m2, exchange, symbol) matches Some(d) && d.bid == bid && d.ask == ask
                && d.last_price == last && d.timestamp == timestamp
            &&& spec_read(m2, exchange, symbol)->Some_0.funding_rate == (match spec_read(
                m,
                exchange,
                symbol,
            ) {
                Some(prev) => prev.funding_rate,
                None => Rate { raw: 0 },
            })
            &&& (spec_read(m, exchange, symbol) is Some && spec_read(
                m,
                exchange,
                symbol,
            )->Some_0.timestamp <= timestamp ==> spec_read(m2, exchange, symbol)->Some_0.timestamp
                >= spec_read(m, exchange, symbol)->Some_0.timestamp)
            &&& forall|k: (Exchange, Seq<char>)|
                k != (exchange, symbol) ==> #[trigger] spec_read(m2, k.0, k.1) == spec_read(
                    m,
                    k.0,
                    k.1,
                )
        }),
{
}

/// After a funding update, a read of the same key returns exactly the written
/// funding rate with the written timestamp; the price fields are unaffected
/// by the funding-only update; and every other key is untouched.
pub proof fn lemma_read_after_funding_update(
    m: Map<(Exchange, Seq<char>), SymbolData>,
    exchange: Exchange,
    symbol: Seq<char>,
    funding: Rate,
    timestamp: u64,
)
    ensures
        ({
            let m2 = m.insert(
                (exchange, symbol),
                funding_updated(spec_read(m, exchange, symbol), funding, timestamp),
            );
            &&& spec_read(m2, exchange, symbol) matches Some(d) && d.funding_rate == funding
                && d.timestamp == timestamp
            &&& (match spec_read(m, exchange, symbol) {
                Some(prev) => spec_read(m2, exchange, symbol)->Some_0.bid == prev.bid && spec_read(
                    m2,
                    exchange,
                    symbol,
                )->Some_0.ask == prev.ask && spec_read(m2, exchange, symbol)->Some_0.last_price
                    == prev.last_price,
                None => spec_read(m2, exchange, symbol)->Some_0.bid == Price { raw: 0 }
                    && spec_read(m2, exchange, symbol)->Some_0.ask == Price { raw: 0 }
                    && spec_read(m2, exchange, symbol)->Some_0.last_price == Price { raw: 0 },
            })
            &&& forall|k: (Exchange, Seq<char>)|
                k != (exchange, symbol) ==> #[trigger] spec_read(m2, k.0, k.1) == spec_read(
                    m,
                    k.0,
                    k.1,
                )
        }),
{
}

/// A read of a key that has never been written returns nothing: a fresh store
/// yields no record for any key, so no phantom all-zero record can be
/// observed.
pub proof fn lemma_read_never_written(
    m: Map<(Exchange, Seq<char>), SymbolData>,
    exchange: Exchange,
    symbol: Seq<char>,
)
    ensures
        !m.contains_key((exchange, symbol)) ==> spec_read(m, exchange, symbol) is None,
        m == empty_store_model() ==> spec_read(m, exchange, symbol) is None,
        spec_read(m, exchange, symbol) matches Some(d) ==> m.contains_key((exchange, symbol))
            && m[(exchange, symbol)] == d,
{
}

} // verus!
