//! The venue-A adapter (Hyperliquid-style protocol).
//!
//! Order-book frames carry best bid and ask as string prices; a raw
//! identifier starting with `@` denotes a spot market and is reverse-mapped
//! through a name-to-id table to the canonical asset name, then stored under
//! the asset name with a spot suffix; a marked identifier the table cannot
//! map falls back to the raw identifier itself as the asset name (see
//! `hl_book_key`); an unmarked identifier is stored under the bare name as
//! the derivative leg.  Context frames carry the funding rate.

use vstd::prelude::*;
use vstd::string::StrSliceExecFns;
use crate::json::{
    jelems_at, jfield, jparse, jtext_of_field, json_as_array, json_as_str, json_get,
    json_get_index, json_parse,
};
use crate::num::Price;
use crate::parse::{parse_plain_u32, parse_price, parse_rate, spec_parse_u32};
use crate::store::{funding_written, price_written, Exchange, MarketStore, SymbolData};
use crate::text::{concat_str, str_eq_str, u32_to_string};

verus! {

/// One association of a canonical asset name with the venue's numeric spot
/// identifier.
pub struct SpotEntry {
    pub name: String,
    pub id: u32,
}

/// The name-to-spot-id table, loaded once at adapter start; lookups in both
/// directions take the first matching entry.
pub struct SpotMap {
    pub entries: Vec<SpotEntry>,
}

impl View for SpotMap {
    type V = Seq<(Seq<char>, u32)>;

    open spec fn view(&self) -> Seq<(Seq<char>, u32)> {
        self.entries@.map_values(|e: SpotEntry| (e.name@, e.id))
    }
}

/// The id of the first entry carrying the name.
pub open spec fn lookup_id(entries: Seq<(Seq<char>, u32)>, name: Seq<char>) -> Option<u32>
    decreases entries.len(),
{
    if entries.len() == 0 {
        None
    } else if entries[0].0 == name {
        Some(entries[0].1)
    } else {
        lookup_id(entries.drop_first(), name)
    }
}

/// The name of the first entry carrying the id.
pub open spec fn lookup_name(entries: Seq<(Seq<char>, u32)>, id: u32) -> Option<Seq<char>>
    decreases entries.len(),
{
    if entries.len() == 0 {
        None
    } else if entries[0].1 == id {
        Some(entries[0].0)
    } else {
        lookup_name(entries.drop_first(), id)
    }
}

/// What resolving a raw spot identifier yields: for `@` followed by digits
/// naming a mapped id, the canonical asset name; otherwise nothing.
pub open spec fn spec_resolve(entries: Seq<(Seq<char>, u32)>, coin: Seq<char>) -> Option<
    Seq<char>,
> {
    if coin.len() >= 1 && coin[0] == '@' {
        match spec_parse_u32(coin.skip(1)) {
            Some(id) => lookup_name(entries, id),
            None => None,
        }
    } else {
        None
    }
}

impl SpotMap {
    /// The compiled-in fallback table for the known asset set, used when no
    /// external table is available.
    pub fn defaults() -> (r: SpotMap)
        ensures
            r@ =~= seq![
                ("BTC"@, 142u32),
                ("ETH"@, 151u32),
                ("SOL"@, 156u32),
                ("HYPE"@, 107u32),
            ],
    {
        let mut entries: Vec<SpotEntry> = Vec::new();
        entries.push(SpotEntry { name: "BTC".to_owned(), id: 142 });
        entries.push(SpotEntry { name: "ETH".to_owned(), id: 151 });
        entries.push(SpotEntry { name: "SOL".to_owned(), id: 156 });
        entries.push(SpotEntry { name: "HYPE".to_owned(), id: 107 });
        SpotMap { entries }
    }

    /// Builds the table from externally loaded name and id pairs, kept in
    /// their given order.
    pub fn from_pairs(pairs: Vec<(String, u32)>) -> (r: SpotMap)
        ensures
            r@ == pairs@.map_values(|p: (String, u32)| (p.0@, p.1)),
    {
        let mut entries: Vec<SpotEntry> = Vec::new();
        let mut k: usize = 0;
        while k < pairs.len()
            invariant
                k <= pairs@.len(),
                entries@.len() == k,
                forall|i: int|
                    0 <= i < k ==> (#[trigger] entries@[i].name@, entries@[i].id) == (
                        pairs@[i].0@,
                        pairs@[i].1,
                    ),
            decreases pairs@.len() - k,
        {
            let name = pairs[k].0.clone();
            let id = pairs[k].1;
            entries.push(SpotEntry { name, id });
            k = k + 1;
        }
        let r = SpotMap { entries };
        proof {
            assert(r@ =~= pairs@.map_values(|p: (String, u32)| (p.0@, p.1)));
        }
        r
    }

    /// The venue's numeric spot id for an asset name, when the table has one.
    pub fn spot_id(&self, name: &str) -> (r: Option<u32>)
        ensures
            r == lookup_id(self@, name@),
    {
        let mut k: usize = 0;
        proof {
            assert(self@.skip(0) =~= self@);
        }
        while k < self.entries.len()
            invariant
                k <= self.entries@.len(),
                lookup_id(self@, name@) == lookup_id(self@.skip(k as int), name@),
            decreases self.entries@.len() - k,
        {
            proof {
                assert(self@.skip(k as int).drop_first() =~= self@.skip(k + 1));
                assert(self@.skip(k as int)[0] == self@[k as int]);
            }
            if str_eq_str(self.entries[k].name.as_str(), name) {
                return Some(self.entries[k].id);
            }
            k = k + 1;
        }
        proof {
            assert(self@.skip(self@.len() as int) =~= Seq::<(Seq<char>, u32)>::empty());
        }
        None
    }

    /// The canonical asset name for a numeric spot id, when the table has
    /// one.
    pub fn spot_name(&self, id: u32) -> (r: Option<String>)
        ensures
            match r {
                Some(name) => lookup_name(self@, id) == Some(name@),
                None => lookup_name(self@, id) is None,
            },
    {
        let mut k: usize = 0;
        proof {
            assert(self@.skip(0) =~= self@);
        }
        while k < self.entries.len()
            invariant
                k <= self.entries@.len(),
                lookup_name(self@, id) == lookup_name(self@.skip(k as int), id),
            decreases self.entries@.len() - k,
        {
            proof {
                assert(self@.skip(k as int).drop_first() =~= self@.skip(k + 1));
                assert(self@.skip(k as int)[0] == self@[k as int]);
            }
            if self.entries[k].id == id {
                return Some(self.entries[k].name.clone());
            }
            k = k + 1;
        }
        proof {
            assert(self@.skip(self@.len() as int) =~= Seq::<(Seq<char>, u32)>::empty());
        }
        None
    }

    /// Reverse-maps a raw marked identifier such as `@142` to the canonical
    /// asset name; nothing for an unmarked or unmapped identifier.
    pub fn resolve_spot_coin(&self, coin: &str) -> (r: Option<String>)
        ensures
            match r {
                Some(name) => spec_resolve(self@, coin@) == Some(name@),
                None => spec_resolve(self@, coin@) is None,
            },
    {
        let len = coin.unicode_len();
        if len == 0 || coin.get_char(0) != '@' {
            return None;
        }
        let digits = coin.substring_char(1, len);
        match parse_plain_u32(digits) {
            Some(id) => self.spot_name(id),
            None => None,
        }
    }
}

/// The venue's spot identifier as wire text: `@` followed by the id digits.
pub fn spot_coin_string(id: u32) -> (r: String)
    ensures
        r@ == spec_spot_coin(id),
{
    let digits = u32_to_string(id);
    concat_str("@", digits.as_str())
}

/// The store key a book frame routes to: a marked identifier goes under the
/// resolved asset name with the spot suffix; an unmarked identifier goes
/// under itself as the derivative leg.  A marked identifier the table cannot
/// map falls back to the raw identifier as the asset name, so its data lands
/// under a key such as the raw id with the spot suffix — deliberate
/// defensive routing, kept pending product-owner confirmation.
pub open spec fn hl_book_key(entries: Seq<(Seq<char>, u32)>, coin: Seq<char>) -> Seq<char> {
    if coin.len() >= 1 && coin[0] == '@' {
        match spec_resolve(entries, coin) {
            Some(name) => name + "_SPOT"@,
            None => coin + "_SPOT"@,
        }
    } else {
        coin
    }
}

/// The mid price of a best bid and ask.
pub open spec fn spec_mid_price(bid: Price, ask: Price) -> Price {
    Price { raw: ((bid.raw + ask.raw) / 2) as i128 }
}

/// Routes one decoded order-book top to the store: the write under the key
/// the identifier routes to, an unmapped marked identifier included (the
/// fallback `hl_book_key` describes).
pub fn hl_apply_book(
    coin: &str,
    bid: Price,
    ask: Price,
    map: &SpotMap,
    store: &mut MarketStore,
)
    requires
        old(store).inv(),
        bid.wf(),
        ask.wf(),
    ensures
        final(store).inv(),
        price_written(
            old(store)@,
            final(store)@,
            Exchange::Hyperliquid,
            hl_book_key(map@, coin@),
            bid,
            ask,
            spec_mid_price(bid, ask),
        ),
{
    let mid = Price { raw: crate::num::div_nonneg(bid.raw + ask.raw, 2) };
    let len = coin.unicode_len();
    if len > 0 && coin.get_char(0) == '@' {
        let name = match map.resolve_spot_coin(coin) {
            Some(name) => name,
            None => coin.to_owned(),
        };
        let key = concat_str(name.as_str(), "_SPOT");
        store.update_market_data(Exchange::Hyperliquid, key.as_str(), bid, ask, mid);
        proof {
            assert(price_written(
                old(store)@,
                store@,
                Exchange::Hyperliquid,
                name@ + "_SPOT"@,
                bid,
                ask,
                spec_mid_price(bid, ask),
            ));
        }
    } else {
        store.update_market_data(Exchange::Hyperliquid, coin, bid, ask, mid);
        proof {
            assert(price_written(
                old(store)@,
                store@,
                Exchange::Hyperliquid,
                coin@,
                bid,
                ask,
                spec_mid_price(bid, ask),
            ));
        }
    }
}

/// The top-of-book price strings of an order-book data object: the `px`
/// fields of the first bid and the first ask of the two side arrays.
pub open spec fn spec_book_top(data: serde_json::Value) -> Option<(Seq<char>, Seq<char>)> {
    match jfield(data, "levels"@) {
        Some(levels) => match (jelems_at(levels, 0), jelems_at(levels, 1)) {
            (Some(bids), Some(asks)) => if bids.len() > 0 && asks.len() > 0 {
                match (jtext_of_field(bids[0], "px"@), jtext_of_field(asks[0], "px"@)) {
                    (Some(b), Some(a)) => Some((b, a)),
                    _ => None,
                }
            } else {
                None
            },
            _ => None,
        },
        None => None,
    }
}

/// The book fields a frame's text decodes to: the coin and the top-of-book
/// price strings of an order-book channel frame, else nothing.
pub open spec fn spec_hl_book(text: Seq<char>) -> Option<(Seq<char>, Seq<char>, Seq<char>)> {
    match jparse(text) {
        Some(v) => if jtext_of_field(v, "channel"@) == Some("l2Book"@) {
            match jfield(v, "data"@) {
                Some(data) => match (jtext_of_field(data, "coin"@), spec_book_top(data)) {
                    (Some(c), Some(t)) => Some((c, t.0, t.1)),
                    _ => None,
                },
                None => None,
            }
        } else {
            None
        },
        None => None,
    }
}

/// The coin and funding-rate string of a context data object, else nothing.
pub open spec fn spec_ctx_fields(data: serde_json::Value) -> Option<(Seq<char>, Seq<char>)> {
    match (jtext_of_field(data, "coin"@), (match jfield(data, "ctx"@) {
        Some(ctx) => jtext_of_field(ctx, "funding"@),
        None => None,
    })) {
        (Some(c), Some(f)) => Some((c, f)),
        _ => None,
    }
}

/// The context fields a frame's text decodes to: the coin and funding-rate
/// string of a derivative-context channel frame, else nothing.
pub open spec fn spec_hl_ctx(text: Seq<char>) -> Option<(Seq<char>, Seq<char>)> {
    match jparse(text) {
        Some(v) => if jtext_of_field(v, "channel"@) == Some("activeAssetCtx"@) {
            match jfield(v, "data"@) {
                Some(data) => spec_ctx_fields(data),
                None => None,
            }
        } else {
            None
        },
        None => None,
    }
}

/// The store change one decoded book frame owes: the routed write of the
/// parsed bid, ask and their mid when both price strings parse; no change
/// otherwise.
pub open spec fn hl_book_post(
    entries: Seq<(Seq<char>, u32)>,
    before: Map<(Exchange, Seq<char>), SymbolData>,
    after: Map<(Exchange, Seq<char>), SymbolData>,
    coin: Seq<char>,
    bid_str: Seq<char>,
    ask_str: Seq<char>,
) -> bool {
    match (crate::parse::spec_parse_price(bid_str), crate::parse::spec_parse_price(ask_str)) {
        (Some(b), Some(a)) => price_written(
            before,
            after,
            Exchange::Hyperliquid,
            hl_book_key(entries, coin),
            b,
            a,
            spec_mid_price(b, a),
        ),
        _ => after == before,
    }
}

/// The store change one decoded context frame owes: the funding write when
/// the rate string parses; no change otherwise.
pub open spec fn hl_funding_post(
    before: Map<(Exchange, Seq<char>), SymbolData>,
    after: Map<(Exchange, Seq<char>), SymbolData>,
    coin: Seq<char>,
    funding_str: Seq<char>,
) -> bool {
    match crate::parse::spec_parse_rate(funding_str) {
        Some(f) => funding_written(before, after, Exchange::Hyperliquid, coin, f),
        None => after == before,
    }
}

/// Extracts the best bid and ask prices of an order-book frame's two side
/// arrays; nothing when the frame lacks them or a price string is malformed.
pub fn parse_bid_ask(data: &serde_json::Value) -> (r: Option<(Price, Price)>)
    ensures
        r == (match spec_book_top(*data) {
            Some(t) => match (
                crate::parse::spec_parse_price(t.0),
                crate::parse::spec_parse_price(t.1),
            ) {
                (Some(b), Some(a)) => Some((b, a)),
                _ => None::<(Price, Price)>,
            },
            None => None::<(Price, Price)>,
        }),
        r matches Some(pair) ==> pair.0.wf() && pair.1.wf(),
{
    let levels = match json_get(data, "levels") {
        Some(v) => v,
        None => {
            return None;
        },
    };
    let bids = match json_get_index(levels, 0) {
        Some(v) => match json_as_array(v) {
            Some(a) => a,
            None => {
                return None;
            },
        },
        None => {
            return None;
        },
    };
    let asks = match json_get_index(levels, 1) {
        Some(v) => match json_as_array(v) {
            Some(a) => a,
            None => {
                return None;
            },
        },
        None => {
            return None;
        },
    };
    if bids.len() == 0 || asks.len() == 0 {
        return None;
    }
    let bid_str = match json_get(&bids[0], "px") {
        Some(v) => match json_as_str(v) {
            Some(s) => s,
            None => {
                return None;
            },
        },
        None => {
            return None;
        },
    };
    let ask_str = match json_get(&asks[0], "px") {
        Some(v) => match json_as_str(v) {
            Some(s) => s,
            None => {
                return None;
            },
        },
        None => {
            return None;
        },
    };
    match (parse_price(bid_str), parse_price(ask_str)) {
        (Some(bid), Some(ask)) => Some((bid, ask)),
        _ => None,
    }
}

/// Handles a context frame: stores the funding rate under the frame's coin.
fn process_asset_ctx(data: &serde_json::Value, store: &mut MarketStore)
    requires
        old(store).inv(),
    ensures
        final(store).inv(),
        match spec_ctx_fields(*data) {
            Some(cf) => hl_funding_post(old(store)@, final(store)@, cf.0, cf.1),
            None => final(store)@ == old(store)@,
        },
{
    let coin = match json_get(data, "coin") {
        Some(v) => match json_as_str(v) {
            Some(s) => s,
            None => {
                return ;
            },
        },
        None => {
            return ;
        },
    };
    let funding_str = match json_get(data, "ctx") {
        Some(ctx) => match json_get(ctx, "funding") {
            Some(v) => match json_as_str(v) {
                Some(s) => s,
                None => {
                    return ;
                },
            },
            None => {
                return ;
            },
        },
        None => {
            return ;
        },
    };
    match parse_rate(funding_str) {
        Some(funding) => {
            store.update_funding_rate(Exchange::Hyperliquid, coin, funding);
            proof {
                assert(funding_written(
                    old(store)@,
                    store@,
                    Exchange::Hyperliquid,
                    coin@,
                    funding,
                ));
            }
        },
        None => {},
    }
}

/// Handles one incoming frame: an order-book frame performs exactly the
/// write `hl_apply_book` specifies, a context frame exactly the funding
/// write; a malformed or irrelevant frame leaves the store unchanged.
pub fn handle_message(text: &str, store: &mut MarketStore, map: &SpotMap)
    requires
        old(store).inv(),
    ensures
        final(store).inv(),
        match spec_hl_book(text@) {
            Some(b) => hl_book_post(map@, old(store)@, final(store)@, b.0, b.1, b.2),
            None => match spec_hl_ctx(text@) {
                Some(c) => hl_funding_post(old(store)@, final(store)@, c.0, c.1),
                None => final(store)@ == old(store)@,
            },
        },
{
    proof {
        reveal_strlit("l2Book");
        reveal_strlit("activeAssetCtx");
        assert(("l2Book"@).len() != ("activeAssetCtx"@).len());
        assert("l2Book"@ != "activeAssetCtx"@);
    }
    let v = match json_parse(text) {
        Some(v) => v,
        None => {
            return ;
        },
    };
    let channel = match json_get(&v, "channel") {
        Some(c) => match json_as_str(c) {
            Some(s) => s,
            None => {
                return ;
            },
        },
        None => {
            return ;
        },
    };
    if str_eq_str(channel, "l2Book") {
        let data = match json_get(&v, "data") {
            Some(d) => d,
            None => {
                return ;
            },
        };
        let coin = match json_get(data, "coin") {
            Some(c) => match json_as_str(c) {
                Some(s) => s,
                None => {
                    return ;
                },
            },
            None => {
                return ;
            },
        };
        match parse_bid_ask(data) {
            Some(pair) => {
                hl_apply_book(coin, pair.0, pair.1, map, store);
            },
            None => {},
        }
    } else if str_eq_str(channel, "activeAssetCtx") {
        let data = match json_get(&v, "data") {
            Some(d) => d,
            None => {
                return ;
            },
        };
        process_asset_ctx(data, store);
    }
}

/// The text of the order-book subscription request for a coin.
pub open spec fn spec_l2_payload(coin: Seq<char>) -> Seq<char> {
    "{\"method\":\"subscribe\",\"subscription\":{\"type\":\"l2Book\",\"coin\":\""@
        + coin + "\"}}"@
}

/// The text of the derivative-context subscription request for a coin.
pub open spec fn spec_ctx_payload(coin: Seq<char>) -> Seq<char> {
    "{\"method\":\"subscribe\",\"subscription\":{\"type\":\"activeAssetCtx\",\"coin\":\""@
        + coin + "\"}}"@
}

/// The wire text of a numeric spot identifier.
pub open spec fn spec_spot_coin(id: u32) -> Seq<char> {
    "@"@ + crate::text::spec_decimal_digits(id as int)
}

/// The order-book subscription request for a coin.
pub fn subscribe_l2_payload(coin: &str) -> (r: String)
    ensures
        r@ == spec_l2_payload(coin@),
{
    let head = concat_str(
        "{\"method\":\"subscribe\",\"subscription\":{\"type\":\"l2Book\",\"coin\":\"",
        coin,
    );
    concat_str(head.as_str(), "\"}}")
}

/// The derivative-context subscription request for a coin.
pub fn subscribe_ctx_payload(coin: &str) -> (r: String)
    ensures
        r@ == spec_ctx_payload(coin@),
{
    let head = concat_str(
        "{\"method\":\"subscribe\",\"subscription\":{\"type\":\"activeAssetCtx\",\"coin\":\"",
        coin,
    );
    concat_str(head.as_str(), "\"}}")
}

/// The texts of the ordered requests one symbol needs: its order-book and
/// derivative-context channels, then its spot order book only when the table
/// maps the symbol to a spot id.
pub open spec fn spec_symbol_subscriptions(
    entries: Seq<(Seq<char>, u32)>,
    sym: Seq<char>,
) -> Seq<Seq<char>> {
    seq![spec_l2_payload(sym), spec_ctx_payload(sym)] + (match lookup_id(entries, sym) {
        Some(id) => seq![spec_l2_payload(spec_spot_coin(id))],
        None => Seq::empty(),
    })
}

/// The texts of the full ordered subscription sequence the venue needs:
/// per symbol in the given order, the per-symbol requests; an unmapped
/// symbol's spot subscription is simply omitted.
pub open spec fn spec_hl_subscriptions(
    entries: Seq<(Seq<char>, u32)>,
    symbols: Seq<Seq<char>>,
) -> Seq<Seq<char>>
    decreases symbols.len(),
{
    if symbols.len() == 0 {
        Seq::empty()
    } else {
        spec_hl_subscriptions(entries, symbols.drop_last()) + spec_symbol_subscriptions(
            entries,
            symbols.last(),
        )
    }
}

/// The full ordered subscription sequence for the given symbols and table.
pub fn hl_subscription_payloads(symbols: &Vec<String>, map: &SpotMap) -> (r: Vec<String>)
    ensures
        r@.map_values(|p: String| p@) == spec_hl_subscriptions(
            map@,
            symbols@.map_values(|s: String| s@),
        ),
{
    let ghost svs: Seq<Seq<char>> = symbols@.map_values(|s: String| s@);
    let mut out: Vec<String> = Vec::new();
    proof {
        assert(svs.take(0) =~= Seq::<Seq<char>>::empty());
        assert(out@.map_values(|p: String| p@) =~= spec_hl_subscriptions(map@, svs.take(0)));
    }
    let mut i: usize = 0;
    while i < symbols.len()
        invariant
            i <= symbols@.len(),
            svs == symbols@.map_values(|s: String| s@),
            out@.map_values(|p: String| p@) == spec_hl_subscriptions(map@, svs.take(i as int)),
        decreases symbols@.len() - i,
    {
        let sym = &symbols[i];
        out.push(subscribe_l2_payload(sym.as_str()));
        out.push(subscribe_ctx_payload(sym.as_str()));
        match map.spot_id(sym.as_str()) {
            Some(id) => {
                let coin = spot_coin_string(id);
                out.push(subscribe_l2_payload(coin.as_str()));
            },
            None => {},
        }
        i = i + 1;
        proof {
            assert(svs.take(i as int).drop_last() =~= svs.take(i - 1));
            assert(svs.take(i as int).last() == svs[i - 1]);
            assert(out@.map_values(|p: String| p@) =~= spec_hl_subscriptions(
                map@,
                svs.take(i as int),
            ));
        }
    }
    proof {
        assert(svs.take(symbols@.len() as int) =~= svs);
    }
    out
}

} // verus!
