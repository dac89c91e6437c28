//! The venue-C adapter (GMO-style protocol).
//!
//! A single ticker channel carries every subscribed symbol.  The
//! foreign-exchange pair routes to its own slot, a currency-suffixed symbol
//! is stripped of the suffix and stored as the derivative leg, and an
//! unsuffixed symbol is stored under the asset name with a spot suffix.

use vstd::prelude::*;
use crate::json::{jparse, jtext_of_field, json_as_str, json_get, json_parse};
use crate::num::Price;
use crate::parse::{parse_price, spec_parse_price};
use crate::store::{price_written, Exchange, MarketStore, SymbolData};
use crate::text::{concat_str, str_eq_str, strip_suffix_str};

verus! {

/// The store key a raw ticker symbol routes to: the foreign-exchange pair
/// stays itself, a currency-suffixed symbol loses its suffix, and a bare
/// symbol gains the spot suffix.
pub open spec fn gmo_key(symbol: Seq<char>) -> Seq<char> {
    if symbol == "USD_JPY"@ {
        symbol
    } else if "_JPY"@.is_suffix_of(symbol) {
        symbol.subrange(0, symbol.len() - "_JPY"@.len())
    } else {
        symbol + "_SPOT"@
    }
}

/// The mid price of a best bid and ask.
pub open spec fn spec_mid(bid: Price, ask: Price) -> Price {
    Price { raw: ((bid.raw + ask.raw) / 2) as i128 }
}

/// The ticker fields a frame's text decodes to: the symbol, bid and ask
/// strings of a ticker-channel object carrying all three, else nothing.
pub open spec fn spec_gmo_ticker(text: Seq<char>) -> Option<(Seq<char>, Seq<char>, Seq<char>)> {
    match jparse(text) {
        Some(v) => if jtext_of_field(v, "channel"@) == Some("ticker"@) {
            match (jtext_of_field(v, "symbol"@), jtext_of_field(v, "bid"@), jtext_of_field(
                v,
                "ask"@,
            )) {
                (Some(s), Some(b), Some(a)) => Some((s, b, a)),
                _ => None,
            }
        } else {
            None
        },
        None => None,
    }
}

/// The store change one decoded ticker owes: the routed write of the parsed
/// bid, ask and their mid when both price strings parse; no change otherwise.
pub open spec fn gmo_ticker_post(
    before: Map<(Exchange, Seq<char>), SymbolData>,
    after: Map<(Exchange, Seq<char>), SymbolData>,
    symbol: Seq<char>,
    bid_str: Seq<char>,
    ask_str: Seq<char>,
) -> bool {
    match (spec_parse_price(bid_str), spec_parse_price(ask_str)) {
        (Some(b), Some(a)) => price_written(
            before,
            after,
            Exchange::Gmo,
            gmo_key(symbol),
            b,
            a,
            spec_mid(b, a),
        ),
        _ => after == before,
    }
}

/// Stores one decoded ticker under the key its symbol routes to; a frame
/// whose bid or ask does not parse is dropped.
pub fn gmo_apply_ticker(symbol: &str, bid_str: &str, ask_str: &str, store: &mut MarketStore)
    requires
        old(store).inv(),
    ensures
        final(store).inv(),
        gmo_ticker_post(old(store)@, final(store)@, symbol@, bid_str@, ask_str@),
{
    let bid = match parse_price(bid_str) {
        Some(b) => b,
        None => {
            return ;
        },
    };
    let ask = match parse_price(ask_str) {
        Some(a) => a,
        None => {
            return ;
        },
    };
    let mid = Price { raw: crate::num::div_nonneg(bid.raw + ask.raw, 2) };
    if str_eq_str(symbol, "USD_JPY") {
        store.update_market_data(Exchange::Gmo, symbol, bid, ask, mid);
    } else {
        match strip_suffix_str(symbol, "_JPY") {
            Some(head) => {
                store.update_market_data(Exchange::Gmo, head.as_str(), bid, ask, mid);
            },
            None => {
                let key = concat_str(symbol, "_SPOT");
                store.update_market_data(Exchange::Gmo, key.as_str(), bid, ask, mid);
            },
        }
    }
    proof {
        assert(price_written(
            old(store)@,
            store@,
            Exchange::Gmo,
            gmo_key(symbol@),
            bid,
            ask,
            spec_mid(bid, ask),
        ));
    }
}

/// Handles one incoming frame: a ticker message with its symbol, bid and ask
/// present is routed to the store exactly as `gmo_apply_ticker` specifies;
/// any other frame leaves the store unchanged.
pub fn gmo_handle_text(text: &str, store: &mut MarketStore)
    requires
        old(store).inv(),
    ensures
        final(store).inv(),
        match spec_gmo_ticker(text@) {
            Some(f) => gmo_ticker_post(old(store)@, final(store)@, f.0, f.1, f.2),
            None => final(store)@ == old(store)@,
        },
{
    let v = match json_parse(text) {
        Some(v) => v,
        None => {
            return ;
        },
    };
    let channel = match json_get(&v, "channel") {
        Some(c) => match json_as_str(c) {
            Some(s) => s,
            None => {
                return ;
            },
        },
        None => {
            return ;
        },
    };
    if !str_eq_str(channel, "ticker") {
        return ;
    }
    let symbol = match json_get(&v, "symbol") {
        Some(s) => match json_as_str(s) {
            Some(s) => s,
            None => {
                return ;
            },
        },
        None => {
            return ;
        },
    };
    let bid_str = match json_get(&v, "bid") {
        Some(b) => match json_as_str(b) {
            Some(s) => s,
            None => {
                return ;
            },
        },
        None => {
            return ;
        },
    };
    let ask_str = match json_get(&v, "ask") {
        Some(a) => match json_as_str(a) {
            Some(s) => s,
            None => {
                return ;
            },
        },
        None => {
            return ;
        },
    };
    gmo_apply_ticker(symbol, bid_str, ask_str, store);
}

/// The text of the ticker subscription request for a symbol.
pub open spec fn spec_gmo_payload(symbol: Seq<char>) -> Seq<char> {
    "{\"command\":\"subscribe\",\"channel\":\"ticker\",\"symbol\":\""@ + symbol
        + "\"}"@
}

/// The ticker subscription request for a symbol.
pub fn gmo_subscribe_payload(symbol: &str) -> (r: String)
    ensures
        r@ == spec_gmo_payload(symbol@),
{
    let head = concat_str(
        "{\"command\":\"subscribe\",\"channel\":\"ticker\",\"symbol\":\"",
        symbol,
    );
    concat_str(head.as_str(), "\"}")
}

/// The currency-suffixed (leveraged) form of an asset symbol.
pub fn leveraged_symbol(symbol: &str) -> (r: String)
    ensures
        r@ == symbol@ + "_JPY"@,
{
    concat_str(symbol, "_JPY")
}

/// The texts of the full ordered subscription sequence the venue needs: the
/// foreign-exchange ticker first, then, per symbol in the given order, the
/// bare (spot) form and the currency-suffixed (leveraged) form.
pub open spec fn spec_gmo_subscriptions(symbols: Seq<Seq<char>>) -> Seq<Seq<char>>
    decreases symbols.len(),
{
    if symbols.len() == 0 {
        seq![spec_gmo_payload("USD_JPY"@)]
    } else {
        spec_gmo_subscriptions(symbols.drop_last()) + seq![
            spec_gmo_payload(symbols.last()),
            spec_gmo_payload(symbols.last() + "_JPY"@),
        ]
    }
}

/// The full ordered subscription sequence for the given symbols.
pub fn gmo_subscription_payloads(symbols: &Vec<String>) -> (r: Vec<String>)
    ensures
        r@.map_values(|p: String| p@) == spec_gmo_subscriptions(
            symbols@.map_values(|s: String| s@),
        ),
{
    let ghost svs: Seq<Seq<char>> = symbols@.map_values(|s: String| s@);
    let mut out: Vec<String> = Vec::new();
    out.push(gmo_subscribe_payload("USD_JPY"));
    proof {
        assert(svs.take(0) =~= Seq::<Seq<char>>::empty());
        assert(out@.map_values(|p: String| p@) =~= spec_gmo_subscriptions(svs.take(0)));
    }
    let mut i: usize = 0;
    while i < symbols.len()
        invariant
            i <= symbols@.len(),
            svs == symbols@.map_values(|s: String| s@),
            out@.map_values(|p: String| p@) == spec_gmo_subscriptions(svs.take(i as int)),
        decreases symbols@.len() - i,
    {
        let sym = &symbols[i];
        out.push(gmo_subscribe_payload(sym.as_str()));
        let lev = leveraged_symbol(sym.as_str());
        out.push(gmo_subscribe_payload(lev.as_str()));
        i = i + 1;
        proof {
            assert(svs.take(i as int).drop_last() =~= svs.take(i - 1));
            assert(svs.take(i as int).last() == svs[i - 1]);
            assert(out@.map_values(|p: String| p@) =~= spec_gmo_subscriptions(
                svs.take(i as int),
            ));
        }
    }
    proof {
        assert(svs.take(symbols@.len() as int) =~= svs);
    }
    out
}

} // verus!
