//! The venue-D adapter (Kraken-style protocol, foreign exchange only).
//!
//! Messages are either an array — channel id, data, channel name, pair — or
//! an object carrying system events, which are ignored.  The last-trade
//! price of an array message is stored as bid, ask and last of the one
//! foreign-exchange key.

use vstd::prelude::*;
use crate::json::{
    jelems, jfield, jis_array, jitem, jparse, jtext, json_as_array, json_as_str, json_get,
    json_get_index, json_is_array, json_parse,
};
use crate::num::Price;
use crate::parse::{parse_price, spec_parse_price};
use crate::store::{price_written, Exchange, MarketStore, SymbolData};

verus! {

/// The last-trade price string a frame's text decodes to: the first element
/// of the `c` array of an array-form message's data object, else nothing.
pub open spec fn spec_kraken_price(text: Seq<char>) -> Option<Seq<char>> {
    match jparse(text) {
        Some(v) => if jis_array(v) {
            match jitem(v, 1) {
                Some(d) => match jfield(d, "c"@) {
                    Some(c) => match jelems(c) {
                        Some(elems) => if elems.len() > 0 {
                            jtext(elems[0])
                        } else {
                            None
                        },
                        None => None,
                    },
                    None => None,
                },
                None => None,
            }
        } else {
            None
        },
        None => None,
    }
}

/// The store change one decoded last-trade price owes: the write of the
/// parsed price as bid, ask and last of the foreign-exchange key when the
/// string parses; no change otherwise.
pub open spec fn kraken_fx_post(
    before: Map<(Exchange, Seq<char>), SymbolData>,
    after: Map<(Exchange, Seq<char>), SymbolData>,
    price_str: Seq<char>,
) -> bool {
    match spec_parse_price(price_str) {
        Some(p) => price_written(before, after, Exchange::Kraken, "USD_JPY"@, p, p, p),
        None => after == before,
    }
}

/// Stores one decoded last-trade price as bid, ask and last of the
/// foreign-exchange key; a price string that does not parse is dropped.
pub fn kraken_store_fx(price_str: &str, store: &mut MarketStore)
    requires
        old(store).inv(),
    ensures
        final(store).inv(),
        kraken_fx_post(old(store)@, final(store)@, price_str@),
{
    match parse_price(price_str) {
        Some(p) => {
            store.update_market_data(Exchange::Kraken, "USD_JPY", p, p, p);
            proof {
                assert(price_written(
                    old(store)@,
                    store@,
                    Exchange::Kraken,
                    "USD_JPY"@,
                    p,
                    p,
                    p,
                ));
            }
        },
        None => {},
    }
}

/// Handles one incoming frame: the last-trade price of an array-form ticker
/// message is routed to the store exactly as `kraken_store_fx` specifies;
/// object-form system events, heartbeats among them, leave it unchanged.
pub fn kraken_handle_text(text: &str, store: &mut MarketStore)
    requires
        old(store).inv(),
    ensures
        final(store).inv(),
        match spec_kraken_price(text@) {
            Some(ps) => kraken_fx_post(old(store)@, final(store)@, ps),
            None => final(store)@ == old(store)@,
        },
{
    let v = match json_parse(text) {
        Some(v) => v,
        None => {
            return ;
        },
    };
    if !json_is_array(&v) {
        return ;
    }
    let data = match json_get_index(&v, 1) {
        Some(d) => d,
        None => {
            return ;
        },
    };
    let last_arr = match json_get(data, "c") {
        Some(c) => match json_as_array(c) {
            Some(a) => a,
            None => {
                return ;
            },
        },
        None => {
            return ;
        },
    };
    if last_arr.len() == 0 {
        return ;
    }
    let price_str = match json_as_str(&last_arr[0]) {
        Some(s) => s,
        None => {
            return ;
        },
    };
    kraken_store_fx(price_str, store);
}

/// The one subscription request this venue needs: the foreign-exchange pair
/// ticker.
pub fn kraken_subscribe_payload() -> (r: &'static str)
    ensures
        r@ == "{\"event\":\"subscribe\",\"pair\":[\"USD/JPY\"],\"subscription\":{\"name\":\"ticker\"}}"@,
{
    "{\"event\":\"subscribe\",\"pair\":[\"USD/JPY\"],\"subscription\":{\"name\":\"ticker\"}}"
}

} // verus!
