//! The evaluation cycle's decision logic: which store keys make up an
//! asset's legs, how a point-in-time slice of the store becomes an engine
//! input, and when a found opportunity is worth reporting.  The loop that
//! schedules these decisions lives outside the library.

use vstd::prelude::*;
use vstd::string::StringExecFns;
use crate::num::{Price, Rate, MAX_FX_RAW};
use crate::store::{spec_read, Exchange, MarketStore, SymbolData};
use crate::strategy::{
    find_best_arbitrage_with, legs_for, legs_wf, opportunity_for, scan_best, ArbitrageOpportunity,
    Asset, Currency, EngineConfig, InstrumentType, MarketData,
};
use crate::text::concat_str;

verus! {

/// Net profit percentage above which an opportunity is reported: 0.05%, as a
/// percent at `Rate` scale.
pub const REPORT_THRESHOLD_RAW: i128 = 50_000_000;

/// The canonical symbol of an asset, as a character sequence.
pub open spec fn asset_sym(a: Asset) -> Seq<char> {
    match a {
        Asset::BTC => "BTC"@,
        Asset::ETH => "ETH"@,
        Asset::SOL => "SOL"@,
        Asset::HYPE => "HYPE"@,
    }
}

/// The store key a venue holds an asset's market under.  The two venues that
/// expose both a spot and a derivative market for one asset write their spot
/// leg under the spot-suffixed key, so the spot leg is read from there; every
/// other combination lives under the bare asset name.
pub open spec fn spec_symbol_for(
    exchange: Exchange,
    asset: Asset,
    instrument: InstrumentType,
) -> Seq<char> {
    if (exchange == Exchange::Hyperliquid || exchange == Exchange::Gmo) && instrument
        == InstrumentType::Spot {
        asset_sym(asset) + "_SPOT"@
    } else {
        asset_sym(asset)
    }
}

/// The store key a venue holds an asset's market under, executable.
pub fn symbol_for(exchange: Exchange, asset: &Asset, instrument: InstrumentType) -> (r: String)
    ensures
        r@ == spec_symbol_for(exchange, *asset, instrument),
{
    let sym = asset.as_symbol();
    match (exchange, instrument) {
        (Exchange::Hyperliquid, InstrumentType::Spot) => concat_str(sym, "_SPOT"),
        (Exchange::Gmo, InstrumentType::Spot) => concat_str(sym, "_SPOT"),
        _ => String::from_str(sym),
    }
}

/// The leg one store entry contributes, or no leg for an absent key.  Only
/// the perpetual leg carries the stored funding rate; spot legs have none.
pub open spec fn maybe_leg(
    m: Map<(Exchange, Seq<char>), SymbolData>,
    exchange: Exchange,
    key: Seq<char>,
    asset: Asset,
    instrument: InstrumentType,
    currency: Currency,
    use_stored_funding: bool,
) -> Seq<MarketData> {
    match spec_read(m, exchange, key) {
        Some(d) => seq![
            MarketData {
                exchange,
                asset,
                instrument,
                currency,
                ask: d.ask,
                bid: d.bid,
                funding_rate: if use_stored_funding {
                    d.funding_rate
                } else {
                    Rate { raw: 0 }
                },
            },
        ],
        None => Seq::empty(),
    }
}

/// The legs one evaluation cycle assembles for an asset, in fixed venue
/// order: the first venue's perpetual and spot (both foreign-currency), then
/// the two domestic spot venues.
pub open spec fn collected_legs(m: Map<(Exchange, Seq<char>), SymbolData>, asset: Asset) -> Seq<
    MarketData,
> {
    maybe_leg(m, Exchange::Hyperliquid, asset_sym(asset), asset, InstrumentType::Perp, Currency::USD, true)
        + maybe_leg(
        m,
        Exchange::Hyperliquid,
        asset_sym(asset) + "_SPOT"@,
        asset,
        InstrumentType::Spot,
        Currency::USD,
        false,
    ) + maybe_leg(m, Exchange::Bitbank, asset_sym(asset), asset, InstrumentType::Spot, Currency::JPY, false)
        + maybe_leg(
        m,
        Exchange::Gmo,
        asset_sym(asset) + "_SPOT"@,
        asset,
        InstrumentType::Spot,
        Currency::JPY,
        false,
    )
}

/// Reads the store once for each venue and instrument of interest and
/// assembles the asset's current legs.
pub fn collect_legs(store: &MarketStore, asset: &Asset) -> (r: Vec<MarketData>)
    requires
        store.inv(),
    ensures
        r@ == collected_legs(store@, *asset),
        legs_wf(r@),
{
    let mut legs: Vec<MarketData> = Vec::new();
    let perp_key = symbol_for(Exchange::Hyperliquid, asset, InstrumentType::Perp);
    match store.get_market_data(Exchange::Hyperliquid, perp_key.as_str()) {
        Some(d) => {
            legs.push(
                MarketData {
                    exchange: Exchange::Hyperliquid,
                    asset: *asset,
                    instrument: InstrumentType::Perp,
                    currency: Currency::USD,
                    ask: d.ask,
                    bid: d.bid,
                    funding_rate: d.funding_rate,
                },
            );
        },
        None => {},
    }
    let spot_key = symbol_for(Exchange::Hyperliquid, asset, InstrumentType::Spot);
    match store.get_market_data(Exchange::Hyperliquid, spot_key.as_str()) {
        Some(d) => {
            legs.push(
                MarketData {
                    exchange: Exchange::Hyperliquid,
                    asset: *asset,
                    instrument: InstrumentType::Spot,
                    currency: Currency::USD,
                    ask: d.ask,
                    bid: d.bid,
                    funding_rate: Rate::zero(),
                },
            );
        },
        None => {},
    }
    let bb_key = symbol_for(Exchange::Bitbank, asset, InstrumentType::Spot);
    match store.get_market_data(Exchange::Bitbank, bb_key.as_str()) {
        Some(d) => {
            legs.push(
                MarketData {
                    exchange: Exchange::Bitbank,
                    asset: *asset,
                    instrument: InstrumentType::Spot,
                    currency: Currency::JPY,
                    ask: d.ask,
                    bid: d.bid,
                    funding_rate: Rate::zero(),
                },
            );
        },
        None => {},
    }
    let gmo_spot_key = symbol_for(Exchange::Gmo, asset, InstrumentType::Spot);
    match store.get_market_data(Exchange::Gmo, gmo_spot_key.as_str()) {
        Some(d) => {
            legs.push(
                MarketData {
                    exchange: Exchange::Gmo,
                    asset: *asset,
                    instrument: InstrumentType::Spot,
                    currency: Currency::JPY,
                    ask: d.ask,
                    bid: d.bid,
                    funding_rate: Rate::zero(),
                },
            );
        },
        None => {},
    }
    proof {
        assert(legs@ =~= collected_legs(store@, *asset));
    }
    legs
}

/// The store's current foreign-exchange rate, read from the designated key.
pub open spec fn spec_fx(m: Map<(Exchange, Seq<char>), SymbolData>) -> Option<Price> {
    match spec_read(m, Exchange::Kraken, "USD_JPY"@) {
        Some(d) => Some(d.last_price),
        None => None,
    }
}

/// What one evaluation of an asset yields from a store slice: nothing
/// without a usable foreign-exchange rate or with fewer than two legs, else
/// the engine's best pairing over the assembled legs.
pub open spec fn spec_evaluate(
    m: Map<(Exchange, Seq<char>), SymbolData>,
    asset: Asset,
    cfg: EngineConfig,
) -> Option<ArbitrageOpportunity> {
    match spec_fx(m) {
        None => None,
        Some(fx) => if fx.raw < 0 || fx.raw > MAX_FX_RAW {
            None
        } else {
            let legs = collected_legs(m, asset);
            if legs.len() < 2 {
                None
            } else {
                let fl = legs_for(legs, asset);
                let best = scan_best(fl, fx.raw as int, cfg, (fl.len() * fl.len()) as nat);
                match best.1 {
                    None => None,
                    Some(w) => Some(opportunity_for(fl[w.0], fl[w.1], asset, fx, cfg)),
                }
            }
        },
    }
}

/// One evaluation cycle for one asset: reads the foreign-exchange rate and
/// the asset's legs from the store and runs the engine.  Never fails: a
/// missing or out-of-range rate and missing data both yield no opportunity.
pub fn evaluate_asset(store: &MarketStore, asset: &Asset, config: &EngineConfig) -> (r: Option<
    ArbitrageOpportunity,
>)
    requires
        store.inv(),
        config.wf(),
    ensures
        r == spec_evaluate(store@, *asset, *config),
{
    let fx = match store.get_fx_rate("USD_JPY") {
        Some(p) => p,
        None => {
            return None;
        },
    };
    if fx.raw < 0 || fx.raw > MAX_FX_RAW {
        return None;
    }
    let legs = collect_legs(store, asset);
    if legs.len() < 2 {
        return None;
    }
    find_best_arbitrage_with(&legs, *asset, fx, config)
}

/// Whether an opportunity's net profit percentage exceeds the fixed
/// reporting threshold of five hundredths of a percent.
pub fn should_report(o: &ArbitrageOpportunity) -> (r: bool)
    ensures
        r == (o.estimated_profit_pct.raw > REPORT_THRESHOLD_RAW),
{
    o.estimated_profit_pct.raw > REPORT_THRESHOLD_RAW
}

} // verus!
