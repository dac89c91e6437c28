use funding_rate::coordinator::{collect_legs, evaluate_asset, should_report, symbol_for};
use funding_rate::num::{Amount, Price, Rate};
use funding_rate::store::{Exchange, MarketStore};
use funding_rate::strategy::{
    Asset, Currency, EngineConfig, InstrumentType, ArbitrageOpportunity,
};
use funding_rate::text::{concat_str, contains_str, ends_with_str, str_eq_str, strip_suffix_str, u32_to_string};

fn price(units: i64) -> Price {
    Price::from_units(units)
}

fn zero_cfg() -> EngineConfig {
    EngineConfig {
        fee_hyperliquid: Rate { raw: 0 },
        fee_bitbank: Rate { raw: 0 },
        fee_kraken: Rate { raw: 0 },
        fee_gmo: Rate { raw: 0 },
        slippage: Rate { raw: 0 },
    }
}

#[test]
fn store_keys_per_venue() {
    assert_eq!(symbol_for(Exchange::Hyperliquid, &Asset::BTC, InstrumentType::Spot), "BTC_SPOT");
    assert_eq!(symbol_for(Exchange::Hyperliquid, &Asset::BTC, InstrumentType::Perp), "BTC");
    assert_eq!(symbol_for(Exchange::Bitbank, &Asset::ETH, InstrumentType::Spot), "ETH");
    // The GMO adapter stores its spot leg under the suffixed key, its
    // derivative leg under the bare name: the spot read must use the suffix.
    assert_eq!(symbol_for(Exchange::Gmo, &Asset::HYPE, InstrumentType::Spot), "HYPE_SPOT");
    assert_eq!(symbol_for(Exchange::Gmo, &Asset::HYPE, InstrumentType::Perp), "HYPE");
    assert_eq!(symbol_for(Exchange::Kraken, &Asset::SOL, InstrumentType::Perp), "SOL");
}

#[test]
fn legs_assembled_in_fixed_venue_order() {
    let mut store = MarketStore::new();
    store.update_market_data_at(Exchange::Hyperliquid, "BTC", price(99), price(100), price(99), 1);
    store.update_funding_rate_at(Exchange::Hyperliquid, "BTC", Rate { raw: 12_500 }, 2);
    store.update_market_data_at(Exchange::Hyperliquid, "BTC_SPOT", price(98), price(99), price(98), 3);
    store.update_market_data_at(Exchange::Bitbank, "BTC", price(15_000_000), price(15_100_000), price(15_000_000), 4);
    // The GMO derivative entry lives under the bare name; only the suffixed
    // spot entry contributes the GMO leg.
    store.update_market_data_at(Exchange::Gmo, "BTC", price(1), price(2), price(1), 5);
    let legs = collect_legs(&store, &Asset::BTC);
    assert_eq!(legs.len(), 3);
    assert_eq!(legs[0].exchange, Exchange::Hyperliquid);
    assert_eq!(legs[0].instrument, InstrumentType::Perp);
    assert_eq!(legs[0].currency, Currency::USD);
    assert_eq!(legs[0].funding_rate.raw, 12_500);
    assert_eq!(legs[1].exchange, Exchange::Hyperliquid);
    assert_eq!(legs[1].instrument, InstrumentType::Spot);
    assert_eq!(legs[1].funding_rate.raw, 0);
    assert_eq!(legs[2].exchange, Exchange::Bitbank);
    assert_eq!(legs[2].currency, Currency::JPY);
    assert_eq!(legs[2].bid, price(15_000_000));
}

#[test]
fn spot_legs_never_carry_stored_funding() {
    let mut store = MarketStore::new();
    store.update_market_data_at(Exchange::Hyperliquid, "BTC_SPOT", price(1), price(2), price(1), 1);
    store.update_funding_rate_at(Exchange::Hyperliquid, "BTC_SPOT", Rate { raw: 777 }, 2);
    let legs = collect_legs(&store, &Asset::BTC);
    assert_eq!(legs.len(), 1);
    assert_eq!(legs[0].funding_rate.raw, 0);
}

#[test]
fn evaluation_needs_fx_rate() {
    let mut store = MarketStore::new();
    store.update_market_data_at(Exchange::Bitbank, "BTC", price(100), price(101), price(100), 1);
    store.update_market_data_at(Exchange::Gmo, "BTC_SPOT", price(105), price(106), price(105), 2);
    assert!(evaluate_asset(&store, &Asset::BTC, &zero_cfg()).is_none());
}

#[test]
fn evaluation_needs_two_legs() {
    let mut store = MarketStore::new();
    store.update_market_data_at(Exchange::Kraken, "USD_JPY", price(150), price(150), price(150), 1);
    store.update_market_data_at(Exchange::Bitbank, "BTC", price(100), price(101), price(100), 2);
    assert!(evaluate_asset(&store, &Asset::BTC, &zero_cfg()).is_none());
}

#[test]
fn evaluation_finds_cross_venue_spread() {
    let mut store = MarketStore::new();
    store.update_market_data_at(Exchange::Kraken, "USD_JPY", price(150), price(150), price(150), 1);
    // Buy at the second venue's ask of 100, sell at the third venue's bid of
    // 104: the domestic spread of the first scenario, assembled from the
    // store.
    store.update_market_data_at(Exchange::Bitbank, "BTC", price(99), price(100), price(99), 2);
    store.update_market_data_at(Exchange::Gmo, "BTC_SPOT", price(104), price(105), price(104), 3);
    let o = evaluate_asset(&store, &Asset::BTC, &zero_cfg()).unwrap();
    assert_eq!(o.long_exchange, Exchange::Bitbank);
    assert_eq!(o.short_exchange, Exchange::Gmo);
    assert_eq!(o.estimated_profit_jpy.raw, 4_000_000_000_000);
    assert_eq!(o.estimated_profit_pct.raw, 4_000_000_000);
    assert_eq!(o.usd_jpy_rate, price(150));
}

#[test]
fn evaluation_uses_foreign_legs_through_fx() {
    let mut store = MarketStore::new();
    store.update_market_data_at(Exchange::Kraken, "USD_JPY", price(150), price(150), price(150), 1);
    store.update_market_data_at(Exchange::Hyperliquid, "BTC", price(99), price(100), price(99), 2);
    store.update_market_data_at(Exchange::Gmo, "BTC_SPOT", price(16_000), price(16_100), price(16_000), 3);
    // Buying at ask 100 USD costs 15000 in the comparison currency; selling
    // at bid 16000 nets 1000.
    let o = evaluate_asset(&store, &Asset::BTC, &zero_cfg()).unwrap();
    assert_eq!(o.long_exchange, Exchange::Hyperliquid);
    assert_eq!(o.long_currency, Currency::USD);
    assert_eq!(o.long_price_jpy.raw, 15_000_000_000_000_000);
    assert_eq!(o.estimated_profit_jpy.raw, 1_000_000_000_000_000);
}

#[test]
fn no_opportunity_without_positive_margin() {
    let mut store = MarketStore::new();
    store.update_market_data_at(Exchange::Kraken, "USD_JPY", price(150), price(150), price(150), 1);
    store.update_market_data_at(Exchange::Bitbank, "BTC", price(99), price(100), price(99), 2);
    store.update_market_data_at(Exchange::Gmo, "BTC_SPOT", price(98), price(101), price(98), 3);
    assert!(evaluate_asset(&store, &Asset::BTC, &zero_cfg()).is_none());
}

#[test]
fn report_threshold_boundary() {
    let mk = |pct_raw: i128| ArbitrageOpportunity {
        asset: Asset::BTC,
        long_exchange: Exchange::Bitbank,
        long_instrument: InstrumentType::Spot,
        long_price_jpy: Amount { raw: 0 },
        long_price_raw: Price { raw: 0 },
        long_currency: Currency::JPY,
        long_fee_jpy: Amount { raw: 0 },
        short_exchange: Exchange::Gmo,
        short_instrument: InstrumentType::Spot,
        short_price_jpy: Amount { raw: 0 },
        short_price_raw: Price { raw: 0 },
        short_currency: Currency::JPY,
        short_fee_jpy: Amount { raw: 0 },
        base_profit_jpy: Amount { raw: 0 },
        fr_impact_jpy: Amount { raw: 0 },
        slippage_cost_jpy: Amount { raw: 0 },
        estimated_profit_jpy: Amount { raw: 0 },
        estimated_profit_pct: Rate { raw: pct_raw },
        usd_jpy_rate: Price { raw: 0 },
    };
    // The reporting threshold is 0.05%.
    assert!(!should_report(&mk(50_000_000)));
    assert!(should_report(&mk(50_000_001)));
    assert!(!should_report(&mk(-1)));
}

#[test]
fn asset_symbols() {
    assert_eq!(Asset::BTC.as_symbol(), "BTC");
    assert_eq!(Asset::ETH.as_symbol(), "ETH");
    assert_eq!(Asset::SOL.as_symbol(), "SOL");
    assert_eq!(Asset::HYPE.as_symbol(), "HYPE");
}

#[test]
fn text_utilities() {
    assert!(str_eq_str("abc", "abc"));
    assert!(!str_eq_str("abc", "abd"));
    assert!(!str_eq_str("abc", "ab"));
    assert!(contains_str("ticker_btc_jpy", "btc_jpy"));
    assert!(!contains_str("ticker_eth_jpy", "btc_jpy"));
    assert!(contains_str("abc", ""));
    assert!(ends_with_str("BTC_JPY", "_JPY"));
    assert!(!ends_with_str("BTC", "_JPY"));
    assert_eq!(strip_suffix_str("BTC_JPY", "_JPY").as_deref(), Some("BTC"));
    assert_eq!(strip_suffix_str("BTC", "_JPY"), None);
    assert_eq!(concat_str("BTC", "_SPOT"), "BTC_SPOT");
    assert_eq!(u32_to_string(0), "0");
    assert_eq!(u32_to_string(107), "107");
    assert_eq!(u32_to_string(4_294_967_295), "4294967295");
}

#[test]
fn gmo_spot_leg_read_from_suffixed_key() {
    let mut store = MarketStore::new();
    store.update_market_data_at(Exchange::Gmo, "BTC_SPOT", price(10), price(11), price(10), 1);
    store.update_market_data_at(Exchange::Gmo, "BTC", price(20), price(21), price(20), 2);
    let legs = collect_legs(&store, &Asset::BTC);
    assert_eq!(legs.len(), 1);
    assert_eq!(legs[0].exchange, Exchange::Gmo);
    assert_eq!(legs[0].instrument, InstrumentType::Spot);
    assert_eq!(legs[0].ask, price(11));
}
