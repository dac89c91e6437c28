use funding_rate::num::{Price, Rate, AMOUNT_SCALE};
use funding_rate::store::Exchange;
use funding_rate::strategy::{
    find_best_arbitrage, find_best_arbitrage_with, slippage, Asset, Currency, EngineConfig,
    InstrumentType, MarketData,
};

fn zero_cfg() -> EngineConfig {
    EngineConfig {
        fee_hyperliquid: Rate { raw: 0 },
        fee_bitbank: Rate { raw: 0 },
        fee_kraken: Rate { raw: 0 },
        fee_gmo: Rate { raw: 0 },
        slippage: Rate { raw: 0 },
    }
}

fn leg(
    exchange: Exchange,
    instrument: InstrumentType,
    currency: Currency,
    ask_units: i64,
    bid_units: i64,
    funding_raw: i128,
) -> MarketData {
    MarketData {
        exchange,
        asset: Asset::BTC,
        instrument,
        currency,
        ask: Price::from_units(ask_units),
        bid: Price::from_units(bid_units),
        funding_rate: Rate { raw: funding_raw },
    }
}

#[test]
fn two_legs_pick_cheap_ask_rich_bid() {
    // One leg ask=100/bid=99, the other ask=105/bid=104, same currency, no
    // fees, slippage or funding: buy the first at 100, sell the second at
    // 104, net profit 4, net profit percentage 4%.
    let legs = vec![
        leg(Exchange::Bitbank, InstrumentType::Spot, Currency::JPY, 100, 99, 0),
        leg(Exchange::Gmo, InstrumentType::Spot, Currency::JPY, 105, 104, 0),
    ];
    let o = find_best_arbitrage_with(&legs, Asset::BTC, Price::from_units(150), &zero_cfg())
        .unwrap();
    assert_eq!(o.long_exchange, Exchange::Bitbank);
    assert_eq!(o.short_exchange, Exchange::Gmo);
    assert_eq!(o.long_price_raw, Price::from_units(100));
    assert_eq!(o.short_price_raw, Price::from_units(104));
    assert_eq!(o.estimated_profit_jpy.raw, 4 * AMOUNT_SCALE);
    assert_eq!(o.base_profit_jpy.raw, 4 * AMOUNT_SCALE);
    assert_eq!(o.estimated_profit_pct.raw, 4_000_000_000);
    assert_eq!(o.fr_impact_jpy.raw, 0);
    assert_eq!(o.slippage_cost_jpy.raw, 0);
    assert_eq!(o.long_fee_jpy.raw, 0);
    assert_eq!(o.short_fee_jpy.raw, 0);
    assert_eq!(o.asset, Asset::BTC);
    assert_eq!(o.usd_jpy_rate, Price::from_units(150));
}

#[test]
fn single_leg_yields_nothing() {
    let legs = vec![leg(Exchange::Bitbank, InstrumentType::Spot, Currency::JPY, 100, 99, 0)];
    assert!(
        find_best_arbitrage_with(&legs, Asset::BTC, Price::from_units(150), &zero_cfg()).is_none()
    );
}

#[test]
fn empty_legs_yield_nothing() {
    let legs: Vec<MarketData> = Vec::new();
    assert!(
        find_best_arbitrage_with(&legs, Asset::BTC, Price::from_units(150), &zero_cfg()).is_none()
    );
}

#[test]
fn same_venue_same_instrument_excluded() {
    // Two legs identical in venue and instrument never pair, whatever the
    // spread between them.
    let legs = vec![
        leg(Exchange::Bitbank, InstrumentType::Spot, Currency::JPY, 100, 99, 0),
        leg(Exchange::Bitbank, InstrumentType::Spot, Currency::JPY, 105, 104, 0),
    ];
    assert!(
        find_best_arbitrage_with(&legs, Asset::BTC, Price::from_units(150), &zero_cfg()).is_none()
    );
}

#[test]
fn same_venue_different_instrument_allowed() {
    let legs = vec![
        leg(Exchange::Hyperliquid, InstrumentType::Spot, Currency::JPY, 100, 99, 0),
        leg(Exchange::Hyperliquid, InstrumentType::Perp, Currency::JPY, 105, 104, 0),
    ];
    let o = find_best_arbitrage_with(&legs, Asset::BTC, Price::from_units(150), &zero_cfg())
        .unwrap();
    assert_eq!(o.long_instrument, InstrumentType::Spot);
    assert_eq!(o.short_instrument, InstrumentType::Perp);
}

#[test]
fn no_positive_margin_yields_nothing() {
    // Every bid sits below every ask: no pairing has a positive margin.
    let legs = vec![
        leg(Exchange::Bitbank, InstrumentType::Spot, Currency::JPY, 100, 99, 0),
        leg(Exchange::Gmo, InstrumentType::Spot, Currency::JPY, 101, 100, 0),
    ];
    assert!(
        find_best_arbitrage_with(&legs, Asset::BTC, Price::from_units(150), &zero_cfg()).is_none()
    );
}

#[test]
fn other_assets_are_filtered_out() {
    let mut rich = leg(Exchange::Gmo, InstrumentType::Spot, Currency::JPY, 105, 200, 0);
    rich.asset = Asset::ETH;
    let legs = vec![
        leg(Exchange::Bitbank, InstrumentType::Spot, Currency::JPY, 100, 99, 0),
        rich,
    ];
    assert!(
        find_best_arbitrage_with(&legs, Asset::BTC, Price::from_units(150), &zero_cfg()).is_none()
    );
}

#[test]
fn buy_leg_funding_reduces_profit() {
    // A perpetual buy leg with funding rate +0.001 nets less than the same
    // scenario with funding rate 0.
    let build = |funding_raw: i128| {
        let legs = vec![
            leg(Exchange::Hyperliquid, InstrumentType::Perp, Currency::JPY, 100, 99, funding_raw),
            leg(Exchange::Gmo, InstrumentType::Spot, Currency::JPY, 105, 104, 0),
        ];
        find_best_arbitrage_with(&legs, Asset::BTC, Price::from_units(150), &zero_cfg()).unwrap()
    };
    let base = build(0);
    let carried = build(1_000_000);
    assert_eq!(base.estimated_profit_jpy.raw, 4_000_000_000_000);
    assert_eq!(carried.estimated_profit_jpy.raw, 3_900_000_000_000);
    assert_eq!(carried.fr_impact_jpy.raw, -100_000_000_000);
    assert!(carried.estimated_profit_jpy.raw < base.estimated_profit_jpy.raw);
}

#[test]
fn sell_leg_funding_raises_profit() {
    // A perpetual sell leg with funding rate +0.001 nets more than the same
    // scenario with funding rate 0.
    let build = |funding_raw: i128| {
        let legs = vec![
            leg(Exchange::Bitbank, InstrumentType::Spot, Currency::JPY, 100, 99, 0),
            leg(Exchange::Hyperliquid, InstrumentType::Perp, Currency::JPY, 105, 104, funding_raw),
        ];
        find_best_arbitrage_with(&legs, Asset::BTC, Price::from_units(150), &zero_cfg()).unwrap()
    };
    let base = build(0);
    let carried = build(1_000_000);
    assert_eq!(carried.estimated_profit_jpy.raw, 4_100_000_000_000);
    assert_eq!(carried.fr_impact_jpy.raw, 100_000_000_000);
    assert!(carried.estimated_profit_jpy.raw > base.estimated_profit_jpy.raw);
}

#[test]
fn spot_legs_carry_no_funding() {
    // A funding rate on a spot leg contributes nothing.
    let legs = vec![
        leg(Exchange::Bitbank, InstrumentType::Spot, Currency::JPY, 100, 99, 1_000_000),
        leg(Exchange::Gmo, InstrumentType::Spot, Currency::JPY, 105, 104, 1_000_000),
    ];
    let o = find_best_arbitrage_with(&legs, Asset::BTC, Price::from_units(150), &zero_cfg())
        .unwrap();
    assert_eq!(o.fr_impact_jpy.raw, 0);
    assert_eq!(o.estimated_profit_jpy.raw, 4_000_000_000_000);
}

#[test]
fn doubling_fx_doubles_foreign_buy_cost() {
    // A foreign-currency buy leg's converted cost scales linearly with the
    // supplied rate.
    let build = |fx_units: i64| {
        let legs = vec![
            leg(Exchange::Hyperliquid, InstrumentType::Perp, Currency::USD, 100, 99, 0),
            leg(Exchange::Gmo, InstrumentType::Spot, Currency::JPY, 1_000_000, 40_000, 0),
        ];
        find_best_arbitrage_with(&legs, Asset::BTC, Price::from_units(fx_units), &zero_cfg())
            .unwrap()
    };
    let at150 = build(150);
    let at300 = build(300);
    assert_eq!(at150.long_currency, Currency::USD);
    assert_eq!(at150.long_price_jpy.raw, 15_000_000_000_000_000);
    assert_eq!(at300.long_price_jpy.raw, 2 * at150.long_price_jpy.raw);
}

#[test]
fn domestic_leg_ignores_fx() {
    let build = |fx_units: i64| {
        let legs = vec![
            leg(Exchange::Bitbank, InstrumentType::Spot, Currency::JPY, 100, 99, 0),
            leg(Exchange::Gmo, InstrumentType::Spot, Currency::JPY, 105, 104, 0),
        ];
        find_best_arbitrage_with(&legs, Asset::BTC, Price::from_units(fx_units), &zero_cfg())
            .unwrap()
    };
    assert_eq!(
        build(150).estimated_profit_jpy.raw,
        build(300).estimated_profit_jpy.raw
    );
}

#[test]
fn default_fees_and_slippage_applied() {
    // Buy on the high-fee venue, sell on the other: every cost component is
    // pinned down exactly under the default configuration.
    let legs = vec![
        leg(Exchange::Bitbank, InstrumentType::Spot, Currency::JPY, 100, 99, 0),
        leg(Exchange::Gmo, InstrumentType::Spot, Currency::JPY, 105, 104, 0),
    ];
    let o = find_best_arbitrage(&legs, Asset::BTC, Price::from_units(150)).unwrap();
    assert_eq!(o.long_exchange, Exchange::Bitbank);
    assert_eq!(o.long_price_jpy.raw, 100_130_000_000_000);
    assert_eq!(o.short_price_jpy.raw, 103_937_600_000_000);
    assert_eq!(o.base_profit_jpy.raw, 3_807_600_000_000);
    assert_eq!(o.estimated_profit_jpy.raw, 3_807_600_000_000);
    assert_eq!(o.estimated_profit_pct.raw, 3_802_656_546);
}

#[test]
fn first_found_wins_ties() {
    // Two pairings with the same percentage: the earlier pairing stays.
    let legs = vec![
        leg(Exchange::Bitbank, InstrumentType::Spot, Currency::JPY, 100, 99, 0),
        leg(Exchange::Gmo, InstrumentType::Spot, Currency::JPY, 105, 104, 0),
        leg(Exchange::Hyperliquid, InstrumentType::Spot, Currency::JPY, 100, 104, 0),
    ];
    let o = find_best_arbitrage_with(&legs, Asset::BTC, Price::from_units(150), &zero_cfg())
        .unwrap();
    // Buying leg 0 and selling leg 1 comes before buying leg 2's identical
    // percentage pairings in scan order.
    assert_eq!(o.long_exchange, Exchange::Bitbank);
    assert_eq!(o.short_exchange, Exchange::Gmo);
}

#[test]
fn taker_fee_per_venue() {
    let mk = |exchange| leg(exchange, InstrumentType::Spot, Currency::JPY, 1, 1, 0);
    assert_eq!(mk(Exchange::Hyperliquid).taker_fee().raw, 450_000);
    assert_eq!(mk(Exchange::Gmo).taker_fee().raw, 500_000);
    assert_eq!(mk(Exchange::Bitbank).taker_fee().raw, 1_200_000);
    assert_eq!(mk(Exchange::Kraken).taker_fee().raw, 0);
}

#[test]
fn slippage_constant() {
    assert_eq!(slippage().raw, 100_000);
    assert_eq!(EngineConfig::default_fees().slippage.raw, 100_000);
}

#[test]
fn rebate_fee_raises_profit() {
    // A negative (rebate) buy-side fee lowers the cost below the raw ask.
    let mut cfg = zero_cfg();
    cfg.fee_bitbank = Rate { raw: -1_000_000 };
    let legs = vec![
        leg(Exchange::Bitbank, InstrumentType::Spot, Currency::JPY, 100, 99, 0),
        leg(Exchange::Gmo, InstrumentType::Spot, Currency::JPY, 105, 104, 0),
    ];
    let o = find_best_arbitrage_with(&legs, Asset::BTC, Price::from_units(150), &cfg).unwrap();
    assert_eq!(o.long_price_jpy.raw, 99_900_000_000_000);
    assert_eq!(o.long_fee_jpy.raw, -100_000_000_000);
}
