//! The arbitrage evaluation engine.
//!
//! A pure function over a point-in-time list of legs: for one asset it
//! examines every ordered (buy, sell) pairing, excluding pairs that share
//! both venue and instrument, prices each side net of taker fee and slippage,
//! converts foreign-currency legs at the supplied foreign-exchange rate,
//! applies funding-rate carry for perpetual legs, and keeps the pairing with
//! the highest strictly positive, strictly improving net profit percentage
//! (first found wins ties).
//!
//! All arithmetic is exact integer arithmetic over the fixed-point scales of
//! `crate::num`; the only truncations are the three divisions by
//! `RATE_SCALE` (unit pricing and funding carry) and the final percentage
//! division, each truncating toward zero.

use vstd::prelude::*;
use crate::num::{
    apply_rate, div_nonneg, spec_apply_rate, Amount, Price, Rate, MAX_FX_RAW, MAX_PRICE_RAW,
    PRICE_SCALE, RATE_SCALE,
};
use crate::store::Exchange;

verus! {

/// Scaling factor of the profit percentage: a percentage at `Rate` scale.
pub const PCT_FACTOR: i128 = 100_000_000_000;

/// A tradable underlying asset.
#[derive(Clone, Copy, Debug, PartialEq, Eq, Structural, Hash)]
pub enum Asset {
    BTC,
    ETH,
    SOL,
    HYPE,
}

impl Asset {
    /// The canonical symbol string of the asset.
    pub fn as_symbol(&self) -> (r: &'static str)
        ensures
            *self == Asset::BTC ==> r@ == "BTC"@,
            *self == Asset::ETH ==> r@ == "ETH"@,
            *self == Asset::SOL ==> r@ == "SOL"@,
            *self == Asset::HYPE ==> r@ == "HYPE"@,
    {
        match self {
            Asset::BTC => "BTC",
            Asset::ETH => "ETH",
            Asset::SOL => "SOL",
            Asset::HYPE => "HYPE",
        }
    }
}

/// Whether a leg is a spot or a perpetual market.
#[derive(Clone, Copy, Debug, PartialEq, Eq, Structural)]
pub enum InstrumentType {
    Spot,
    Perp,
}

/// The currency a leg is quoted in: domestic (JPY) or foreign (USD).
#[derive(Clone, Copy, Debug, PartialEq, Eq, Structural)]
pub enum Currency {
    JPY,
    USD,
}

/// One leg: a venue, asset, instrument and currency with its current prices
/// and funding rate.
#[derive(Clone, Copy, Debug, PartialEq, Eq, Structural)]
pub struct MarketData {
    pub exchange: Exchange,
    pub asset: Asset,
    pub instrument: InstrumentType,
    pub currency: Currency,
    pub ask: Price,
    pub bid: Price,
    pub funding_rate: Rate,
}

impl MarketData {
    /// Whether the leg's numbers lie in the admissible ranges.
    pub open spec fn wf(self) -> bool {
        &&& self.ask.wf()
        &&& self.bid.wf()
        &&& self.funding_rate.wf()
    }

    /// The venue's fixed taker-fee rate (immediate execution), as a fraction.
    pub fn taker_fee(&self) -> (r: Rate)
        ensures
            r.raw == spec_default_fee(self.exchange),
    {
        match self.exchange {
            Exchange::Hyperliquid => Rate { raw: 450_000 },
            Exchange::Gmo => Rate { raw: 500_000 },
            Exchange::Bitbank => Rate { raw: 1_200_000 },
            Exchange::Kraken => Rate { raw: 0 },
        }
    }
}

/// The default taker fee of a venue, at `Rate` scale.  The
/// foreign-exchange-only venue never trades, so its fee is zero.
pub open spec fn spec_default_fee(e: Exchange) -> int {
    match e {
        Exchange::Hyperliquid => 450_000,
        Exchange::Gmo => 500_000,
        Exchange::Bitbank => 1_200_000,
        Exchange::Kraken => 0,
    }
}

/// The fee and slippage configuration the engine runs with.
#[derive(Clone, Copy, Debug, PartialEq, Eq, Structural)]
pub struct EngineConfig {
    pub fee_hyperliquid: Rate,
    pub fee_bitbank: Rate,
    pub fee_kraken: Rate,
    pub fee_gmo: Rate,
    pub slippage: Rate,
}

impl EngineConfig {
    /// The configured taker fee of a venue, at `Rate` scale.
    pub open spec fn fee_of(self, e: Exchange) -> int {
        match e {
            Exchange::Hyperliquid => self.fee_hyperliquid.raw as int,
            Exchange::Bitbank => self.fee_bitbank.raw as int,
            Exchange::Kraken => self.fee_kraken.raw as int,
            Exchange::Gmo => self.fee_gmo.raw as int,
        }
    }

    /// Admissible configuration: slippage is a nonnegative fraction, each
    /// fee is a fraction of magnitude at most one (rebates allowed), and fee
    /// plus slippage never exceeds one whole price.
    pub open spec fn wf(self) -> bool {
        &&& 0 <= self.slippage.raw <= RATE_SCALE
        &&& fee_bounds_ok(self.fee_hyperliquid.raw as int, self.slippage.raw as int)
        &&& fee_bounds_ok(self.fee_bitbank.raw as int, self.slippage.raw as int)
        &&& fee_bounds_ok(self.fee_kraken.raw as int, self.slippage.raw as int)
        &&& fee_bounds_ok(self.fee_gmo.raw as int, self.slippage.raw as int)
    }

    /// The configured fee of the venue, executable.
    pub fn fee_for(&self, e: Exchange) -> (r: Rate)
        ensures
            r.raw == self.fee_of(e),
    {
        match e {
            Exchange::Hyperliquid => self.fee_hyperliquid,
            Exchange::Bitbank => self.fee_bitbank,
            Exchange::Kraken => self.fee_kraken,
            Exchange::Gmo => self.fee_gmo,
        }
    }

    /// The compiled-in default: the venues' published taker fees and the
    /// fixed slippage buffer.
    pub fn default_fees() -> (r: EngineConfig)
        ensures
            r.fee_hyperliquid.raw == spec_default_fee(Exchange::Hyperliquid),
            r.fee_bitbank.raw == spec_default_fee(Exchange::Bitbank),
            r.fee_kraken.raw == spec_default_fee(Exchange::Kraken),
            r.fee_gmo.raw == spec_default_fee(Exchange::Gmo),
            r.slippage.raw == 100_000,
            r.wf(),
    {
        EngineConfig {
            fee_hyperliquid: Rate { raw: 450_000 },
            fee_bitbank: Rate { raw: 1_200_000 },
            fee_kraken: Rate { raw: 0 },
            fee_gmo: Rate { raw: 500_000 },
            slippage: Rate { raw: 100_000 },
        }
    }
}

/// A fee of magnitude at most one whose sum with the slippage also has
/// magnitude at most one.
pub open spec fn fee_bounds_ok(fee: int, slippage: int) -> bool {
    &&& -RATE_SCALE <= fee <= RATE_SCALE
    &&& -RATE_SCALE <= fee + slippage <= RATE_SCALE
}

/// The fixed slippage buffer applied symmetrically to both legs (0.01%).
pub fn slippage() -> (r: Rate)
    ensures
        r.raw == 100_000,
{
    Rate { raw: 100_000 }
}

/// The best pairing found for one asset at one instant, with the full cost
/// breakdown.  Money fields are at `Amount` scale; the profit percentage is
/// a percent at `Rate` scale.
#[derive(Clone, Copy, Debug, PartialEq, Eq, Structural)]
pub struct ArbitrageOpportunity {
    pub asset: Asset,
    pub long_exchange: Exchange,
    pub long_instrument: InstrumentType,
    pub long_price_jpy: Amount,
    pub long_price_raw: Price,
    pub long_currency: Currency,
    pub long_fee_jpy: Amount,
    pub short_exchange: Exchange,
    pub short_instrument: InstrumentType,
    pub short_price_jpy: Amount,
    pub short_price_raw: Price,
    pub short_currency: Currency,
    pub short_fee_jpy: Amount,
    pub base_profit_jpy: Amount,
    pub fr_impact_jpy: Amount,
    pub slippage_cost_jpy: Amount,
    pub estimated_profit_jpy: Amount,
    pub estimated_profit_pct: Rate,
    pub usd_jpy_rate: Price,
}

/// A pairing is allowed unless both venue and instrument coincide: the
/// engine never arbitrages a market against itself.
pub open spec fn pair_allowed(b: MarketData, s: MarketData) -> bool {
    !(b.exchange == s.exchange && b.instrument == s.instrument)
}

/// The factor a raw amount is multiplied by to reach `Amount` scale in the
/// comparison currency: the foreign-exchange rate for a foreign leg, the
/// plain price scale for a domestic one.
pub open spec fn conv_factor(c: Currency, fx: int) -> int {
    if c == Currency::USD {
        fx
    } else {
        PRICE_SCALE as int
    }
}

/// Buy-side cost per unit before conversion: ask times one plus fee plus
/// slippage, at `Price` scale.
pub open spec fn buy_unit_cost(b: MarketData, cfg: EngineConfig) -> int {
    spec_apply_rate(
        b.ask.raw as int,
        (RATE_SCALE as int) + cfg.fee_of(b.exchange) + cfg.slippage.raw,
    )
}

/// Sell-side proceeds per unit before conversion: bid times one minus fee
/// minus slippage, at `Price` scale.
pub open spec fn sell_unit_proceeds(s: MarketData, cfg: EngineConfig) -> int {
    spec_apply_rate(
        s.bid.raw as int,
        (RATE_SCALE as int) - cfg.fee_of(s.exchange) - cfg.slippage.raw,
    )
}

/// Buy-side cost per unit in the comparison currency, at `Amount` scale.
pub open spec fn buy_cost(b: MarketData, fx: int, cfg: EngineConfig) -> int {
    buy_unit_cost(b, cfg) * conv_factor(b.currency, fx)
}

/// Sell-side proceeds per unit in the comparison currency, at `Amount` scale.
pub open spec fn sell_proceeds(s: MarketData, fx: int, cfg: EngineConfig) -> int {
    sell_unit_proceeds(s, cfg) * conv_factor(s.currency, fx)
}

/// Funding impact as a fraction of buy-side cost, at `Rate` scale: a
/// perpetual buy leg pays its funding rate, a perpetual sell leg receives
/// its funding rate, and spot legs contribute nothing.
pub open spec fn funding_fraction(b: MarketData, s: MarketData) -> int {
    (if b.instrument == InstrumentType::Perp {
        -(b.funding_rate.raw as int)
    } else {
        0
    }) + (if s.instrument == InstrumentType::Perp {
        s.funding_rate.raw as int
    } else {
        0
    })
}

/// Profit before funding: proceeds minus cost, at `Amount` scale.
pub open spec fn base_profit(b: MarketData, s: MarketData, fx: int, cfg: EngineConfig) -> int {
    sell_proceeds(s, fx, cfg) - buy_cost(b, fx, cfg)
}

/// Funding profit: the funding fraction applied to the buy-side cost, at
/// `Amount` scale.
pub open spec fn funding_profit(b: MarketData, s: MarketData, fx: int, cfg: EngineConfig) -> int {
    (buy_cost(b, fx, cfg) / (RATE_SCALE as int)) * funding_fraction(b, s)
}

/// Net profit: base profit plus funding profit, at `Amount` scale.
pub open spec fn net_profit(b: MarketData, s: MarketData, fx: int, cfg: EngineConfig) -> int {
    base_profit(b, s, fx, cfg) + funding_profit(b, s, fx, cfg)
}

/// Net profit percentage: net profit over buy cost, as a percent at `Rate`
/// scale, truncated toward zero.  Meaningful for a positive buy cost.
pub open spec fn pct_scaled(b: MarketData, s: MarketData, fx: int, cfg: EngineConfig) -> int {
    (net_profit(b, s, fx, cfg) * (PCT_FACTOR as int)) / buy_cost(b, fx, cfg)
}

/// Whether the pairing beats the best percentage seen so far: it must be
/// allowed, cost something to enter, return a positive net profit, and
/// strictly exceed the previous best.
pub open spec fn viable(
    b: MarketData,
    s: MarketData,
    fx: int,
    cfg: EngineConfig,
    best: int,
) -> bool {
    &&& pair_allowed(b, s)
    &&& buy_cost(b, fx, cfg) > 0
    &&& net_profit(b, s, fx, cfg) > 0
    &&& pct_scaled(b, s, fx, cfg) > best
}

/// The legs of the list that belong to the asset, in list order.
pub open spec fn legs_for(legs: Seq<MarketData>, asset: Asset) -> Seq<MarketData>
    decreases legs.len(),
{
    if legs.len() == 0 {
        Seq::empty()
    } else {
        let rest = legs_for(legs.drop_last(), asset);
        if legs.last().asset == asset {
            rest.push(legs.last())
        } else {
            rest
        }
    }
}

/// Every leg of the sequence is well formed.
pub open spec fn legs_wf(legs: Seq<MarketData>) -> bool {
    forall|i: int| 0 <= i < legs.len() ==> #[trigger] legs[i].wf()
}

/// The converted fee amount of one side: price times fee, converted, at
/// `Amount` scale.
pub open spec fn fee_amount(price: int, fee: int, c: Currency, fx: int) -> int {
    spec_apply_rate(price, fee) * conv_factor(c, fx)
}

/// The full record for a selected pairing, every intermediate value included
/// so a caller can audit the cost breakdown.
pub open spec fn opportunity_for(
    b: MarketData,
    s: MarketData,
    asset: Asset,
    fx: Price,
    cfg: EngineConfig,
) -> ArbitrageOpportunity {
    ArbitrageOpportunity {
        asset,
        long_exchange: b.exchange,
        long_instrument: b.instrument,
        long_price_jpy: Amount { raw: buy_cost(b, fx.raw as int, cfg) as i128 },
        long_price_raw: b.ask,
        long_currency: b.currency,
        long_fee_jpy: Amount {
            raw: fee_amount(
                b.ask.raw as int,
                cfg.fee_of(b.exchange),
                b.currency,
                fx.raw as int,
            ) as i128,
        },
        short_exchange: s.exchange,
        short_instrument: s.instrument,
        short_price_jpy: Amount { raw: sell_proceeds(s, fx.raw as int, cfg) as i128 },
        short_price_raw: s.bid,
        short_currency: s.currency,
        short_fee_jpy: Amount {
            raw: fee_amount(
                s.bid.raw as int,
                cfg.fee_of(s.exchange),
                s.currency,
                fx.raw as int,
            ) as i128,
        },
        base_profit_jpy: Amount { raw: base_profit(b, s, fx.raw as int, cfg) as i128 },
        fr_impact_jpy: Amount { raw: funding_profit(b, s, fx.raw as int, cfg) as i128 },
        slippage_cost_jpy: Amount {
            raw: (fee_amount(b.ask.raw as int, cfg.slippage.raw as int, b.currency, fx.raw as int)
                + fee_amount(
                s.bid.raw as int,
                cfg.slippage.raw as int,
                s.currency,
                fx.raw as int,
            )) as i128,
        },
        estimated_profit_jpy: Amount { raw: net_profit(b, s, fx.raw as int, cfg) as i128 },
        estimated_profit_pct: Rate { raw: pct_scaled(b, s, fx.raw as int, cfg) as i128 },
        usd_jpy_rate: fx,
    }
}

/// The best percentage and the indices of the winning pairing after the
/// first `p` of the `n * n` ordered pairs of the filtered legs have been
/// examined, pairs ordered buy-major (pair `p` buys leg `p / n` and sells
/// leg `p % n`).  The percentage starts at zero, so only a strictly
/// positive percentage is ever selected, and a tie keeps the earlier pair.
pub open spec fn scan_best(
    fl: Seq<MarketData>,
    fx: int,
    cfg: EngineConfig,
    p: nat,
) -> (int, Option<(int, int)>)
    decreases p,
{
    if p == 0 {
        (0, None)
    } else {
        let prev = scan_best(fl, fx, cfg, (p - 1) as nat);
        let i = ((p - 1) as int) / (fl.len() as int);
        let j = ((p - 1) as int) % (fl.len() as int);
        if viable(fl[i], fl[j], fx, cfg, prev.0) {
            (pct_scaled(fl[i], fl[j], fx, cfg), Some((i, j)))
        } else {
            prev
        }
    }
}

/// Largest magnitude a converted amount can reach: twice the largest price
/// times the largest conversion factor.
pub const AMOUNT_LIMIT: i128 = 20_000_000_000_000_000_000_000_000;

/// The conversion factor of a leg, executable.
fn conv_exec(c: Currency, fx: Price) -> (r: i128)
    requires
        0 <= fx.raw <= MAX_FX_RAW,
    ensures
        r == conv_factor(c, fx.raw as int),
        0 <= r <= MAX_FX_RAW,
{
    match c {
        Currency::USD => fx.raw,
        Currency::JPY => PRICE_SCALE,
    }
}

/// Nonnegative values divided stay under a bound given by the divisor.
proof fn lemma_div_bound(x: int, d: int, b: int)
    requires
        0 <= x,
        0 < d,
        x <= b * d,
    ensures
        0 <= x / d <= b,
{
    vstd::arithmetic::div_mod::lemma_fundamental_div_mod(x, d);
    assert(x / d >= 0) by (nonlinear_arith)
        requires
            0 <= x,
            0 < d,
            x == d * (x / d) + x % d,
            0 <= x % d < d,
    ;
    assert(x / d <= b) by (nonlinear_arith)
        requires
            x <= b * d,
            0 < d,
            x == d * (x / d) + x % d,
            0 <= x % d < d,
    ;
}

/// The buy-side converted cost, executable, with its range.
fn leg_cost(b: &MarketData, fx: Price, cfg: &EngineConfig) -> (r: i128)
    requires
        b.wf(),
        cfg.wf(),
        0 <= fx.raw <= MAX_FX_RAW,
    ensures
        r == buy_cost(*b, fx.raw as int, *cfg),
        0 <= r <= AMOUNT_LIMIT,
{
    let fee = cfg.fee_for(b.exchange);
    let mult: i128 = RATE_SCALE + fee.raw + cfg.slippage.raw;
    let unit = apply_rate(b.ask.raw, mult);
    let conv = conv_exec(b.currency, fx);
    proof {
        assert(0 <= unit * conv <= AMOUNT_LIMIT) by (nonlinear_arith)
            requires
                0 <= unit <= 2 * MAX_PRICE_RAW,
                0 <= conv <= MAX_FX_RAW,
        ;
    }
    unit * conv
}

/// The sell-side converted proceeds, executable, with their range.
fn leg_proceeds(s: &MarketData, fx: Price, cfg: &EngineConfig) -> (r: i128)
    requires
        s.wf(),
        cfg.wf(),
        0 <= fx.raw <= MAX_FX_RAW,
    ensures
        r == sell_proceeds(*s, fx.raw as int, *cfg),
        0 <= r <= AMOUNT_LIMIT,
{
    let fee = cfg.fee_for(s.exchange);
    let mult: i128 = RATE_SCALE - fee.raw - cfg.slippage.raw;
    let unit = apply_rate(s.bid.raw, mult);
    let conv = conv_exec(s.currency, fx);
    proof {
        assert(0 <= unit * conv <= AMOUNT_LIMIT) by (nonlinear_arith)
            requires
                0 <= unit <= 2 * MAX_PRICE_RAW,
                0 <= conv <= MAX_FX_RAW,
        ;
    }
    unit * conv
}

/// The funding fraction of a pairing, executable, with its range.
fn funding_frac_exec(b: &MarketData, s: &MarketData) -> (r: i128)
    requires
        b.wf(),
        s.wf(),
    ensures
        r == funding_fraction(*b, *s),
        -2 * RATE_SCALE <= r <= 2 * RATE_SCALE,
{
    let buy_part: i128 = match b.instrument {
        InstrumentType::Perp => -b.funding_rate.raw,
        InstrumentType::Spot => 0,
    };
    let sell_part: i128 = match s.instrument {
        InstrumentType::Perp => s.funding_rate.raw,
        InstrumentType::Spot => 0,
    };
    buy_part + sell_part
}

/// The net profit of a pairing, executable, with its range.
fn pair_net_profit(b: &MarketData, s: &MarketData, fx: Price, cfg: &EngineConfig) -> (r: i128)
    requires
        b.wf(),
        s.wf(),
        cfg.wf(),
        0 <= fx.raw <= MAX_FX_RAW,
    ensures
        r == net_profit(*b, *s, fx.raw as int, *cfg),
        -3 * AMOUNT_LIMIT <= r <= 3 * AMOUNT_LIMIT,
{
    let cost = leg_cost(b, fx, cfg);
    let proceeds = leg_proceeds(s, fx, cfg);
    let q = div_nonneg(cost, RATE_SCALE);
    proof {
        lemma_div_bound(cost as int, RATE_SCALE as int, 20_000_000_000_000_000);
    }
    let frf = funding_frac_exec(b, s);
    proof {
        assert(-40_000_000_000_000_000_000_000_000 <= q * frf
            <= 40_000_000_000_000_000_000_000_000) by (nonlinear_arith)
            requires
                0 <= q <= 20_000_000_000_000_000,
                -2 * RATE_SCALE <= frf <= 2 * RATE_SCALE,
        ;
    }
    let fp = q * frf;
    proceeds - cost + fp
}

/// The converted fee (or slippage) amount of one side, executable.
fn fee_amount_exec(price: Price, rate: Rate, c: Currency, fx: Price) -> (r: i128)
    requires
        price.wf(),
        -RATE_SCALE <= rate.raw <= RATE_SCALE,
        0 <= fx.raw <= MAX_FX_RAW,
    ensures
        r == fee_amount(price.raw as int, rate.raw as int, c, fx.raw as int),
        -AMOUNT_LIMIT <= r <= AMOUNT_LIMIT,
{
    let a = apply_rate(price.raw, rate.raw);
    let conv = conv_exec(c, fx);
    proof {
        assert(-AMOUNT_LIMIT <= a * conv <= AMOUNT_LIMIT) by (nonlinear_arith)
            requires
                -2 * MAX_PRICE_RAW <= a <= 2 * MAX_PRICE_RAW,
                0 <= conv <= MAX_FX_RAW,
        ;
    }
    a * conv
}

/// The truncated profit percentage of a pairing whose cost and net profit
/// are positive; nothing when the pairing cannot be selected.
fn pair_profit(b: &MarketData, s: &MarketData, fx: Price, cfg: &EngineConfig) -> (r: Option<
    i128,
>)
    requires
        b.wf(),
        s.wf(),
        cfg.wf(),
        0 <= fx.raw <= MAX_FX_RAW,
    ensures
        match r {
            Some(pct) => buy_cost(*b, fx.raw as int, *cfg) > 0 && net_profit(
                *b,
                *s,
                fx.raw as int,
                *cfg,
            ) > 0 && pct == pct_scaled(*b, *s, fx.raw as int, *cfg) && pct >= 0,
            None => buy_cost(*b, fx.raw as int, *cfg) <= 0 || net_profit(
                *b,
                *s,
                fx.raw as int,
                *cfg,
            ) <= 0,
        },
{
    let cost = leg_cost(b, fx, cfg);
    let net = pair_net_profit(b, s, fx, cfg);
    if cost <= 0 || net <= 0 {
        return None;
    }
    proof {
        assert(0 <= net * PCT_FACTOR <= 6_000_000_000_000_000_000_000_000_000_000_000_000)
            by (nonlinear_arith)
            requires
                0 < net <= 3 * AMOUNT_LIMIT,
        ;
        lemma_div_bound(
            (net * PCT_FACTOR) as int,
            cost as int,
            6_000_000_000_000_000_000_000_000_000_000_000_000,
        );
        assert(net * PCT_FACTOR <= 6_000_000_000_000_000_000_000_000_000_000_000_000 * cost)
            by (nonlinear_arith)
            requires
                0 < net * PCT_FACTOR <= 6_000_000_000_000_000_000_000_000_000_000_000_000,
                cost >= 1,
        ;
    }
    let pct = div_nonneg(net * PCT_FACTOR, cost);
    Some(pct)
}

/// The full opportunity record of a selected pairing, executable.
fn build_opportunity(
    b: &MarketData,
    s: &MarketData,
    asset: Asset,
    fx: Price,
    cfg: &EngineConfig,
) -> (o: ArbitrageOpportunity)
    requires
        b.wf(),
        s.wf(),
        cfg.wf(),
        0 <= fx.raw <= MAX_FX_RAW,
        buy_cost(*b, fx.raw as int, *cfg) > 0,
        net_profit(*b, *s, fx.raw as int, *cfg) > 0,
    ensures
        o == opportunity_for(*b, *s, asset, fx, *cfg),
{
    let cost = leg_cost(b, fx, cfg);
    let proceeds = leg_proceeds(s, fx, cfg);
    let net = pair_net_profit(b, s, fx, cfg);
    let base = proceeds - cost;
    let fr_impact = net - base;
    proof {
        assert(0 <= net * PCT_FACTOR <= 6_000_000_000_000_000_000_000_000_000_000_000_000)
            by (nonlinear_arith)
            requires
                0 < net <= 3 * AMOUNT_LIMIT,
        ;
        lemma_div_bound(
            (net * PCT_FACTOR) as int,
            cost as int,
            6_000_000_000_000_000_000_000_000_000_000_000_000,
        );
        assert(net * PCT_FACTOR <= 6_000_000_000_000_000_000_000_000_000_000_000_000 * cost)
            by (nonlinear_arith)
            requires
                0 < net * PCT_FACTOR <= 6_000_000_000_000_000_000_000_000_000_000_000_000,
                cost >= 1,
        ;
    }
    let pct = div_nonneg(net * PCT_FACTOR, cost);
    let buy_fee = fee_amount_exec(b.ask, cfg.fee_for(b.exchange), b.currency, fx);
    let sell_fee = fee_amount_exec(s.bid, cfg.fee_for(s.exchange), s.currency, fx);
    let buy_slip = fee_amount_exec(b.ask, cfg.slippage, b.currency, fx);
    let sell_slip = fee_amount_exec(s.bid, cfg.slippage, s.currency, fx);
    ArbitrageOpportunity {
        asset,
        long_exchange: b.exchange,
        long_instrument: b.instrument,
        long_price_jpy: Amount { raw: cost },
        long_price_raw: b.ask,
        long_currency: b.currency,
        long_fee_jpy: Amount { raw: buy_fee },
        short_exchange: s.exchange,
        short_instrument: s.instrument,
        short_price_jpy: Amount { raw: proceeds },
        short_price_raw: s.bid,
        short_currency: s.currency,
        short_fee_jpy: Amount { raw: sell_fee },
        base_profit_jpy: Amount { raw: base },
        fr_impact_jpy: Amount { raw: fr_impact },
        slippage_cost_jpy: Amount { raw: buy_slip + sell_slip },
        estimated_profit_jpy: Amount { raw: net },
        estimated_profit_pct: Rate { raw: pct },
        usd_jpy_rate: fx,
    }
}

/// One step of the pair scan: pair `i * n + j` examines buy leg `i` and sell
/// leg `j`.
proof fn lemma_scan_step(fl: Seq<MarketData>, fx: int, cfg: EngineConfig, i: int, j: int)
    requires
        0 <= i < fl.len(),
        0 <= j < fl.len(),
    ensures
        scan_best(fl, fx, cfg, (i * fl.len() + j + 1) as nat) == ({
            let prev = scan_best(fl, fx, cfg, (i * fl.len() + j) as nat);
            if viable(fl[i], fl[j], fx, cfg, prev.0) {
                (pct_scaled(fl[i], fl[j], fx, cfg), Some((i, j)))
            } else {
                prev
            }
        }),
{
    let n = fl.len() as int;
    assert(0 <= i * n + j) by (nonlinear_arith)
        requires
            0 <= i,
            0 <= j,
            0 < n,
    ;
    let p = i * n + j;
    vstd::arithmetic::div_mod::lemma_fundamental_div_mod_converse(p, n, i, j);
    assert(p / n == i && p % n == j);
    let q: nat = (p + 1) as nat;
    assert(q != 0);
    assert(((q - 1) as nat) == p as nat);
    assert(((q - 1) as int) == p);
    assert(scan_best(fl, fx, cfg, q) == ({
        let prev = scan_best(fl, fx, cfg, (q - 1) as nat);
        if viable(fl[p / n], fl[p % n], fx, cfg, prev.0) {
            (pct_scaled(fl[p / n], fl[p % n], fx, cfg), Some((p / n, p % n)))
        } else {
            prev
        }
    }));
    assert(q == (i * fl.len() + j + 1) as nat);
    assert((q - 1) as nat == (i * fl.len() + j) as nat);
    assert(scan_best(fl, fx, cfg, (i * fl.len() + j + 1) as nat) == ({
        let prev = scan_best(fl, fx, cfg, (i * fl.len() + j) as nat);
        if viable(fl[i], fl[j], fx, cfg, prev.0) {
            (pct_scaled(fl[i], fl[j], fx, cfg), Some((i, j)))
        } else {
            prev
        }
    }));
}

/// Finds the most profitable buy/sell pairing for one asset under the given
/// fee configuration; nothing when no allowed pairing has a positive,
/// improving net profit percentage.
pub fn find_best_arbitrage_with(
    market_data_list: &Vec<MarketData>,
    target_asset: Asset,
    usd_jpy_rate: Price,
    config: &EngineConfig,
) -> (r: Option<ArbitrageOpportunity>)
    requires
        legs_wf(market_data_list@),
        config.wf(),
        0 <= usd_jpy_rate.raw <= MAX_FX_RAW,
    ensures
        ({
            let fl = legs_for(market_data_list@, target_asset);
            let best = scan_best(
                fl,
                usd_jpy_rate.raw as int,
                *config,
                (fl.len() * fl.len()) as nat,
            );
            match r {
                None => best.1 is None,
                Some(o) => best.1 matches Some(w) && o == opportunity_for(
                    fl[w.0],
                    fl[w.1],
                    target_asset,
                    usd_jpy_rate,
                    *config,
                ) && o.estimated_profit_pct.raw == best.0,
            }
        }),
{
    let ghost whole: Seq<MarketData> = market_data_list@;
    let mut relevant: Vec<MarketData> = Vec::new();
    let mut idx: usize = 0;
    while idx < market_data_list.len()
        invariant
            idx <= market_data_list@.len(),
            market_data_list@ == whole,
            legs_wf(whole),
            relevant@ == legs_for(whole.take(idx as int), target_asset),
            legs_wf(relevant@),
        decreases market_data_list@.len() - idx,
    {
        let d = market_data_list[idx];
        proof {
            assert(whole.take(idx + 1).drop_last() =~= whole.take(idx as int));
            assert(whole.take(idx + 1).last() == whole[idx as int]);
        }
        if d.asset == target_asset {
            relevant.push(d);
        }
        idx = idx + 1;
    }
    proof {
        assert(whole.take(whole.len() as int) =~= whole);
    }
    let ghost fl: Seq<MarketData> = relevant@;
    let ghost fx_int: int = usd_jpy_rate.raw as int;
    let n = relevant.len();
    let mut best_pct: i128 = 0;
    let mut best: Option<ArbitrageOpportunity> = None;
    let mut i: usize = 0;
    while i < n
        invariant
            i <= n,
            n == relevant@.len(),
            relevant@ == fl,
            fl == legs_for(whole, target_asset),
            legs_wf(fl),
            config.wf(),
            0 <= usd_jpy_rate.raw <= MAX_FX_RAW,
            fx_int == usd_jpy_rate.raw as int,
            best_pct >= 0,
            ({
                let sc = scan_best(fl, fx_int, *config, (i * n) as nat);
                &&& sc.0 == best_pct
                &&& match best {
                    None => sc.1 is None,
                    Some(o) => sc.1 matches Some(w) && 0 <= w.0 < n && 0 <= w.1 < n && o
                        == opportunity_for(fl[w.0], fl[w.1], target_asset, usd_jpy_rate, *config)
                        && o.estimated_profit_pct.raw == sc.0,
                }
            }),
        decreases n - i,
    {
        let mut j: usize = 0;
        while j < n
            invariant
                i < n,
                j <= n,
                n == relevant@.len(),
                relevant@ == fl,
                legs_wf(fl),
                config.wf(),
                0 <= usd_jpy_rate.raw <= MAX_FX_RAW,
                fx_int == usd_jpy_rate.raw as int,
                best_pct >= 0,
                ({
                    let sc = scan_best(fl, fx_int, *config, (i * n + j) as nat);
                    &&& sc.0 == best_pct
                    &&& match best {
                        None => sc.1 is None,
                        Some(o) => sc.1 matches Some(w) && 0 <= w.0 < n && 0 <= w.1 < n && o
                            == opportunity_for(
                            fl[w.0],
                            fl[w.1],
                            target_asset,
                            usd_jpy_rate,
                            *config,
                        ) && o.estimated_profit_pct.raw == sc.0,
                    }
                }),
            decreases n - j,
        {
            let b = relevant[i];
            let sl = relevant[j];
            proof {
                lemma_scan_step(fl, fx_int, *config, i as int, j as int);
            }
            let allowed = !(b.exchange == sl.exchange && b.instrument == sl.instrument);
            if allowed {
                match pair_profit(&b, &sl, usd_jpy_rate, config) {
                    Some(pct) => {
                        if pct > best_pct {
                            best_pct = pct;
                            best = Some(
                                build_opportunity(&b, &sl, target_asset, usd_jpy_rate, config),
                            );
                        }
                    },
                    None => {},
                }
            }
            j = j + 1;
        }
        proof {
            assert(i * n + n == (i + 1) * n) by (nonlinear_arith);
        }
        i = i + 1;
    }
    proof {
        assert(n * n == n * n);
        assert(i == n);
        assert((i * n) as nat == (fl.len() * fl.len()) as nat);
    }
    best
}

/// Finds the most profitable pairing under the compiled-in default fees and
/// slippage.
pub fn find_best_arbitrage(
    market_data_list: &Vec<MarketData>,
    target_asset: Asset,
    usd_jpy_rate: Price,
) -> (r: Option<ArbitrageOpportunity>)
    requires
        legs_wf(market_data_list@),
        0 <= usd_jpy_rate.raw <= MAX_FX_RAW,
    ensures
        ({
            let fl = legs_for(market_data_list@, target_asset);
            let best = scan_best(
                fl,
                usd_jpy_rate.raw as int,
                default_config(),
                (fl.len() * fl.len()) as nat,
            );
            match r {
                None => best.1 is None,
                Some(o) => best.1 matches Some(w) && o == opportunity_for(
                    fl[w.0],
                    fl[w.1],
                    target_asset,
                    usd_jpy_rate,
                    default_config(),
                ) && o.estimated_profit_pct.raw == best.0,
            }
        }),
{
    let cfg = EngineConfig::default_fees();
    assert(cfg == default_config());
    find_best_arbitrage_with(market_data_list, target_asset, usd_jpy_rate, &cfg)
}

/// The default engine configuration as a value.
pub open spec fn default_config() -> EngineConfig {
    EngineConfig {
        fee_hyperliquid: Rate { raw: 450_000 },
        fee_bitbank: Rate { raw: 1_200_000 },
        fee_kraken: Rate { raw: 0 },
        fee_gmo: Rate { raw: 500_000 },
        slippage: Rate { raw: 100_000 },
    }
}

/// The engine never arbitrages a market against itself: when every two legs
/// of the filtered list share both venue and instrument — in particular when
/// the list has at most one leg, or holds copies of one market — no pairing
/// is ever selected, however far the scan runs.
pub proof fn lemma_no_self_pairing(fl: Seq<MarketData>, fx: int, cfg: EngineConfig, p: nat)
    requires
        forall|a: int, b: int|
            0 <= a < fl.len() && 0 <= b < fl.len() ==> #[trigger] fl[a].exchange == #[trigger] fl[b].exchange
                && fl[a].instrument == fl[b].instrument,
        p <= fl.len() * fl.len(),
    ensures
        scan_best(fl, fx, cfg, p) == (0int, None::<(int, int)>),
    decreases p,
{
    if p > 0 {
        lemma_no_self_pairing(fl, fx, cfg, (p - 1) as nat);
        let n = fl.len() as int;
        let x = (p - 1) as int;
        assert(n >= 1) by (nonlinear_arith)
            requires
                0 <= x < n * n,
                0 <= n,
        ;
        vstd::arithmetic::div_mod::lemma_fundamental_div_mod(x, n);
        let i = x / n;
        let j = x % n;
        assert(0 <= i < n) by (nonlinear_arith)
            requires
                0 <= x < n * n,
                0 < n,
                x == n * i + j,
                0 <= j < n,
        ;
        assert(!pair_allowed(fl[i], fl[j]));
    }
}

/// A list with at most one leg never yields an opportunity.
pub proof fn lemma_single_leg_no_opportunity(fl: Seq<MarketData>, fx: int, cfg: EngineConfig)
    requires
        fl.len() <= 1,
    ensures
        scan_best(fl, fx, cfg, (fl.len() * fl.len()) as nat) == (0int, None::<(int, int)>),
{
    lemma_no_self_pairing(fl, fx, cfg, (fl.len() * fl.len()) as nat);
}

/// Funding-rate sign, buy side: raising a perpetual buy leg's funding rate
/// never raises the net profit, all else equal; it strictly lowers it once
/// the buy cost reaches one whole `RATE_SCALE` unit.
pub proof fn lemma_buy_funding_reduces_profit(
    b0: MarketData,
    b1: MarketData,
    s: MarketData,
    fx: int,
    cfg: EngineConfig,
)
    requires
        b0.wf(),
        cfg.wf(),
        0 <= fx <= MAX_FX_RAW,
        b0.instrument == InstrumentType::Perp,
        b1 == (MarketData { funding_rate: b1.funding_rate, ..b0 }),
        b0.funding_rate.raw <= b1.funding_rate.raw,
    ensures
        net_profit(b1, s, fx, cfg) <= net_profit(b0, s, fx, cfg),
        net_profit(b0, s, fx, cfg) - net_profit(b1, s, fx, cfg) == (buy_cost(b0, fx, cfg) / (
        RATE_SCALE as int)) * (b1.funding_rate.raw - b0.funding_rate.raw),
        b0.funding_rate.raw < b1.funding_rate.raw && buy_cost(b0, fx, cfg) / (RATE_SCALE as int)
            >= 1 ==> net_profit(b1, s, fx, cfg) < net_profit(b0, s, fx, cfg),
{
    assert(buy_cost(b1, fx, cfg) == buy_cost(b0, fx, cfg));
    lemma_cost_nonneg(b0, fx, cfg);
    let q = buy_cost(b0, fx, cfg) / (RATE_SCALE as int);
    assert(q >= 0) by {
        lemma_div_bound(buy_cost(b0, fx, cfg), RATE_SCALE as int, 20_000_000_000_000_000);
    }
    let d0 = funding_fraction(b0, s);
    let d1 = funding_fraction(b1, s);
    assert(d1 == d0 - (b1.funding_rate.raw - b0.funding_rate.raw));
    assert(q * d1 <= q * d0) by (nonlinear_arith)
        requires
            q >= 0,
            d1 <= d0,
    ;
    assert(q * d0 - q * d1 == q * (d0 - d1)) by (nonlinear_arith);
    assert(q >= 1 && d1 < d0 ==> q * d1 < q * d0) by (nonlinear_arith);
}

/// Funding-rate sign, sell side: raising a perpetual sell leg's funding rate
/// never lowers the net profit, all else equal; it strictly raises it once
/// the buy cost reaches one whole `RATE_SCALE` unit.
pub proof fn lemma_sell_funding_raises_profit(
    b: MarketData,
    s0: MarketData,
    s1: MarketData,
    fx: int,
    cfg: EngineConfig,
)
    requires
        b.wf(),
        cfg.wf(),
        0 <= fx <= MAX_FX_RAW,
        s0.instrument == InstrumentType::Perp,
        s1 == (MarketData { funding_rate: s1.funding_rate, ..s0 }),
        s0.funding_rate.raw <= s1.funding_rate.raw,
    ensures
        net_profit(b, s1, fx, cfg) >= net_profit(b, s0, fx, cfg),
        net_profit(b, s1, fx, cfg) - net_profit(b, s0, fx, cfg) == (buy_cost(b, fx, cfg) / (
        RATE_SCALE as int)) * (s1.funding_rate.raw - s0.funding_rate.raw),
        s0.funding_rate.raw < s1.funding_rate.raw && buy_cost(b, fx, cfg) / (RATE_SCALE as int)
            >= 1 ==> net_profit(b, s1, fx, cfg) > net_profit(b, s0, fx, cfg),
{
    assert(sell_proceeds(s1, fx, cfg) == sell_proceeds(s0, fx, cfg));
    lemma_cost_nonneg(b, fx, cfg);
    let q = buy_cost(b, fx, cfg) / (RATE_SCALE as int);
    assert(q >= 0) by {
        lemma_div_bound(buy_cost(b, fx, cfg), RATE_SCALE as int, 20_000_000_000_000_000);
    }
    let d0 = funding_fraction(b, s0);
    let d1 = funding_fraction(b, s1);
    assert(d1 == d0 + (s1.funding_rate.raw - s0.funding_rate.raw));
    assert(q * d1 >= q * d0) by (nonlinear_arith)
        requires
            q >= 0,
            d1 >= d0,
    ;
    assert(q * d1 - q * d0 == q * (d1 - d0)) by (nonlinear_arith);
    assert(q >= 1 && d1 > d0 ==> q * d1 > q * d0) by (nonlinear_arith);
}

/// A well-formed leg never has a negative converted cost or proceeds.
pub proof fn lemma_cost_nonneg(d: MarketData, fx: int, cfg: EngineConfig)
    requires
        d.wf(),
        cfg.wf(),
        0 <= fx <= MAX_FX_RAW,
    ensures
        0 <= buy_cost(d, fx, cfg) <= AMOUNT_LIMIT,
        0 <= sell_proceeds(d, fx, cfg) <= AMOUNT_LIMIT,
{
    crate::num::lemma_apply_rate_bounds(
        d.ask.raw as int,
        (RATE_SCALE as int) + cfg.fee_of(d.exchange) + cfg.slippage.raw,
    );
    crate::num::lemma_apply_rate_bounds(
        d.bid.raw as int,
        (RATE_SCALE as int) - cfg.fee_of(d.exchange) - cfg.slippage.raw,
    );
    let conv = conv_factor(d.currency, fx);
    assert(0 <= conv <= MAX_FX_RAW);
    assert(0 <= buy_unit_cost(d, cfg) * conv <= AMOUNT_LIMIT) by (nonlinear_arith)
        requires
            0 <= buy_unit_cost(d, cfg) <= 2 * MAX_PRICE_RAW,
            0 <= conv <= MAX_FX_RAW,
    ;
    assert(0 <= sell_unit_proceeds(d, cfg) * conv <= AMOUNT_LIMIT) by (nonlinear_arith)
        requires
            0 <= sell_unit_proceeds(d, cfg) <= 2 * MAX_PRICE_RAW,
            0 <= conv <= MAX_FX_RAW,
    ;
}

/// Currency conversion is linear: a foreign-currency leg's converted cost
/// and proceeds scale linearly with the supplied foreign-exchange rate —
/// doubling the rate doubles them — while a domestic leg never depends on
/// the rate at all.
pub proof fn lemma_fx_linearity(d: MarketData, fx: int, k: int, cfg: EngineConfig)
    ensures
        d.currency == Currency::USD ==> buy_cost(d, k * fx, cfg) == k * buy_cost(d, fx, cfg),
        d.currency == Currency::USD ==> sell_proceeds(d, k * fx, cfg) == k * sell_proceeds(
            d,
            fx,
            cfg,
        ),
        d.currency == Currency::JPY ==> buy_cost(d, k * fx, cfg) == buy_cost(d, fx, cfg)
            && sell_proceeds(d, k * fx, cfg) == sell_proceeds(d, fx, cfg),
{
    if d.currency == Currency::USD {
        let u = buy_unit_cost(d, cfg);
        let v = sell_unit_proceeds(d, cfg);
        assert(u * (k * fx) == k * (u * fx)) by (nonlinear_arith);
        assert(v * (k * fx) == k * (v * fx)) by (nonlinear_arith);
    }
}

/// The running best percentage never goes negative and never decreases as
/// the scan advances.
pub proof fn lemma_scan_monotone(fl: Seq<MarketData>, fx: int, cfg: EngineConfig, p: nat, q: nat)
    requires
        p <= q,
    ensures
        0 <= scan_best(fl, fx, cfg, p).0 <= scan_best(fl, fx, cfg, q).0,
    decreases q,
{
    if q == 0 {
    } else if p == q {
        lemma_scan_monotone(fl, fx, cfg, (p - 1) as nat, (q - 1) as nat);
    } else {
        lemma_scan_monotone(fl, fx, cfg, p, (q - 1) as nat);
    }
}

/// A nonpositive net profit never has a positive percentage.
proof fn lemma_nonpos_pct(b: MarketData, s: MarketData, fx: int, cfg: EngineConfig)
    requires
        buy_cost(b, fx, cfg) > 0,
        net_profit(b, s, fx, cfg) <= 0,
    ensures
        pct_scaled(b, s, fx, cfg) <= 0,
{
    let num = net_profit(b, s, fx, cfg) * (PCT_FACTOR as int);
    assert(net_profit(b, s, fx, cfg) * (PCT_FACTOR as int) <= 0) by (nonlinear_arith)
        requires
            net_profit(b, s, fx, cfg) <= 0,
            (PCT_FACTOR as int) >= 0,
    ;
    vstd::arithmetic::div_mod::lemma_fundamental_div_mod(num, buy_cost(b, fx, cfg));
    assert(num / buy_cost(b, fx, cfg) <= 0) by (nonlinear_arith)
        requires
            num <= 0,
            buy_cost(b, fx, cfg) > 0,
            num == buy_cost(b, fx, cfg) * (num / buy_cost(b, fx, cfg)) + num % buy_cost(
                b,
                fx,
                cfg,
            ),
            0 <= num % buy_cost(b, fx, cfg) < buy_cost(b, fx, cfg),
    ;
}

/// Maximality of the selection: once the scan has passed an allowed pairing
/// with a positive cost, its running best percentage is at least that
/// pairing's percentage — the pairing finally returned is a best one.
pub proof fn lemma_scan_maximal(
    fl: Seq<MarketData>,
    fx: int,
    cfg: EngineConfig,
    p: nat,
    i: int,
    j: int,
)
    requires
        0 <= i < fl.len(),
        0 <= j < fl.len(),
        i * fl.len() + j < p,
        pair_allowed(fl[i], fl[j]),
        buy_cost(fl[i], fx, cfg) > 0,
    ensures
        scan_best(fl, fx, cfg, p).0 >= pct_scaled(fl[i], fl[j], fx, cfg),
    decreases p,
{
    let pct = pct_scaled(fl[i], fl[j], fx, cfg);
    if p == i * fl.len() + j + 1 {
        lemma_scan_step(fl, fx, cfg, i, j);
        let prev = scan_best(fl, fx, cfg, (p - 1) as nat);
        lemma_scan_monotone(fl, fx, cfg, (p - 1) as nat, (p - 1) as nat);
        if viable(fl[i], fl[j], fx, cfg, prev.0) {
        } else {
            // Not selected though allowed and affordable: the pairing either
            // nets nothing or does not beat the best seen so far.
            if net_profit(fl[i], fl[j], fx, cfg) <= 0 {
                lemma_nonpos_pct(fl[i], fl[j], fx, cfg);
            }
        }
    } else {
        lemma_scan_maximal(fl, fx, cfg, (p - 1) as nat, i, j);
        lemma_scan_monotone(fl, fx, cfg, (p - 1) as nat, p);
    }
}

/// Completeness of the absence case: when the scan selects nothing, no
/// allowed pairing it has examined beats the zero threshold — there was no
/// positive, improving margin.
pub proof fn lemma_none_means_no_margin(fl: Seq<MarketData>, fx: int, cfg: EngineConfig, p: nat)
    ensures
        scan_best(fl, fx, cfg, p).1 is None ==> scan_best(fl, fx, cfg, p).0 == 0 && (forall|
            i: int,
            j: int,
        |
            0 <= i < fl.len() && 0 <= j < fl.len() && i * fl.len() + j < p ==> !viable(
                fl[i],
                fl[j],
                fx,
                cfg,
                0,
            )),
    decreases p,
{
    if p > 0 {
        lemma_none_means_no_margin(fl, fx, cfg, (p - 1) as nat);
        if scan_best(fl, fx, cfg, p).1 is None {
            let n = fl.len() as int;
            let prev = scan_best(fl, fx, cfg, (p - 1) as nat);
            assert(prev.1 is None);
            assert(prev.0 == 0);
            assert forall|i: int, j: int|
                0 <= i < fl.len() && 0 <= j < fl.len() && i * fl.len() + j < p implies !viable(
                fl[i],
                fl[j],
                fx,
                cfg,
                0,
            ) by {
                if i * n + j < p - 1 {
                } else {
                    vstd::arithmetic::div_mod::lemma_fundamental_div_mod_converse(
                        i * n + j,
                        n,
                        i,
                        j,
                    );
                    assert(!viable(fl[((p - 1) as int) / n], fl[((p - 1) as int) % n], fx, cfg, prev.0));
                }
            }
        }
    }
}

} // verus!
