//! Attribution of relative-strength research trades to the derivatives
//! context (funding, open interest, positioning) at their entry.
use crate::decimal::{opt_parts, value_le, value_lt, Dec};
use crate::derivatives::{
    funding_bucket_of, price_oi_regime_of, FundingBucket, PriceOiRegime,
};
use crate::stats::{
    is_sorted_arrangement, mean_decimal, mean_of, median_decimal, median_matches, outcome,
    DecimalOverflow,
};
use crate::text::owned;
use crate::timestamp::Timestamp;
use uuid::Uuid;
use vstd::prelude::*;

verus! {

/// One research trade with the derivatives context read for its entry time.
#[derive(Debug)]
pub struct RsV1DerivativesTradeRow {
    pub run_id: Uuid,
    pub trade_id: Uuid,
    pub trade_index: i32,
    pub symbol: String,
    pub entry_time: Timestamp,
    pub net_pnl_pct: Dec,
    pub funding_rate: Option<Dec>,
    pub funding_zscore: Option<Dec>,
    pub open_interest: Option<Dec>,
    pub oi_24h_change_pct: Option<Dec>,
    pub oi_72h_change_pct: Option<Dec>,
    pub price_24h_change_pct: Option<Dec>,
    pub long_short_ratio: Option<Dec>,
    pub buy_sell_ratio: Option<Dec>,
}

/// A research trade with its classified derivatives context.
#[derive(Debug)]
pub struct RsV1DerivativesTradeContext {
    pub run_id: Uuid,
    pub trade_id: Uuid,
    pub trade_index: i32,
    pub symbol: String,
    pub entry_time: Timestamp,
    pub net_pnl_pct: Dec,
    pub winner: bool,
    pub funding_rate: Option<Dec>,
    pub funding_zscore: Option<Dec>,
    pub funding_bucket: FundingBucket,
    pub open_interest: Option<Dec>,
    pub oi_24h_change_pct: Option<Dec>,
    pub oi_72h_change_pct: Option<Dec>,
    pub price_24h_change_pct: Option<Dec>,
    pub price_oi_regime: PriceOiRegime,
    pub long_short_ratio: Option<Dec>,
    pub buy_sell_ratio: Option<Dec>,
}

/// The context of a trade: the row's values, the trade is a winner when its net
/// result is above zero, and the funding bucket and price/open-interest regime are
/// classified from the row.
pub open spec fn context_of(row: RsV1DerivativesTradeRow, c: RsV1DerivativesTradeContext) -> bool {
    &&& c.run_id == row.run_id
    &&& c.trade_id == row.trade_id
    &&& c.trade_index == row.trade_index
    &&& c.symbol@ == row.symbol@
    &&& c.entry_time == row.entry_time
    &&& c.net_pnl_pct == row.net_pnl_pct
    &&& c.winner == (row.net_pnl_pct@.0 > 0)
    &&& c.funding_rate == row.funding_rate
    &&& c.funding_zscore == row.funding_zscore
    &&& c.funding_bucket == funding_bucket_of(opt_parts(row.funding_rate), opt_parts(row.funding_zscore))
    &&& c.open_interest == row.open_interest
    &&& c.oi_24h_change_pct == row.oi_24h_change_pct
    &&& c.oi_72h_change_pct == row.oi_72h_change_pct
    &&& c.price_24h_change_pct == row.price_24h_change_pct
    &&& c.price_oi_regime == price_oi_regime_of(
        opt_parts(row.price_24h_change_pct),
        opt_parts(row.oi_24h_change_pct),
    )
    &&& c.long_short_ratio == row.long_short_ratio
    &&& c.buy_sell_ratio == row.buy_sell_ratio
}

/// Classifies one trade row.
pub fn trade_context_from_row(row: RsV1DerivativesTradeRow) -> (c: RsV1DerivativesTradeContext)
    ensures
        context_of(row, c),
{
    let funding_bucket = FundingBucket::classify(row.funding_rate, row.funding_zscore);
    let price_oi_regime = PriceOiRegime::classify(row.price_24h_change_pct, row.oi_24h_change_pct);
    let winner = row.net_pnl_pct.is_positive();
    RsV1DerivativesTradeContext {
        run_id: row.run_id,
        trade_id: row.trade_id,
        trade_index: row.trade_index,
        symbol: row.symbol,
        entry_time: row.entry_time,
        net_pnl_pct: row.net_pnl_pct,
        winner,
        funding_rate: row.funding_rate,
        funding_zscore: row.funding_zscore,
        funding_bucket,
        open_interest: row.open_interest,
        oi_24h_change_pct: row.oi_24h_change_pct,
        oi_72h_change_pct: row.oi_72h_change_pct,
        price_24h_change_pct: row.price_24h_change_pct,
        price_oi_regime,
        long_short_ratio: row.long_short_ratio,
        buy_sell_ratio: row.buy_sell_ratio,
    }
}

/// The values of a trade that group statistics read.
#[derive(Clone, Copy, Debug)]
pub struct TradeMetrics {
    pub winner: bool,
    pub net_pnl_pct: Dec,
    pub funding_rate: Option<Dec>,
    pub funding_zscore: Option<Dec>,
    pub oi_24h_change_pct: Option<Dec>,
}

/// The metrics of a trade context.
pub open spec fn metrics_of(c: RsV1DerivativesTradeContext) -> TradeMetrics {
    TradeMetrics {
        winner: c.winner,
        net_pnl_pct: c.net_pnl_pct,
        funding_rate: c.funding_rate,
        funding_zscore: c.funding_zscore,
        oi_24h_change_pct: c.oi_24h_change_pct,
    }
}

impl RsV1DerivativesTradeContext {
    /// The values of the trade that group statistics read.
    pub fn metrics(&self) -> (m: TradeMetrics)
        ensures
            m == metrics_of(*self),
    {
        TradeMetrics {
            winner: self.winner,
            net_pnl_pct: self.net_pnl_pct,
            funding_rate: self.funding_rate,
            funding_zscore: self.funding_zscore,
            oi_24h_change_pct: self.oi_24h_change_pct,
        }
    }

    /// The trade has long/short or taker buy/sell context.
    pub fn has_positioning(&self) -> (b: bool)
        ensures
            b == has_positioning_spec(*self),
    {
        self.long_short_ratio.is_some() || self.buy_sell_ratio.is_some()
    }
}

/// The trade has long/short or taker buy/sell context.
pub open spec fn has_positioning_spec(c: RsV1DerivativesTradeContext) -> bool {
    c.long_short_ratio is Some || c.buy_sell_ratio is Some
}

/// How many of the trades satisfy `p`.
pub open spec fn count_trades(s: Seq<RsV1DerivativesTradeContext>, p: spec_fn(RsV1DerivativesTradeContext) -> bool) -> nat
    decreases s.len(),
{
    if s.len() == 0 {
        0
    } else {
        count_trades(s.drop_last(), p) + if p(s.last()) {
            1nat
        } else {
            0nat
        }
    }
}

proof fn lemma_count_trades_bound(s: Seq<RsV1DerivativesTradeContext>, p: spec_fn(RsV1DerivativesTradeContext) -> bool)
    ensures
        count_trades(s, p) <= s.len(),
    decreases s.len(),
{
    if s.len() > 0 {
        lemma_count_trades_bound(s.drop_last(), p);
    }
}

/// The trades with a funding rate.
pub open spec fn with_funding() -> spec_fn(RsV1DerivativesTradeContext) -> bool {
    |c: RsV1DerivativesTradeContext| c.funding_rate is Some
}

/// The trades with a funding z-score.
pub open spec fn with_zscore() -> spec_fn(RsV1DerivativesTradeContext) -> bool {
    |c: RsV1DerivativesTradeContext| c.funding_zscore is Some
}

/// The trades with open interest.
pub open spec fn with_oi() -> spec_fn(RsV1DerivativesTradeContext) -> bool {
    |c: RsV1DerivativesTradeContext| c.open_interest is Some
}

/// The trades with positioning context.
pub open spec fn with_positioning() -> spec_fn(RsV1DerivativesTradeContext) -> bool {
    |c: RsV1DerivativesTradeContext| has_positioning_spec(c)
}

/// How far the trades are covered by each kind of derivatives context.
#[derive(Debug)]
pub struct RsV1DerivativesCoverageSummary {
    pub total_trades: i32,
    pub trades_with_funding_context: i32,
    pub trades_with_funding_zscore: i32,
    pub trades_with_oi_context: i32,
    pub trades_with_positioning_context: i32,
    pub latest_funding_timestamp: Option<Timestamp>,
    pub latest_oi_timestamp: Option<Timestamp>,
    pub latest_positioning_timestamp: Option<Timestamp>,
    pub warnings: Vec<String>,
}

/// The warning given when trades exist but none has open-interest context.
pub open spec fn oi_missing_warning() -> Seq<char> {
    "oi_context_missing_for_rs_v1_trades_public_retention_recent_or_forward_only"@
}

/// The warning given when trades exist but none has positioning context.
pub open spec fn positioning_missing_warning() -> Seq<char> {
    "positioning_context_missing_for_rs_v1_trades_public_retention_recent_or_forward_only"@
}

/// The coverage warnings, in order: open interest, then positioning.
pub open spec fn coverage_warnings_of(total: int, oi: int, positioning: int) -> Seq<Seq<char>> {
    let first: Seq<Seq<char>> = if total > 0 && oi == 0 {
        seq![oi_missing_warning()]
    } else {
        Seq::empty()
    };
    if total > 0 && positioning == 0 {
        first.push(positioning_missing_warning())
    } else {
        first
    }
}

/// The texts of a list of strings.
pub open spec fn strings_view(v: Seq<String>) -> Seq<Seq<char>> {
    v.map_values(|s: String| s@)
}

/// The warnings for trades of which none has open-interest or none has positioning context.
pub fn attribution_coverage_warnings(total: i32, oi: i32, positioning: i32) -> (w: Vec<String>)
    ensures
        strings_view(w@) == coverage_warnings_of(total as int, oi as int, positioning as int),
{
    let mut warnings: Vec<String> = Vec::new();
    if total > 0 && oi == 0 {
        warnings.push(
            owned("oi_context_missing_for_rs_v1_trades_public_retention_recent_or_forward_only"),
        );
    }
    let ghost first = warnings@;
    if total > 0 && positioning == 0 {
        warnings.push(
            owned(
                "positioning_context_missing_for_rs_v1_trades_public_retention_recent_or_forward_only",
            ),
        );
    }
    proof {
        assert(strings_view(warnings@) =~= coverage_warnings_of(
            total as int,
            oi as int,
            positioning as int,
        ));
    }
    warnings
}

/// The coverage of the trades by each kind of context, with the latest timestamps of
/// the context tables and the resulting warnings.
pub fn coverage_summary(
    trades: &Vec<RsV1DerivativesTradeContext>,
    latest_funding_timestamp: Option<Timestamp>,
    latest_oi_timestamp: Option<Timestamp>,
    latest_positioning_timestamp: Option<Timestamp>,
) -> (c: RsV1DerivativesCoverageSummary)
    requires
        trades@.len() <= i32::MAX,
    ensures
        c.total_trades == trades@.len(),
        c.trades_with_funding_context == count_trades(trades@, with_funding()),
        c.trades_with_funding_zscore == count_trades(trades@, with_zscore()),
        c.trades_with_oi_context == count_trades(trades@, with_oi()),
        c.trades_with_positioning_context == count_trades(trades@, with_positioning()),
        c.latest_funding_timestamp == latest_funding_timestamp,
        c.latest_oi_timestamp == latest_oi_timestamp,
        c.latest_positioning_timestamp == latest_positioning_timestamp,
        strings_view(c.warnings@) == coverage_warnings_of(
            trades@.len() as int,
            count_trades(trades@, with_oi()) as int,
            count_trades(trades@, with_positioning()) as int,
        ),
{
    let mut funding: i32 = 0;
    let mut zscore: i32 = 0;
    let mut oi: i32 = 0;
    let mut positioning: i32 = 0;
    let mut i: usize = 0;
    while i < trades.len()
        invariant
            i <= trades@.len(),
            trades@.len() <= i32::MAX,
            funding == count_trades(trades@.take(i as int), with_funding()),
            zscore == count_trades(trades@.take(i as int), with_zscore()),
            oi == count_trades(trades@.take(i as int), with_oi()),
            positioning == count_trades(trades@.take(i as int), with_positioning()),
        decreases trades@.len() - i,
    {
        let t = &trades[i];
        proof {
            assert(trades@.take(i as int + 1).drop_last() =~= trades@.take(i as int));
            lemma_count_trades_bound(trades@.take(i as int), with_funding());
            lemma_count_trades_bound(trades@.take(i as int), with_zscore());
            lemma_count_trades_bound(trades@.take(i as int), with_oi());
            lemma_count_trades_bound(trades@.take(i as int), with_positioning());
        }
        if t.funding_rate.is_some() {
            funding = funding + 1;
        }
        if t.funding_zscore.is_some() {
            zscore = zscore + 1;
        }
        if t.open_interest.is_some() {
            oi = oi + 1;
        }
        if t.has_positioning() {
            positioning = positioning + 1;
        }
        i = i + 1;
    }
    proof {
        assert(trades@.take(trades@.len() as int) =~= trades@);
    }
    let total = trades.len() as i32;
    RsV1DerivativesCoverageSummary {
        total_trades: total,
        trades_with_funding_context: funding,
        trades_with_funding_zscore: zscore,
        trades_with_oi_context: oi,
        trades_with_positioning_context: positioning,
        latest_funding_timestamp,
        latest_oi_timestamp,
        latest_positioning_timestamp,
        warnings: attribution_coverage_warnings(total, oi, positioning),
    }
}


/// Statistics of one group of trades.
#[derive(Debug)]
pub struct RsV1DerivativesGroupSummary {
    pub group: String,
    pub trades: i32,
    pub winners: i32,
    pub losers: i32,
    pub win_rate_pct: Option<Dec>,
    pub avg_net_pnl_pct: Option<Dec>,
    pub median_net_pnl_pct: Option<Dec>,
    pub funding_mean: Option<Dec>,
    pub funding_median: Option<Dec>,
    pub funding_zscore_mean: Option<Dec>,
    pub funding_zscore_median: Option<Dec>,
    pub oi_24h_change_mean: Option<Dec>,
    pub oi_24h_change_median: Option<Dec>,
}

/// The values that are present, in order.
pub open spec fn somes(s: Seq<Option<Dec>>) -> Seq<Dec>
    decreases s.len(),
{
    if s.len() == 0 {
        Seq::empty()
    } else {
        let rest = somes(s.drop_last());
        match s.last() {
            Some(d) => rest.push(d),
            None => rest,
        }
    }
}

/// The net results of the trades.
pub open spec fn net_pnls(ms: Seq<TradeMetrics>) -> Seq<Dec> {
    ms.map_values(|m: TradeMetrics| m.net_pnl_pct)
}

/// The funding rates that the trades have.
pub open spec fn funding_rates(ms: Seq<TradeMetrics>) -> Seq<Dec> {
    somes(ms.map_values(|m: TradeMetrics| m.funding_rate))
}

/// The funding z-scores that the trades have.
pub open spec fn funding_zscores(ms: Seq<TradeMetrics>) -> Seq<Dec> {
    somes(ms.map_values(|m: TradeMetrics| m.funding_zscore))
}

/// The 24-hour open-interest changes that the trades have.
pub open spec fn oi_changes(ms: Seq<TradeMetrics>) -> Seq<Dec> {
    somes(ms.map_values(|m: TradeMetrics| m.oi_24h_change_pct))
}

/// How many of the trades are winners.
pub open spec fn count_winners(ms: Seq<TradeMetrics>) -> nat
    decreases ms.len(),
{
    if ms.len() == 0 {
        0
    } else {
        count_winners(ms.drop_last()) + if ms.last().winner {
            1nat
        } else {
            0nat
        }
    }
}

proof fn lemma_count_winners_bound(ms: Seq<TradeMetrics>)
    ensures
        count_winners(ms) <= ms.len(),
    decreases ms.len(),
{
    if ms.len() > 0 {
        lemma_count_winners_bound(ms.drop_last());
    }
}

/// The win rate in percent, `winners * 100 / trades` as `rust_decimal` computes it;
/// absent without trades; `None` on overflow.
pub open spec fn win_rate_of(winners: int, trades: int) -> Option<Option<(int, int)>> {
    if trades == 0 {
        Some(None)
    } else {
        match crate::decimal::decimal_checked_mul((winners, 0int), (100int, 0int)) {
            Some(p) => match crate::decimal::decimal_checked_div(p, (trades, 0int)) {
                Some(q) => Some(Some(q)),
                None => None,
            },
            None => None,
        }
    }
}

/// `s` holds the statistics of the trades `ms` under the label `group`.
pub open spec fn group_summary_matches(
    s: RsV1DerivativesGroupSummary,
    group: Seq<char>,
    ms: Seq<TradeMetrics>,
) -> bool {
    &&& s.group@ == group
    &&& s.trades == ms.len()
    &&& s.winners == count_winners(ms)
    &&& s.losers == ms.len() - count_winners(ms)
    &&& win_rate_of(count_winners(ms) as int, ms.len() as int) == Some(opt_parts(s.win_rate_pct))
    &&& mean_of(net_pnls(ms)) == Some(opt_parts(s.avg_net_pnl_pct))
    &&& median_matches(net_pnls(ms), Some(opt_parts(s.median_net_pnl_pct)))
    &&& mean_of(funding_rates(ms)) == Some(opt_parts(s.funding_mean))
    &&& median_matches(funding_rates(ms), Some(opt_parts(s.funding_median)))
    &&& mean_of(funding_zscores(ms)) == Some(opt_parts(s.funding_zscore_mean))
    &&& median_matches(funding_zscores(ms), Some(opt_parts(s.funding_zscore_median)))
    &&& mean_of(oi_changes(ms)) == Some(opt_parts(s.oi_24h_change_mean))
    &&& median_matches(oi_changes(ms), Some(opt_parts(s.oi_24h_change_median)))
}

/// Some statistic of the trades overflows in `rust_decimal` (in some order of equal
/// values, for the medians).
pub open spec fn group_summary_overflows(ms: Seq<TradeMetrics>) -> bool {
    ||| win_rate_of(count_winners(ms) as int, ms.len() as int) is None
    ||| mean_of(net_pnls(ms)) is None
    ||| median_matches(net_pnls(ms), None)
    ||| mean_of(funding_rates(ms)) is None
    ||| median_matches(funding_rates(ms), None)
    ||| mean_of(funding_zscores(ms)) is None
    ||| median_matches(funding_zscores(ms), None)
    ||| mean_of(oi_changes(ms)) is None
    ||| median_matches(oi_changes(ms), None)
}

/// Which optional value of a trade to read.
#[derive(Debug)]
pub enum MetricField {
    FundingRate,
    FundingZscore,
    Oi24hChange,
}

/// The optional value of a trade that a field names.
pub open spec fn field_of(m: TradeMetrics, f: MetricField) -> Option<Dec> {
    match f {
        MetricField::FundingRate => m.funding_rate,
        MetricField::FundingZscore => m.funding_zscore,
        MetricField::Oi24hChange => m.oi_24h_change_pct,
    }
}

/// The values of one field that the trades have, in order.
pub fn present_values(ms: &Vec<TradeMetrics>, field: MetricField) -> (r: Vec<Dec>)
    ensures
        r@ == somes(ms@.map_values(|m: TradeMetrics| field_of(m, field))),
{
    let ghost all = ms@.map_values(|m: TradeMetrics| field_of(m, field));
    let mut r: Vec<Dec> = Vec::new();
    let mut i: usize = 0;
    while i < ms.len()
        invariant
            i <= ms@.len(),
            all == ms@.map_values(|m: TradeMetrics| field_of(m, field)),
            r@ == somes(all.take(i as int)),
        decreases ms@.len() - i,
    {
        let m = ms[i];
        let v = match field {
            MetricField::FundingRate => m.funding_rate,
            MetricField::FundingZscore => m.funding_zscore,
            MetricField::Oi24hChange => m.oi_24h_change_pct,
        };
        proof {
            assert(all.take(i as int + 1).drop_last() =~= all.take(i as int));
            assert(all.take(i as int + 1).last() == v);
        }
        match v {
            Some(d) => r.push(d),
            None => {},
        }
        i = i + 1;
    }
    proof {
        assert(all.take(ms@.len() as int) =~= all);
    }
    r
}

/// The net results of the trades, in order.
pub fn net_pnl_values(ms: &Vec<TradeMetrics>) -> (r: Vec<Dec>)
    ensures
        r@ == net_pnls(ms@),
{
    let mut r: Vec<Dec> = Vec::new();
    let mut i: usize = 0;
    while i < ms.len()
        invariant
            i <= ms@.len(),
            r@ == net_pnls(ms@.take(i as int)),
        decreases ms@.len() - i,
    {
        r.push(ms[i].net_pnl_pct);
        i = i + 1;
        proof {
            assert(r@ =~= net_pnls(ms@.take(i as int)));
        }
    }
    proof {
        assert(ms@.take(ms@.len() as int) =~= ms@);
    }
    r
}

/// Statistics of a group of trades: counts, win rate, and the mean and median of the
/// net result, funding rate, funding z-score and 24-hour open-interest change.
pub fn summarize_group(group: &str, ms: &Vec<TradeMetrics>) -> (r: Result<
    RsV1DerivativesGroupSummary,
    DecimalOverflow,
>)
    requires
        ms@.len() <= i32::MAX,
    ensures
        r is Ok ==> group_summary_matches(r->Ok_0, group@, ms@),
        r is Err ==> group_summary_overflows(ms@),
{
    let mut winners: i32 = 0;
    let mut i: usize = 0;
    while i < ms.len()
        invariant
            i <= ms@.len(),
            ms@.len() <= i32::MAX,
            winners == count_winners(ms@.take(i as int)),
        decreases ms@.len() - i,
    {
        proof {
            assert(ms@.take(i as int + 1).drop_last() =~= ms@.take(i as int));
            lemma_count_winners_bound(ms@.take(i as int));
        }
        if ms[i].winner {
            winners = winners + 1;
        }
        i = i + 1;
    }
    proof {
        assert(ms@.take(ms@.len() as int) =~= ms@);
    }
    let trades = ms.len() as i32;
    let win_rate_pct = if trades == 0 {
        None
    } else {
        match Dec::from_int(winners as i64).checked_mul(&Dec::from_int(100)) {
            Some(p) => match p.checked_div(&Dec::from_int(trades as i64)) {
                Some(q) => Some(q),
                None => return Err(DecimalOverflow),
            },
            None => return Err(DecimalOverflow),
        }
    };
    let pnls = net_pnl_values(ms);
    let funding = present_values(ms, MetricField::FundingRate);
    let zscores = present_values(ms, MetricField::FundingZscore);
    let oi = present_values(ms, MetricField::Oi24hChange);
    proof {
        lemma_somes_len(ms@.map_values(|m: TradeMetrics| field_of(m, MetricField::FundingRate)));
        lemma_somes_len(ms@.map_values(|m: TradeMetrics| field_of(m, MetricField::FundingZscore)));
        lemma_somes_len(ms@.map_values(|m: TradeMetrics| field_of(m, MetricField::Oi24hChange)));
        assert(ms@.map_values(|m: TradeMetrics| field_of(m, MetricField::FundingRate))
            =~= ms@.map_values(|m: TradeMetrics| m.funding_rate));
        assert(ms@.map_values(|m: TradeMetrics| field_of(m, MetricField::FundingZscore))
            =~= ms@.map_values(|m: TradeMetrics| m.funding_zscore));
        assert(ms@.map_values(|m: TradeMetrics| field_of(m, MetricField::Oi24hChange))
            =~= ms@.map_values(|m: TradeMetrics| m.oi_24h_change_pct));
    }
    let avg_net_pnl_pct = mean_decimal(&pnls)?;
    let median_net_pnl_pct = median_decimal(&pnls)?;
    let funding_mean = mean_decimal(&funding)?;
    let funding_median = median_decimal(&funding)?;
    let funding_zscore_mean = mean_decimal(&zscores)?;
    let funding_zscore_median = median_decimal(&zscores)?;
    let oi_24h_change_mean = mean_decimal(&oi)?;
    let oi_24h_change_median = median_decimal(&oi)?;
    Ok(
        RsV1DerivativesGroupSummary {
            group: owned(group),
            trades,
            winners,
            losers: trades - winners,
            win_rate_pct,
            avg_net_pnl_pct,
            median_net_pnl_pct,
            funding_mean,
            funding_median,
            funding_zscore_mean,
            funding_zscore_median,
            oi_24h_change_mean,
            oi_24h_change_median,
        },
    )
}

proof fn lemma_somes_len(s: Seq<Option<Dec>>)
    ensures
        somes(s).len() <= s.len(),
    decreases s.len(),
{
    if s.len() > 0 {
        lemma_somes_len(s.drop_last());
    }
}


/// `|left - right|` as `rust_decimal` computes the difference: absent when either side
/// is absent; `None` on overflow.
pub open spec fn abs_diff_of(left: Option<(int, int)>, right: Option<(int, int)>) -> Option<Option<(int, int)>> {
    match (left, right) {
        (Some(l), Some(r)) => match crate::decimal::decimal_checked_sub(l, r) {
            Some(d) => Some(Some((if d.0 < 0 { -d.0 } else { d.0 }, d.1))),
            None => None,
        },
        _ => Some(None),
    }
}

/// The absolute difference of two optional values, absent when either is absent.
pub fn decimal_abs_diff(left: Option<Dec>, right: Option<Dec>) -> (r: Result<Option<Dec>, DecimalOverflow>)
    ensures
        outcome(r) == abs_diff_of(opt_parts(left), opt_parts(right)),
{
    match (left, right) {
        (Some(l), Some(r)) => match l.checked_sub(&r) {
            Some(d) => Ok(Some(d.abs())),
            None => Err(DecimalOverflow),
        },
        _ => Ok(None),
    }
}

/// The separation of a mean difference: at least `threshold` when present.
pub open spec fn separated(diff: Option<(int, int)>, threshold: (int, int)) -> bool {
    diff is Some && value_le(threshold, diff->0)
}

/// The verdict on the attribution data: blocked without trades or funding context,
/// funding-only without open-interest context, otherwise promising when winners and
/// losers differ in mean funding rate by at least 0.000025 or in mean 24-hour
/// open-interest change by at least 0.50, weak otherwise; `None` on overflow.
pub open spec fn attribution_class_of(
    total: int,
    with_funding: int,
    with_oi: int,
    winners: Seq<TradeMetrics>,
    losers: Seq<TradeMetrics>,
) -> Option<Seq<char>> {
    if total == 0 || with_funding == 0 {
        Some("CONNECTOR_BLOCKED"@)
    } else if with_oi == 0 {
        Some("FUNDING_ONLY_HISTORICAL_AVAILABLE"@)
    } else {
        match (
            mean_of(funding_rates(winners)),
            mean_of(funding_rates(losers)),
            mean_of(oi_changes(winners)),
            mean_of(oi_changes(losers)),
        ) {
            (Some(wf), Some(lf), Some(wo), Some(lo)) => match (
                abs_diff_of(wf, lf),
                abs_diff_of(wo, lo),
            ) {
                (Some(fd), Some(od)) => if separated(fd, (25int, 6int)) || separated(
                    od,
                    (50int, 2int),
                ) {
                    Some("DATA_LAYER_READY_ATTRIBUTION_PROMISING"@)
                } else {
                    Some("DATA_LAYER_READY_ATTRIBUTION_WEAK"@)
                },
                _ => None,
            },
            _ => None,
        }
    }
}

/// Classifies how ready the derivatives data is for attribution.
pub fn classify_attribution(
    coverage: &RsV1DerivativesCoverageSummary,
    winners: &Vec<TradeMetrics>,
    losers: &Vec<TradeMetrics>,
) -> (r: Result<String, DecimalOverflow>)
    requires
        winners@.len() <= i64::MAX,
        losers@.len() <= i64::MAX,
    ensures
        (match r {
            Ok(s) => Some(s@),
            Err(_) => None,
        }) == attribution_class_of(
            coverage.total_trades as int,
            coverage.trades_with_funding_context as int,
            coverage.trades_with_oi_context as int,
            winners@,
            losers@,
        ),
{
    if coverage.total_trades == 0 || coverage.trades_with_funding_context == 0 {
        return Ok(owned("CONNECTOR_BLOCKED"));
    }
    if coverage.trades_with_oi_context == 0 {
        return Ok(owned("FUNDING_ONLY_HISTORICAL_AVAILABLE"));
    }
    let wf_values = present_values(winners, MetricField::FundingRate);
    let lf_values = present_values(losers, MetricField::FundingRate);
    let wo_values = present_values(winners, MetricField::Oi24hChange);
    let lo_values = present_values(losers, MetricField::Oi24hChange);
    proof {
        lemma_somes_len(winners@.map_values(|m: TradeMetrics| field_of(m, MetricField::FundingRate)));
        lemma_somes_len(losers@.map_values(|m: TradeMetrics| field_of(m, MetricField::FundingRate)));
        lemma_somes_len(winners@.map_values(|m: TradeMetrics| field_of(m, MetricField::Oi24hChange)));
        lemma_somes_len(losers@.map_values(|m: TradeMetrics| field_of(m, MetricField::Oi24hChange)));
        assert(winners@.map_values(|m: TradeMetrics| field_of(m, MetricField::FundingRate))
            =~= winners@.map_values(|m: TradeMetrics| m.funding_rate));
        assert(losers@.map_values(|m: TradeMetrics| field_of(m, MetricField::FundingRate))
            =~= losers@.map_values(|m: TradeMetrics| m.funding_rate));
        assert(winners@.map_values(|m: TradeMetrics| field_of(m, MetricField::Oi24hChange))
            =~= winners@.map_values(|m: TradeMetrics| m.oi_24h_change_pct));
        assert(losers@.map_values(|m: TradeMetrics| field_of(m, MetricField::Oi24hChange))
            =~= losers@.map_values(|m: TradeMetrics| m.oi_24h_change_pct));
    }
    let winner_funding = mean_decimal(&wf_values)?;
    let loser_funding = mean_decimal(&lf_values)?;
    let winner_oi = mean_decimal(&wo_values)?;
    let loser_oi = mean_decimal(&lo_values)?;
    let funding_diff = decimal_abs_diff(winner_funding, loser_funding)?;
    let oi_diff = decimal_abs_diff(winner_oi, loser_oi)?;
    let funding_separated = match funding_diff {
        Some(v) => Dec::new(25, 6).le(&v),
        None => false,
    };
    let oi_separated = match oi_diff {
        Some(v) => Dec::new(50, 2).le(&v),
        None => false,
    };
    if funding_separated || oi_separated {
        Ok(owned("DATA_LAYER_READY_ATTRIBUTION_PROMISING"))
    } else {
        Ok(owned("DATA_LAYER_READY_ATTRIBUTION_WEAK"))
    }
}


/// The trades whose key is `k`, in order.
pub open spec fn select_by_key(keys: Seq<Seq<char>>, ms: Seq<TradeMetrics>, k: Seq<char>) -> Seq<TradeMetrics>
    decreases ms.len(),
{
    if ms.len() == 0 || keys.len() == 0 {
        Seq::empty()
    } else {
        let rest = select_by_key(keys.drop_last(), ms.drop_last(), k);
        if keys.last() == k {
            rest.push(ms.last())
        } else {
            rest
        }
    }
}

proof fn lemma_select_len(keys: Seq<Seq<char>>, ms: Seq<TradeMetrics>, k: Seq<char>)
    ensures
        select_by_key(keys, ms, k).len() <= ms.len(),
    decreases ms.len(),
{
    if ms.len() > 0 && keys.len() > 0 {
        lemma_select_len(keys.drop_last(), ms.drop_last(), k);
    }
}

/// The texts are in strictly increasing order.
pub open spec fn strictly_increasing(s: Seq<Seq<char>>) -> bool {
    forall|i: int, j: int| 0 <= i < j < s.len() ==> crate::text::lex_lt(#[trigger] s[i], #[trigger] s[j])
}

/// The distinct keys, in increasing order.
fn distinct_sorted_keys(keys: &Vec<String>) -> (g: Vec<String>)
    ensures
        strictly_increasing(strings_view(g@)),
        forall|j: int| 0 <= j < keys@.len() ==> strings_view(g@).contains(#[trigger] keys@[j]@),
        forall|i: int| 0 <= i < g@.len() ==> strings_view(keys@).contains(#[trigger] g@[i]@),
{
    let mut g: Vec<String> = Vec::new();
    let mut i: usize = 0;
    while i < keys.len()
        invariant
            i <= keys@.len(),
            strictly_increasing(strings_view(g@)),
            forall|j: int| 0 <= j < i ==> strings_view(g@).contains(#[trigger] keys@[j]@),
            forall|a: int| 0 <= a < g@.len() ==> strings_view(keys@).contains(#[trigger] g@[a]@),
        decreases keys@.len() - i,
    {
        let key = &keys[i];
        let mut pos: usize = 0;
        while pos < g.len() && crate::text::str_lt(g[pos].as_str(), key.as_str())
            invariant
                pos <= g@.len(),
                forall|a: int| 0 <= a < pos ==> crate::text::lex_lt((#[trigger] g@[a])@, key@),
            decreases g@.len() - pos,
        {
            pos = pos + 1;
        }
        proof {
            assert(strings_view(keys@)[i as int] == keys@[i as int]@);
        }
        if pos < g.len() && crate::text::str_eq(g[pos].as_str(), key.as_str()) {
            proof {
                assert(strings_view(g@)[pos as int] == key@);
            }
        } else {
            let ghost old_g = g@;
            proof {
                if pos < g@.len() {
                    crate::text::lemma_lex_lt_trichotomy(g@[pos as int]@, key@);
                }
            }
            g.insert(pos, key.clone());
            proof {
                old_g.insert_ensures(pos as int, *key);
                assert forall|a: int, b: int| 0 <= a < b < strings_view(g@).len() implies crate::text::lex_lt(
                    #[trigger] strings_view(g@)[a],
                    #[trigger] strings_view(g@)[b],
                ) by {
                    if b < pos {
                        assert(g@[a] == old_g[a] && g@[b] == old_g[b]);
                        assert(strings_view(old_g)[a] == old_g[a]@);
                        assert(strings_view(old_g)[b] == old_g[b]@);
                    } else if b == pos {
                        assert(g@[a] == old_g[a]);
                    } else if a < pos {
                        assert(g@[a] == old_g[a] && g@[b] == old_g[b - 1]);
                        assert(crate::text::lex_lt(old_g[a]@, key@));
                        if pos < b - 1 {
                            assert(strings_view(old_g)[pos as int] == old_g[pos as int]@);
                            assert(strings_view(old_g)[b - 1] == old_g[b - 1]@);
                            crate::text::lemma_lex_lt_trans(key@, old_g[pos as int]@, old_g[b - 1]@);
                        }
                        crate::text::lemma_lex_lt_trans(old_g[a]@, key@, old_g[b - 1]@);
                    } else if a == pos {
                        assert(g@[b] == old_g[b - 1]);
                        if pos < b - 1 {
                            assert(strings_view(old_g)[pos as int] == old_g[pos as int]@);
                            assert(strings_view(old_g)[b - 1] == old_g[b - 1]@);
                            crate::text::lemma_lex_lt_trans(key@, old_g[pos as int]@, old_g[b - 1]@);
                        }
                    } else {
                        assert(g@[a] == old_g[a - 1] && g@[b] == old_g[b - 1]);
                        assert(strings_view(old_g)[a - 1] == old_g[a - 1]@);
                        assert(strings_view(old_g)[b - 1] == old_g[b - 1]@);
                    }
                }
                assert forall|j: int| 0 <= j < i + 1 implies strings_view(g@).contains(#[trigger] keys@[j]@) by {
                    if j == i {
                        assert(strings_view(g@)[pos as int] == key@);
                    } else {
                        let w = choose|w: int| 0 <= w < old_g.len() && strings_view(old_g)[w] == keys@[j]@;
                        if w < pos {
                            assert(strings_view(g@)[w] == keys@[j]@);
                        } else {
                            assert(strings_view(g@)[w + 1] == keys@[j]@);
                        }
                    }
                }
                assert forall|a: int| 0 <= a < g@.len() implies strings_view(keys@).contains(#[trigger] g@[a]@) by {
                    if a < pos {
                        assert(g@[a] == old_g[a]);
                    } else if a == pos {
                        assert(g@[a]@ == key@);
                    } else {
                        assert(g@[a] == old_g[a - 1]);
                    }
                }
            }
        }
        i = i + 1;
    }
    g
}

/// The trades whose key equals `k`, in order.
fn select_metrics(keys: &Vec<String>, ms: &Vec<TradeMetrics>, k: &str) -> (r: Vec<TradeMetrics>)
    requires
        keys@.len() == ms@.len(),
    ensures
        r@ == select_by_key(strings_view(keys@), ms@, k@),
{
    let ghost kv = strings_view(keys@);
    let mut r: Vec<TradeMetrics> = Vec::new();
    let mut j: usize = 0;
    while j < ms.len()
        invariant
            j <= ms@.len(),
            keys@.len() == ms@.len(),
            kv == strings_view(keys@),
            r@ == select_by_key(kv.take(j as int), ms@.take(j as int), k@),
        decreases ms@.len() - j,
    {
        proof {
            assert(kv.take(j as int + 1).drop_last() =~= kv.take(j as int));
            assert(ms@.take(j as int + 1).drop_last() =~= ms@.take(j as int));
            assert(kv.take(j as int + 1).last() == keys@[j as int]@);
        }
        if crate::text::str_eq(keys[j].as_str(), k) {
            r.push(ms[j]);
        }
        j = j + 1;
    }
    proof {
        assert(kv.take(ms@.len() as int) =~= kv);
        assert(ms@.take(ms@.len() as int) =~= ms@);
    }
    r
}

/// The labels of the groups.
pub open spec fn group_labels(v: Seq<RsV1DerivativesGroupSummary>) -> Seq<Seq<char>> {
    v.map_values(|s: RsV1DerivativesGroupSummary| s.group@)
}

/// The groups' statistics are those of the trades with each distinct key, in
/// increasing order of key.
pub open spec fn groups_match(v: Seq<RsV1DerivativesGroupSummary>, keys: Seq<Seq<char>>, ms: Seq<TradeMetrics>) -> bool {
    &&& forall|i: int, j: int| 0 <= i < j < v.len() ==> crate::text::lex_lt(#[trigger] v[i].group@, #[trigger] v[j].group@)
    &&& forall|j: int| 0 <= j < keys.len() ==> group_labels(v).contains(#[trigger] keys[j])
    &&& forall|i: int| 0 <= i < v.len() ==> keys.contains(#[trigger] v[i].group@)
    &&& forall|i: int| 0 <= i < v.len() ==> group_summary_matches(#[trigger] v[i], v[i].group@, select_by_key(keys, ms, v[i].group@))
}

/// Statistics of the trades grouped by key (`keys[i]` is the key of `ms[i]`), one group
/// per distinct key, in increasing order of key.
pub fn group_by_key(keys: &Vec<String>, ms: &Vec<TradeMetrics>) -> (r: Result<
    Vec<RsV1DerivativesGroupSummary>,
    DecimalOverflow,
>)
    requires
        keys@.len() == ms@.len(),
        ms@.len() <= i32::MAX,
    ensures
        r is Ok ==> groups_match(r->Ok_0@, strings_view(keys@), ms@),
        r is Err ==> exists|j: int| 0 <= j < keys@.len() && group_summary_overflows(
            select_by_key(strings_view(keys@), ms@, #[trigger] keys@[j]@),
        ),
{
    let g = distinct_sorted_keys(keys);
    let ghost kv = strings_view(keys@);
    let mut out: Vec<RsV1DerivativesGroupSummary> = Vec::new();
    let mut i: usize = 0;
    while i < g.len()
        invariant
            i <= g@.len(),
            keys@.len() == ms@.len(),
            ms@.len() <= i32::MAX,
            kv == strings_view(keys@),
            strictly_increasing(strings_view(g@)),
            forall|a: int| 0 <= a < g@.len() ==> kv.contains(#[trigger] g@[a]@),
            out@.len() == i,
            forall|a: int| 0 <= a < i ==> (#[trigger] out@[a]).group@ == g@[a]@,
            forall|a: int| 0 <= a < i ==> group_summary_matches(#[trigger] out@[a], out@[a].group@, select_by_key(kv, ms@, out@[a].group@)),
        decreases g@.len() - i,
    {
        let sub = select_metrics(keys, ms, g[i].as_str());
        proof {
            lemma_select_len(kv, ms@, g@[i as int]@);
        }
        match summarize_group(g[i].as_str(), &sub) {
            Ok(summary) => out.push(summary),
            Err(e) => {
                proof {
                    assert(kv.contains(g@[i as int]@));
                    let j = choose|j: int| 0 <= j < kv.len() && kv[j] == g@[i as int]@;
                    assert(kv[j] == keys@[j]@);
                }
                return Err(e);
            },
        }
        i = i + 1;
    }
    proof {
        assert forall|a: int, b: int| 0 <= a < b < out@.len() implies crate::text::lex_lt(#[trigger] out@[a].group@, #[trigger] out@[b].group@) by {
            assert(strings_view(g@)[a] == g@[a]@);
            assert(strings_view(g@)[b] == g@[b]@);
        }
        assert forall|j: int| 0 <= j < kv.len() implies group_labels(out@).contains(#[trigger] kv[j]) by {
            assert(kv[j] == keys@[j]@);
            assert(strings_view(g@).contains(keys@[j]@));
            let a = choose|a: int| 0 <= a < strings_view(g@).len() && strings_view(g@)[a] == keys@[j]@;
            assert(out@[a].group@ == g@[a]@);
            assert(group_labels(out@)[a] == kv[j]);
        }
        assert forall|a: int| 0 <= a < out@.len() implies kv.contains(#[trigger] out@[a].group@) by {
            assert(out@[a].group@ == g@[a]@);
        }
        assert(groups_match(out@, kv, ms@));
    }
    Ok(out)
}


/// Row counts of the tables that hold execution state, read before and after a report
/// to show that building it placed no order.
#[derive(Clone, Copy, Debug, PartialEq, Eq, Structural)]
pub struct ExecutionSafetyCounts {
    pub orders: i64,
    pub paper_positions: i64,
    pub paper_fills: i64,
    pub exchange_testnet_orders: i64,
    pub exchange_testnet_order_lifecycle_events: i64,
    pub testnet_shadow_promotions: i64,
    pub research_candidates: i64,
}

/// The attribution report.
#[derive(Debug)]
pub struct RsV1DerivativesAttributionReport {
    pub generated_at: Timestamp,
    pub safety_counts_before: ExecutionSafetyCounts,
    pub safety_counts_after: ExecutionSafetyCounts,
    pub coverage: RsV1DerivativesCoverageSummary,
    pub winners: RsV1DerivativesGroupSummary,
    pub losers: RsV1DerivativesGroupSummary,
    pub by_funding_bucket: Vec<RsV1DerivativesGroupSummary>,
    pub by_price_oi_regime: Vec<RsV1DerivativesGroupSummary>,
    pub by_symbol: Vec<RsV1DerivativesGroupSummary>,
    pub by_period: Vec<RsV1DerivativesGroupSummary>,
    pub sample_trades: Vec<RsV1DerivativesTradeContext>,
    pub classification: String,
}

/// The first instant of 2025 (UTC), in seconds since the epoch.
pub const PERIOD_SPLIT_SECS: i64 = 1_735_689_600i64;

/// The period label of an entry time: before 2025 or from 2025 on.
pub open spec fn period_label_of(t: Timestamp) -> Seq<char> {
    if t@.0 < PERIOD_SPLIT_SECS {
        "2023-2024"@
    } else {
        "2025+"@
    }
}

/// The metrics of all trades.
pub open spec fn all_metrics(ts: Seq<RsV1DerivativesTradeContext>) -> Seq<TradeMetrics> {
    ts.map_values(|c: RsV1DerivativesTradeContext| metrics_of(c))
}

/// The metrics of the trades that are winners (`w`) or losers (`!w`), in order.
pub open spec fn metrics_where(ts: Seq<RsV1DerivativesTradeContext>, w: bool) -> Seq<TradeMetrics>
    decreases ts.len(),
{
    if ts.len() == 0 {
        Seq::empty()
    } else {
        let rest = metrics_where(ts.drop_last(), w);
        if ts.last().winner == w {
            rest.push(metrics_of(ts.last()))
        } else {
            rest
        }
    }
}

proof fn lemma_metrics_where_len(ts: Seq<RsV1DerivativesTradeContext>, w: bool)
    ensures
        metrics_where(ts, w).len() <= ts.len(),
    decreases ts.len(),
{
    if ts.len() > 0 {
        lemma_metrics_where_len(ts.drop_last(), w);
    }
}

/// The funding-bucket label of each trade.
pub open spec fn funding_keys(ts: Seq<RsV1DerivativesTradeContext>) -> Seq<Seq<char>> {
    ts.map_values(|c: RsV1DerivativesTradeContext| crate::derivatives::funding_bucket_label(c.funding_bucket))
}

/// The regime label of each trade.
pub open spec fn regime_keys(ts: Seq<RsV1DerivativesTradeContext>) -> Seq<Seq<char>> {
    ts.map_values(|c: RsV1DerivativesTradeContext| crate::derivatives::price_oi_regime_label(c.price_oi_regime))
}

/// The symbol of each trade.
pub open spec fn symbol_keys(ts: Seq<RsV1DerivativesTradeContext>) -> Seq<Seq<char>> {
    ts.map_values(|c: RsV1DerivativesTradeContext| c.symbol@)
}

/// The period label of each trade.
pub open spec fn period_keys(ts: Seq<RsV1DerivativesTradeContext>) -> Seq<Seq<char>> {
    ts.map_values(|c: RsV1DerivativesTradeContext| period_label_of(c.entry_time))
}

/// Which grouping of trades to label.
#[derive(Debug)]
pub enum Grouping {
    FundingBucket,
    PriceOiRegime,
    Symbol,
    Period,
}

/// The label of each trade under a grouping.
pub open spec fn grouping_keys(ts: Seq<RsV1DerivativesTradeContext>, g: Grouping) -> Seq<Seq<char>> {
    match g {
        Grouping::FundingBucket => funding_keys(ts),
        Grouping::PriceOiRegime => regime_keys(ts),
        Grouping::Symbol => symbol_keys(ts),
        Grouping::Period => period_keys(ts),
    }
}

fn labels_and_metrics(trades: &Vec<RsV1DerivativesTradeContext>, grouping: &Grouping) -> (r: (
    Vec<String>,
    Vec<TradeMetrics>,
))
    ensures
        strings_view(r.0@) == grouping_keys(trades@, *grouping),
        r.1@ == all_metrics(trades@),
{
    let mut keys: Vec<String> = Vec::new();
    let mut ms: Vec<TradeMetrics> = Vec::new();
    let mut i: usize = 0;
    while i < trades.len()
        invariant
            i <= trades@.len(),
            strings_view(keys@) == grouping_keys(trades@.take(i as int), *grouping),
            ms@ == all_metrics(trades@.take(i as int)),
        decreases trades@.len() - i,
    {
        let t = &trades[i];
        let key = match grouping {
            Grouping::FundingBucket => t.funding_bucket.label(),
            Grouping::PriceOiRegime => t.price_oi_regime.label(),
            Grouping::Symbol => t.symbol.clone(),
            Grouping::Period => if t.entry_time.secs() < PERIOD_SPLIT_SECS {
                owned("2023-2024")
            } else {
                owned("2025+")
            },
        };
        proof {
            let ti = trades@.take(i as int + 1);
            assert(ti =~= trades@.take(i as int).push(*t));
            assert(key@ == grouping_keys(ti, *grouping)[i as int]);
            assert(grouping_keys(ti, *grouping) =~= grouping_keys(trades@.take(i as int), *grouping).push(key@));
        }
        keys.push(key);
        ms.push(t.metrics());
        i = i + 1;
        proof {
            assert(strings_view(keys@) =~= grouping_keys(trades@.take(i as int), *grouping));
            assert(ms@ =~= all_metrics(trades@.take(i as int)));
        }
    }
    proof {
        assert(trades@.take(trades@.len() as int) =~= trades@);
    }
    (keys, ms)
}

fn split_by_outcome(trades: &Vec<RsV1DerivativesTradeContext>) -> (r: (Vec<TradeMetrics>, Vec<TradeMetrics>))
    ensures
        r.0@ == metrics_where(trades@, true),
        r.1@ == metrics_where(trades@, false),
{
    let mut winners: Vec<TradeMetrics> = Vec::new();
    let mut losers: Vec<TradeMetrics> = Vec::new();
    let mut i: usize = 0;
    while i < trades.len()
        invariant
            i <= trades@.len(),
            winners@ == metrics_where(trades@.take(i as int), true),
            losers@ == metrics_where(trades@.take(i as int), false),
        decreases trades@.len() - i,
    {
        proof {
            assert(trades@.take(i as int + 1).drop_last() =~= trades@.take(i as int));
        }
        let m = trades[i].metrics();
        if m.winner {
            winners.push(m);
        } else {
            losers.push(m);
        }
        i = i + 1;
    }
    proof {
        assert(trades@.take(trades@.len() as int) =~= trades@);
    }
    (winners, losers)
}

/// The last twenty trades (fewer when there are fewer), latest first.
pub fn latest_sample(trades: Vec<RsV1DerivativesTradeContext>) -> (r: Vec<RsV1DerivativesTradeContext>)
    ensures
        r@.len() == if trades@.len() < 20 { trades@.len() } else { 20 },
        forall|k: int| 0 <= k < r@.len() ==> #[trigger] r@[k] == trades@[trades@.len() - 1 - k],
{
    let ghost orig = trades@;
    let mut rest = trades;
    let mut r: Vec<RsV1DerivativesTradeContext> = Vec::new();
    while r.len() < 20 && rest.len() > 0
        invariant
            r@.len() <= 20,
            r@.len() + rest@.len() == orig.len(),
            rest@ == orig.take(rest@.len() as int),
            forall|k: int| 0 <= k < r@.len() ==> #[trigger] r@[k] == orig[orig.len() - 1 - k],
        decreases rest@.len(),
    {
        let ghost before = rest@;
        match rest.pop() {
            Some(t) => {
                proof {
                    assert(t == orig[orig.len() - 1 - r@.len()]);
                    assert(rest@ =~= orig.take(rest@.len() as int));
                }
                r.push(t);
            },
            None => {},
        }
    }
    r
}

/// Some statistic of the report overflows in `rust_decimal`.
pub open spec fn report_overflows(ts: Seq<RsV1DerivativesTradeContext>) -> bool {
    ||| group_summary_overflows(metrics_where(ts, true))
    ||| group_summary_overflows(metrics_where(ts, false))
    ||| exists|g: Grouping, j: int|
        0 <= j < ts.len() && group_summary_overflows(
            select_by_key(grouping_keys(ts, g), all_metrics(ts), #[trigger] grouping_keys(ts, g)[j]),
        )
    ||| attribution_class_of(
        ts.len() as int,
        count_trades(ts, with_funding()) as int,
        count_trades(ts, with_oi()) as int,
        metrics_where(ts, true),
        metrics_where(ts, false),
    ) is None
}

fn grouped(trades: &Vec<RsV1DerivativesTradeContext>, grouping: Grouping) -> (r: Result<
    Vec<RsV1DerivativesGroupSummary>,
    DecimalOverflow,
>)
    requires
        trades@.len() <= i32::MAX,
    ensures
        r is Ok ==> groups_match(r->Ok_0@, grouping_keys(trades@, grouping), all_metrics(trades@)),
        r is Err ==> exists|j: int| 0 <= j < trades@.len() && group_summary_overflows(
            select_by_key(grouping_keys(trades@, grouping), all_metrics(trades@), #[trigger] grouping_keys(trades@, grouping)[j]),
        ),
{
    let (keys, ms) = labels_and_metrics(trades, &grouping);
    let r = group_by_key(&keys, &ms);
    proof {
        if r is Err {
            let j = choose|j: int| 0 <= j < keys@.len() && group_summary_overflows(
                select_by_key(strings_view(keys@), ms@, #[trigger] keys@[j]@),
            );
            assert(strings_view(keys@)[j] == keys@[j]@);
        }
    }
    r
}

/// Builds the attribution report from the classified trades (in entry order), the
/// safety counts read before and after, and the latest timestamps of the context
/// tables.
pub fn build_attribution_report(
    trades: Vec<RsV1DerivativesTradeContext>,
    safety_counts_before: ExecutionSafetyCounts,
    safety_counts_after: ExecutionSafetyCounts,
    latest_funding_timestamp: Option<Timestamp>,
    latest_oi_timestamp: Option<Timestamp>,
    latest_positioning_timestamp: Option<Timestamp>,
    generated_at: Timestamp,
) -> (r: Result<RsV1DerivativesAttributionReport, DecimalOverflow>)
    requires
        trades@.len() <= i32::MAX,
    ensures
        r is Err ==> report_overflows(trades@),
        r is Ok ==> ({
            let rep = r->Ok_0;
            let ts = trades@;
            &&& rep.generated_at == generated_at
            &&& rep.safety_counts_before == safety_counts_before
            &&& rep.safety_counts_after == safety_counts_after
            &&& rep.coverage.total_trades == ts.len()
            &&& rep.coverage.trades_with_funding_context == count_trades(ts, with_funding())
            &&& rep.coverage.trades_with_funding_zscore == count_trades(ts, with_zscore())
            &&& rep.coverage.trades_with_oi_context == count_trades(ts, with_oi())
            &&& rep.coverage.trades_with_positioning_context == count_trades(ts, with_positioning())
            &&& rep.coverage.latest_funding_timestamp == latest_funding_timestamp
            &&& rep.coverage.latest_oi_timestamp == latest_oi_timestamp
            &&& rep.coverage.latest_positioning_timestamp == latest_positioning_timestamp
            &&& strings_view(rep.coverage.warnings@) == coverage_warnings_of(
                ts.len() as int,
                count_trades(ts, with_oi()) as int,
                count_trades(ts, with_positioning()) as int,
            )
            &&& group_summary_matches(rep.winners, "winners"@, metrics_where(ts, true))
            &&& group_summary_matches(rep.losers, "losers"@, metrics_where(ts, false))
            &&& groups_match(rep.by_funding_bucket@, funding_keys(ts), all_metrics(ts))
            &&& groups_match(rep.by_price_oi_regime@, regime_keys(ts), all_metrics(ts))
            &&& groups_match(rep.by_symbol@, symbol_keys(ts), all_metrics(ts))
            &&& groups_match(rep.by_period@, period_keys(ts), all_metrics(ts))
            &&& rep.sample_trades@.len() == if ts.len() < 20 { ts.len() } else { 20 }
            &&& forall|k: int| 0 <= k < rep.sample_trades@.len() ==> #[trigger] rep.sample_trades@[k] == ts[ts.len() - 1 - k]
            &&& Some(rep.classification@) == attribution_class_of(
                ts.len() as int,
                count_trades(ts, with_funding()) as int,
                count_trades(ts, with_oi()) as int,
                metrics_where(ts, true),
                metrics_where(ts, false),
            )
        }),
{
    let coverage = coverage_summary(
        &trades,
        latest_funding_timestamp,
        latest_oi_timestamp,
        latest_positioning_timestamp,
    );
    let (winners_vec, losers_vec) = split_by_outcome(&trades);
    proof {
        lemma_metrics_where_len(trades@, true);
        lemma_metrics_where_len(trades@, false);
    }
    let by_funding_bucket = match grouped(&trades, Grouping::FundingBucket) {
        Ok(v) => v,
        Err(e) => {
            proof {
                let j = choose|j: int| 0 <= j < trades@.len() && group_summary_overflows(
                    select_by_key(grouping_keys(trades@, Grouping::FundingBucket), all_metrics(trades@), #[trigger] grouping_keys(trades@, Grouping::FundingBucket)[j]),
                );
                assert(report_overflows(trades@));
            }
            return Err(e);
        },
    };
    let by_price_oi_regime = match grouped(&trades, Grouping::PriceOiRegime) {
        Ok(v) => v,
        Err(e) => {
            proof {
                let j = choose|j: int| 0 <= j < trades@.len() && group_summary_overflows(
                    select_by_key(grouping_keys(trades@, Grouping::PriceOiRegime), all_metrics(trades@), #[trigger] grouping_keys(trades@, Grouping::PriceOiRegime)[j]),
                );
                assert(report_overflows(trades@));
            }
            return Err(e);
        },
    };
    let by_symbol = match grouped(&trades, Grouping::Symbol) {
        Ok(v) => v,
        Err(e) => {
            proof {
                let j = choose|j: int| 0 <= j < trades@.len() && group_summary_overflows(
                    select_by_key(grouping_keys(trades@, Grouping::Symbol), all_metrics(trades@), #[trigger] grouping_keys(trades@, Grouping::Symbol)[j]),
                );
                assert(report_overflows(trades@));
            }
            return Err(e);
        },
    };
    let by_period = match grouped(&trades, Grouping::Period) {
        Ok(v) => v,
        Err(e) => {
            proof {
                let j = choose|j: int| 0 <= j < trades@.len() && group_summary_overflows(
                    select_by_key(grouping_keys(trades@, Grouping::Period), all_metrics(trades@), #[trigger] grouping_keys(trades@, Grouping::Period)[j]),
                );
                assert(report_overflows(trades@));
            }
            return Err(e);
        },
    };
    let classification = classify_attribution(&coverage, &winners_vec, &losers_vec)?;
    let winners = summarize_group("winners", &winners_vec)?;
    let losers = summarize_group("losers", &losers_vec)?;
    let ghost ts = trades@;
    let sample_trades = latest_sample(trades);
    Ok(
        RsV1DerivativesAttributionReport {
            generated_at,
            safety_counts_before,
            safety_counts_after,
            coverage,
            winners,
            losers,
            by_funding_bucket,
            by_price_oi_regime,
            by_symbol,
            by_period,
            sample_trades,
            classification,
        },
    )
}

} // verus!
