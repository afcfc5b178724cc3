//! Derivatives context: upsert bookkeeping, funding and open-interest
//! classification, and the freshness of each series.
use crate::decimal::{opt_parts, value_le, Dec};
use crate::text::owned;
use crate::timestamp::{ts_lt, Timestamp, MAX_ABS_SECS};
use vstd::prelude::*;

verus! {

/// What an upsert of one row did.
#[derive(Clone, Copy, Debug, PartialEq, Eq, Structural)]
pub enum UpsertOutcome {
    Inserted,
    Updated,
    Skipped,
}

/// The outcome of an upsert, from whether the insert returned a row and, where it did
/// not, whether the conditional update returned one.
pub fn upsert_outcome(inserted: bool, updated: bool) -> (o: UpsertOutcome)
    ensures
        inserted ==> o == UpsertOutcome::Inserted,
        !inserted && updated ==> o == UpsertOutcome::Updated,
        !inserted && !updated ==> o == UpsertOutcome::Skipped,
{
    if inserted {
        UpsertOutcome::Inserted
    } else if updated {
        UpsertOutcome::Updated
    } else {
        UpsertOutcome::Skipped
    }
}

/// Counts of what a batch of upserts did.
#[derive(Clone, Copy, Debug, PartialEq, Eq, Structural)]
pub struct DerivativesUpsertSummary {
    pub inserted: i32,
    pub updated: i32,
    pub skipped: i32,
}

impl Default for DerivativesUpsertSummary {
    fn default() -> (s: Self)
        ensures
            s.inserted == 0 && s.updated == 0 && s.skipped == 0,
    {
        DerivativesUpsertSummary { inserted: 0, updated: 0, skipped: 0 }
    }
}

/// The summary after one more outcome.
pub open spec fn summary_after(s: DerivativesUpsertSummary, o: UpsertOutcome) -> DerivativesUpsertSummary {
    match o {
        UpsertOutcome::Inserted => DerivativesUpsertSummary { inserted: (s.inserted + 1) as i32, ..s },
        UpsertOutcome::Updated => DerivativesUpsertSummary { updated: (s.updated + 1) as i32, ..s },
        UpsertOutcome::Skipped => DerivativesUpsertSummary { skipped: (s.skipped + 1) as i32, ..s },
    }
}

/// The counter that an outcome increments has room for one more.
pub open spec fn can_record(s: DerivativesUpsertSummary, o: UpsertOutcome) -> bool {
    match o {
        UpsertOutcome::Inserted => s.inserted < i32::MAX,
        UpsertOutcome::Updated => s.updated < i32::MAX,
        UpsertOutcome::Skipped => s.skipped < i32::MAX,
    }
}

impl DerivativesUpsertSummary {
    /// Counts one outcome.
    pub fn record(&mut self, outcome: UpsertOutcome)
        requires
            can_record(*old(self), outcome),
        ensures
            *final(self) == summary_after(*old(self), outcome),
    {
        match outcome {
            UpsertOutcome::Inserted => self.inserted = self.inserted + 1,
            UpsertOutcome::Updated => self.updated = self.updated + 1,
            UpsertOutcome::Skipped => self.skipped = self.skipped + 1,
        }
    }
}

/// Recording an outcome adds one to the total of the three counters and changes
/// no counter but its own.
pub proof fn law_record_counts_once(s: DerivativesUpsertSummary, o: UpsertOutcome)
    requires
        can_record(s, o),
    ensures
        summary_after(s, o).inserted + summary_after(s, o).updated + summary_after(s, o).skipped
            == s.inserted + s.updated + s.skipped + 1,
        o != UpsertOutcome::Inserted ==> summary_after(s, o).inserted == s.inserted,
        o != UpsertOutcome::Updated ==> summary_after(s, o).updated == s.updated,
        o != UpsertOutcome::Skipped ==> summary_after(s, o).skipped == s.skipped,
{
}

/// Where a funding rate stands.
#[derive(Clone, Copy, Debug, PartialEq, Eq, Structural)]
pub enum FundingBucket {
    ExtremeNegative,
    Negative,
    Neutral,
    Positive,
    ExtremePositive,
    Unknown,
}

/// The bucket of a funding rate and its z-score: a z-score of -2 or less, or of 2 or
/// more, decides; otherwise the sign of the rate does.
pub open spec fn funding_bucket_of(rate: Option<(int, int)>, zscore: Option<(int, int)>) -> FundingBucket {
    if zscore is Some && value_le(zscore->0, (-2int, 0int)) {
        FundingBucket::ExtremeNegative
    } else if zscore is Some && value_le((2int, 0int), zscore->0) {
        FundingBucket::ExtremePositive
    } else {
        match rate {
            Some(r) => if r.0 < 0 {
                FundingBucket::Negative
            } else if r.0 > 0 {
                FundingBucket::Positive
            } else {
                FundingBucket::Neutral
            },
            None => FundingBucket::Unknown,
        }
    }
}

impl FundingBucket {
    /// Classifies a funding rate by its z-score and sign.
    pub fn classify(rate: Option<Dec>, zscore: Option<Dec>) -> (b: FundingBucket)
        ensures
            b == funding_bucket_of(opt_parts(rate), opt_parts(zscore)),
    {
        if let Some(z) = zscore {
            if z.le(&Dec::from_int(-2)) {
                return FundingBucket::ExtremeNegative;
            }
            if Dec::from_int(2).le(&z) {
                return FundingBucket::ExtremePositive;
            }
        }
        match rate {
            Some(value) => if value.is_negative() {
                FundingBucket::Negative
            } else if value.is_positive() {
                FundingBucket::Positive
            } else {
                FundingBucket::Neutral
            },
            None => FundingBucket::Unknown,
        }
    }

    /// The variant's name, as grouping labels show it.
    pub fn label(&self) -> (s: String)
        ensures
            s@ == funding_bucket_label(*self),
    {
        match self {
            FundingBucket::ExtremeNegative => owned("ExtremeNegative"),
            FundingBucket::Negative => owned("Negative"),
            FundingBucket::Neutral => owned("Neutral"),
            FundingBucket::Positive => owned("Positive"),
            FundingBucket::ExtremePositive => owned("ExtremePositive"),
            FundingBucket::Unknown => owned("Unknown"),
        }
    }
}

/// The name of a funding bucket.
pub open spec fn funding_bucket_label(b: FundingBucket) -> Seq<char> {
    match b {
        FundingBucket::ExtremeNegative => "ExtremeNegative"@,
        FundingBucket::Negative => "Negative"@,
        FundingBucket::Neutral => "Neutral"@,
        FundingBucket::Positive => "Positive"@,
        FundingBucket::ExtremePositive => "ExtremePositive"@,
        FundingBucket::Unknown => "Unknown"@,
    }
}

/// A z-score at or beyond two standard deviations decides the bucket whatever the rate.
pub proof fn law_extreme_zscore_wins(rate: Option<(int, int)>, other_rate: Option<(int, int)>, z: (int, int))
    requires
        value_le(z, (-2int, 0int)) || value_le((2int, 0int), z),
    ensures
        funding_bucket_of(rate, Some(z)) == funding_bucket_of(other_rate, Some(z)),
        funding_bucket_of(rate, Some(z)) == FundingBucket::ExtremeNegative || funding_bucket_of(
            rate,
            Some(z),
        ) == FundingBucket::ExtremePositive,
{
}

/// How price and open interest moved together.
#[derive(Clone, Copy, Debug, PartialEq, Eq, Structural)]
pub enum PriceOiRegime {
    PriceUpOiUp,
    PriceUpOiDown,
    PriceDownOiUp,
    PriceDownOiDown,
    Unknown,
}

/// The quadrant of a price change and an open-interest change (zero counts as up).
pub open spec fn price_oi_regime_of(price: Option<(int, int)>, oi: Option<(int, int)>) -> PriceOiRegime {
    match (price, oi) {
        (Some(p), Some(o)) => if p.0 >= 0 && o.0 >= 0 {
            PriceOiRegime::PriceUpOiUp
        } else if p.0 >= 0 {
            PriceOiRegime::PriceUpOiDown
        } else if o.0 >= 0 {
            PriceOiRegime::PriceDownOiUp
        } else {
            PriceOiRegime::PriceDownOiDown
        },
        _ => PriceOiRegime::Unknown,
    }
}

/// The name of a regime.
pub open spec fn price_oi_regime_label(r: PriceOiRegime) -> Seq<char> {
    match r {
        PriceOiRegime::PriceUpOiUp => "PriceUpOiUp"@,
        PriceOiRegime::PriceUpOiDown => "PriceUpOiDown"@,
        PriceOiRegime::PriceDownOiUp => "PriceDownOiUp"@,
        PriceOiRegime::PriceDownOiDown => "PriceDownOiDown"@,
        PriceOiRegime::Unknown => "Unknown"@,
    }
}

impl PriceOiRegime {
    /// Classifies the joint move of price and open interest.
    pub fn classify(price_change_pct: Option<Dec>, oi_change_pct: Option<Dec>) -> (r: PriceOiRegime)
        ensures
            r == price_oi_regime_of(opt_parts(price_change_pct), opt_parts(oi_change_pct)),
    {
        match (price_change_pct, oi_change_pct) {
            (Some(price), Some(oi)) => {
                if !price.is_negative() && !oi.is_negative() {
                    PriceOiRegime::PriceUpOiUp
                } else if !price.is_negative() {
                    PriceOiRegime::PriceUpOiDown
                } else if !oi.is_negative() {
                    PriceOiRegime::PriceDownOiUp
                } else {
                    PriceOiRegime::PriceDownOiDown
                }
            },
            _ => PriceOiRegime::Unknown,
        }
    }

    /// The variant's name, as grouping labels show it.
    pub fn label(&self) -> (s: String)
        ensures
            s@ == price_oi_regime_label(*self),
    {
        match self {
            PriceOiRegime::PriceUpOiUp => owned("PriceUpOiUp"),
            PriceOiRegime::PriceUpOiDown => owned("PriceUpOiDown"),
            PriceOiRegime::PriceDownOiUp => owned("PriceDownOiUp"),
            PriceOiRegime::PriceDownOiDown => owned("PriceDownOiDown"),
            PriceOiRegime::Unknown => owned("Unknown"),
        }
    }
}

/// How recent the latest row of one derivatives series is.
#[derive(Clone, Debug)]
pub struct DerivativesFreshnessRow {
    pub exchange: String,
    pub symbol: String,
    pub metric: String,
    pub period: Option<String>,
    pub latest_timestamp: Option<Timestamp>,
    pub rows: i64,
    pub status: String,
    pub stale_after: Timestamp,
}

/// `missing` without a latest timestamp, `stale` when it is before the threshold,
/// `fresh` otherwise.
pub open spec fn freshness_status_of(latest: Option<Timestamp>, stale_after: Timestamp) -> Seq<char> {
    match latest {
        None => "missing"@,
        Some(t) => if ts_lt(t, stale_after) {
            "stale"@
        } else {
            "fresh"@
        },
    }
}

/// The optional text, by its characters.
pub open spec fn opt_str_view(s: Option<&str>) -> Option<Seq<char>> {
    match s {
        Some(x) => Some(x@),
        None => None,
    }
}

/// The optional string, by its characters.
pub open spec fn opt_string_view(s: Option<String>) -> Option<Seq<char>> {
    match s {
        Some(x) => Some(x@),
        None => None,
    }
}

/// The freshness row of one series, from its latest timestamp and row count (absent
/// when nothing was read).
pub fn freshness_row(
    exchange: &str,
    symbol: &str,
    metric: &str,
    period: Option<&str>,
    latest: Option<(Option<Timestamp>, i64)>,
    stale_after: Timestamp,
) -> (row: DerivativesFreshnessRow)
    ensures
        row.exchange@ == exchange@,
        row.symbol@ == symbol@,
        row.metric@ == metric@,
        opt_string_view(row.period) == opt_str_view(period),
        row.latest_timestamp == (match latest {
            Some(l) => l.0,
            None => None,
        }),
        row.rows == (match latest {
            Some(l) => l.1,
            None => 0,
        }),
        row.status@ == freshness_status_of(row.latest_timestamp, stale_after),
        row.stale_after == stale_after,
{
    let (latest_timestamp, rows) = match latest {
        Some(l) => l,
        None => (None, 0),
    };
    let status = match latest_timestamp {
        None => owned("missing"),
        Some(timestamp) => if timestamp.before(&stale_after) {
            owned("stale")
        } else {
            owned("fresh")
        },
    };
    DerivativesFreshnessRow {
        exchange: owned(exchange),
        symbol: owned(symbol),
        metric: owned(metric),
        period: match period {
            Some(p) => Some(owned(p)),
            None => None,
        },
        latest_timestamp,
        rows,
        status,
        stale_after,
    }
}


/// Freshness of every tracked derivatives series.
#[derive(Debug)]
pub struct DerivativesFreshnessReport {
    pub generated_at: Timestamp,
    pub execution_authority: String,
    pub rows: Vec<DerivativesFreshnessRow>,
    pub missing_count: i32,
    pub stale_count: i32,
}

/// Seconds in an hour.
pub const SECS_PER_HOUR: i64 = 3_600i64;

/// How many rows have the given status.
pub open spec fn count_status(rows: Seq<DerivativesFreshnessRow>, status: Seq<char>) -> nat
    decreases rows.len(),
{
    if rows.len() == 0 {
        0
    } else {
        count_status(rows.drop_last(), status) + if rows.last().status@ == status {
            1nat
        } else {
            0nat
        }
    }
}

proof fn lemma_count_status_bound(rows: Seq<DerivativesFreshnessRow>, status: Seq<char>)
    ensures
        count_status(rows, status) <= rows.len(),
    decreases rows.len(),
{
    if rows.len() > 0 {
        lemma_count_status_bound(rows.drop_last(), status);
    }
}

/// The staleness thresholds at `now`: funding is stale after twelve hours, the
/// four-hour series after eight.
pub fn freshness_thresholds(now: Timestamp) -> (t: (Timestamp, Timestamp))
    requires
        now@.0 - 12 * SECS_PER_HOUR >= -MAX_ABS_SECS,
    ensures
        t.0@ == (now@.0 - 12 * SECS_PER_HOUR, now@.1),
        t.1@ == (now@.0 - 8 * SECS_PER_HOUR, now@.1),
{
    (
        now.minus_seconds(12 * SECS_PER_HOUR),
        now.minus_seconds(8 * SECS_PER_HOUR),
    )
}

/// What a series' latest value reads as: its latest timestamp, if it has any rows.
pub open spec fn latest_of(l: Option<(Option<Timestamp>, i64)>) -> Option<Timestamp> {
    match l {
        Some(v) => v.0,
        None => None,
    }
}

/// How many rows a series has.
pub open spec fn row_count_of(l: Option<(Option<Timestamp>, i64)>) -> i64 {
    match l {
        Some(v) => v.1,
        None => 0,
    }
}

/// One freshness row: Binance, the symbol, the metric and period, the series' latest
/// timestamp and row count, and its status against the threshold.
pub open spec fn row_is(
    row: DerivativesFreshnessRow,
    symbol: Seq<char>,
    metric: Seq<char>,
    period: Option<Seq<char>>,
    latest: Option<(Option<Timestamp>, i64)>,
    stale_after: Timestamp,
) -> bool {
    &&& row.exchange@ == "binance"@
    &&& row.symbol@ == symbol
    &&& row.metric@ == metric
    &&& opt_string_view(row.period) == period
    &&& row.stale_after == stale_after
    &&& row.latest_timestamp == latest_of(latest)
    &&& row.rows == row_count_of(latest)
    &&& row.status@ == freshness_status_of(row.latest_timestamp, stale_after)
}

/// The four freshness rows of one symbol: funding against the twelve-hour threshold,
/// then open interest for `oi_period`, global long/short and taker buy/sell for
/// `positioning_period` against the eight-hour one.
pub open spec fn symbol_rows_are(
    rows: Seq<DerivativesFreshnessRow>,
    symbol: Seq<char>,
    oi_period: Seq<char>,
    positioning_period: Seq<char>,
    funding: Option<(Option<Timestamp>, i64)>,
    open_interest: Option<(Option<Timestamp>, i64)>,
    long_short: Option<(Option<Timestamp>, i64)>,
    taker: Option<(Option<Timestamp>, i64)>,
    funding_stale_after: Timestamp,
    four_hour_stale_after: Timestamp,
) -> bool {
    &&& rows.len() == 4
    &&& row_is(rows[0], symbol, "funding"@, None, funding, funding_stale_after)
    &&& row_is(rows[1], symbol, "open_interest"@, Some(oi_period), open_interest, four_hour_stale_after)
    &&& row_is(rows[2], symbol, "global-long-short"@, Some(positioning_period), long_short, four_hour_stale_after)
    &&& row_is(rows[3], symbol, "taker-buy-sell"@, Some(positioning_period), taker, four_hour_stale_after)
}

/// The four freshness rows of one (normalised) symbol on Binance: funding, open interest
/// for `oi_period`, and global long/short and taker buy/sell for `positioning_period`.
pub fn symbol_freshness_rows(
    symbol: &str,
    oi_period: &str,
    positioning_period: &str,
    funding: Option<(Option<Timestamp>, i64)>,
    open_interest: Option<(Option<Timestamp>, i64)>,
    long_short: Option<(Option<Timestamp>, i64)>,
    taker: Option<(Option<Timestamp>, i64)>,
    funding_stale_after: Timestamp,
    four_hour_stale_after: Timestamp,
) -> (rows: Vec<DerivativesFreshnessRow>)
    ensures
        symbol_rows_are(
            rows@,
            symbol@,
            oi_period@,
            positioning_period@,
            funding,
            open_interest,
            long_short,
            taker,
            funding_stale_after,
            four_hour_stale_after,
        ),
{
    let mut rows: Vec<DerivativesFreshnessRow> = Vec::new();
    rows.push(freshness_row("binance", symbol, "funding", None, funding, funding_stale_after));
    rows.push(
        freshness_row(
            "binance",
            symbol,
            "open_interest",
            Some(oi_period),
            open_interest,
            four_hour_stale_after,
        ),
    );
    rows.push(
        freshness_row(
            "binance",
            symbol,
            "global-long-short",
            Some(positioning_period),
            long_short,
            four_hour_stale_after,
        ),
    );
    rows.push(
        freshness_row(
            "binance",
            symbol,
            "taker-buy-sell",
            Some(positioning_period),
            taker,
            four_hour_stale_after,
        ),
    );
    rows
}

/// The report over all rows: the counts of missing and stale series, with no execution
/// authority.
pub fn freshness_report(rows: Vec<DerivativesFreshnessRow>, now: Timestamp) -> (r: DerivativesFreshnessReport)
    requires
        rows@.len() <= i32::MAX,
    ensures
        r.generated_at == now,
        r.execution_authority@ == "NONE"@,
        r.rows@ == rows@,
        r.missing_count == count_status(rows@, "missing"@),
        r.stale_count == count_status(rows@, "stale"@),
{
    let mut missing: i32 = 0;
    let mut stale: i32 = 0;
    let mut i: usize = 0;
    while i < rows.len()
        invariant
            i <= rows@.len(),
            rows@.len() <= i32::MAX,
            missing == count_status(rows@.take(i as int), "missing"@),
            stale == count_status(rows@.take(i as int), "stale"@),
        decreases rows@.len() - i,
    {
        proof {
            assert(rows@.take(i as int + 1).drop_last() =~= rows@.take(i as int));
            lemma_count_status_bound(rows@.take(i as int), "missing"@);
            lemma_count_status_bound(rows@.take(i as int), "stale"@);
        }
        if crate::text::str_eq(rows[i].status.as_str(), "missing") {
            missing = missing + 1;
        }
        if crate::text::str_eq(rows[i].status.as_str(), "stale") {
            stale = stale + 1;
        }
        i = i + 1;
    }
    proof {
        assert(rows@.take(rows@.len() as int) =~= rows@);
    }
    DerivativesFreshnessReport {
        generated_at: now,
        execution_authority: owned("NONE"),
        rows,
        missing_count: missing,
        stale_count: stale,
    }
}

/// The latest values of one (normalised) symbol's four series, as read from storage:
/// for each, `None` when it has no rows, else its latest timestamp and row count.
pub struct SymbolLatest {
    pub symbol: String,
    pub funding: Option<(Option<Timestamp>, i64)>,
    pub open_interest: Option<(Option<Timestamp>, i64)>,
    pub long_short: Option<(Option<Timestamp>, i64)>,
    pub taker: Option<(Option<Timestamp>, i64)>,
}

/// The symbol's four rows, in the order the report lists them, at thresholds `t`.
pub open spec fn rows_for_symbol(
    rows: Seq<DerivativesFreshnessRow>,
    l: SymbolLatest,
    oi_period: Seq<char>,
    positioning_period: Seq<char>,
    t: (Timestamp, Timestamp),
) -> bool {
    symbol_rows_are(
        rows,
        l.symbol@,
        oi_period,
        positioning_period,
        l.funding,
        l.open_interest,
        l.long_short,
        l.taker,
        t.0,
        t.1,
    )
}

/// The freshness report at `now` over the symbols in order, four rows each. `None`
/// when `now` is too close to the earliest timestamp for its twelve-hour threshold, or
/// when the rows would be too many to count in an `i32`.
pub fn derivatives_freshness_for_symbols(
    latest: Vec<SymbolLatest>,
    oi_period: &str,
    positioning_period: &str,
    now: Timestamp,
) -> (r: Option<DerivativesFreshnessReport>)
    ensures
        r is None <==> (now@.0 - 12 * SECS_PER_HOUR < -MAX_ABS_SECS || 4 * latest@.len() > i32::MAX),
        r matches Some(rep) ==> {
            &&& rep.generated_at == now
            &&& rep.execution_authority@ == "NONE"@
            &&& rep.rows@.len() == 4 * latest@.len()
            &&& exists|t: (Timestamp, Timestamp)| {
                &&& t.0@ == (now@.0 - 12 * SECS_PER_HOUR, now@.1)
                &&& t.1@ == (now@.0 - 8 * SECS_PER_HOUR, now@.1)
                &&& forall|k: int|
                    0 <= k < latest@.len() ==> rows_for_symbol(
                        #[trigger] rep.rows@.subrange(4 * k, 4 * k + 4),
                        latest@[k],
                        oi_period@,
                        positioning_period@,
                        t,
                    )
            }
            &&& rep.missing_count == count_status(rep.rows@, "missing"@)
            &&& rep.stale_count == count_status(rep.rows@, "stale"@)
        },
{
    let secs = now.secs();
    if secs < -MAX_ABS_SECS + 12 * SECS_PER_HOUR || latest.len() > 536_870_911 {
        return None;
    }
    let thresholds = freshness_thresholds(now);
    let ghost t = thresholds;
    let mut rows: Vec<DerivativesFreshnessRow> = Vec::new();
    let mut i: usize = 0;
    while i < latest.len()
        invariant
            i <= latest@.len(),
            rows@.len() == 4 * i,
            t == thresholds,
            forall|k: int|
                0 <= k < i ==> rows_for_symbol(
                    #[trigger] rows@.subrange(4 * k, 4 * k + 4),
                    latest@[k],
                    oi_period@,
                    positioning_period@,
                    t,
                ),
        decreases latest@.len() - i,
    {
        let l = &latest[i];
        let mut more = symbol_freshness_rows(
            l.symbol.as_str(),
            oi_period,
            positioning_period,
            l.funding,
            l.open_interest,
            l.long_short,
            l.taker,
            thresholds.0,
            thresholds.1,
        );
        let ghost old_rows = rows@;
        let ghost new_rows = more@;
        rows.append(&mut more);
        proof {
            assert(rows@ == old_rows + new_rows);
            assert forall|k: int| 0 <= k < i + 1 implies rows_for_symbol(
                #[trigger] rows@.subrange(4 * k, 4 * k + 4),
                latest@[k],
                oi_period@,
                positioning_period@,
                t,
            ) by {
                if k < i {
                    assert(rows@.subrange(4 * k, 4 * k + 4) =~= old_rows.subrange(4 * k, 4 * k + 4));
                } else {
                    assert(rows@.subrange(4 * k, 4 * k + 4) =~= new_rows);
                }
            }
        }
        i = i + 1;
    }
    let rep = freshness_report(rows, now);
    proof {
        assert(rep.rows@ == rows@);
    }
    Some(rep)
}

} // verus!
