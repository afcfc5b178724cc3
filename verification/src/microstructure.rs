//! Bookkeeping for persisted order-book microstructure metrics.
use vstd::prelude::*;

verus! {

/// The three kinds of microstructure metric rows that a batch carries.
#[derive(Clone, Copy, Debug, PartialEq, Eq, Structural)]
pub enum MicrostructureMetricKind {
    Spread,
    Imbalance,
    Liquidity,
}

/// How many rows of each kind a batch persisted.
#[derive(Clone, Copy, Debug, PartialEq, Eq, Structural)]
pub struct MicrostructureUpsertSummary {
    pub spread_rows: i64,
    pub imbalance_rows: i64,
    pub liquidity_rows: i64,
}

impl Default for MicrostructureUpsertSummary {
    fn default() -> (s: Self)
        ensures
            s.spread_rows == 0 && s.imbalance_rows == 0 && s.liquidity_rows == 0,
    {
        MicrostructureUpsertSummary { spread_rows: 0, imbalance_rows: 0, liquidity_rows: 0 }
    }
}

/// The summary after one more persisted row of the given kind.
pub open spec fn microstructure_summary_after(
    s: MicrostructureUpsertSummary,
    kind: MicrostructureMetricKind,
) -> MicrostructureUpsertSummary {
    match kind {
        MicrostructureMetricKind::Spread => MicrostructureUpsertSummary {
            spread_rows: (s.spread_rows + 1) as i64,
            ..s
        },
        MicrostructureMetricKind::Imbalance => MicrostructureUpsertSummary {
            imbalance_rows: (s.imbalance_rows + 1) as i64,
            ..s
        },
        MicrostructureMetricKind::Liquidity => MicrostructureUpsertSummary {
            liquidity_rows: (s.liquidity_rows + 1) as i64,
            ..s
        },
    }
}

/// The counter of the given kind has room for one more row.
pub open spec fn microstructure_can_record(
    s: MicrostructureUpsertSummary,
    kind: MicrostructureMetricKind,
) -> bool {
    match kind {
        MicrostructureMetricKind::Spread => s.spread_rows < i64::MAX,
        MicrostructureMetricKind::Imbalance => s.imbalance_rows < i64::MAX,
        MicrostructureMetricKind::Liquidity => s.liquidity_rows < i64::MAX,
    }
}

impl MicrostructureUpsertSummary {
    /// Counts one persisted row.
    pub fn record(&mut self, kind: MicrostructureMetricKind)
        requires
            microstructure_can_record(*old(self), kind),
        ensures
            *final(self) == microstructure_summary_after(*old(self), kind),
    {
        match kind {
            MicrostructureMetricKind::Spread => self.spread_rows = self.spread_rows + 1,
            MicrostructureMetricKind::Imbalance => self.imbalance_rows = self.imbalance_rows + 1,
            MicrostructureMetricKind::Liquidity => self.liquidity_rows = self.liquidity_rows + 1,
        }
    }
}

} // verus!
