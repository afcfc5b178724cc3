//! Strategy performance analytics: limits and windows of requests, the
//! ranking of strategies, and the loss figures of the risk state.
use crate::decimal::{opt_parts, pow10, value_eq, value_lt, Dec};
use crate::stats::DecimalOverflow;
use crate::text::{lex_lt, str_eq, str_lt};
use crate::timestamp::{ts_le, Timestamp, MAX_ABS_SECS};
use vstd::prelude::*;

verus! {

/// Default number of strategies ranked.
pub const ANALYTICS_DEFAULT_LIMIT: i64 = 20i64;

/// Largest number of strategies ranked.
pub const ANALYTICS_MAX_LIMIT: i64 = 100i64;

/// Default length of an analytics window, in days.
pub const ANALYTICS_DEFAULT_WINDOW_DAYS: i64 = 7i64;

/// Seconds in a day.
pub const SECS_PER_DAY: i64 = 86_400i64;

/// The limit of a ranking: a positive request capped at the maximum, the default
/// otherwise.
pub fn bounded_analytics_limit(limit: Option<i64>) -> (l: i64)
    ensures
        l == (match limit {
            Some(v) => if v > 0 {
                if v < ANALYTICS_MAX_LIMIT { v } else { ANALYTICS_MAX_LIMIT }
            } else {
                ANALYTICS_DEFAULT_LIMIT
            },
            None => ANALYTICS_DEFAULT_LIMIT,
        }),
        1 <= l <= ANALYTICS_MAX_LIMIT,
{
    match limit {
        Some(value) => if value > 0 {
            if value < ANALYTICS_MAX_LIMIT {
                value
            } else {
                ANALYTICS_MAX_LIMIT
            }
        } else {
            ANALYTICS_DEFAULT_LIMIT
        },
        None => ANALYTICS_DEFAULT_LIMIT,
    }
}

/// The window of an analytics request at `computed_at`: it ends at the requested end
/// (or now) and starts at the requested start (or seven days before the end); when
/// the start is after the end the two are swapped.
pub fn analytics_window(
    start_time: Option<Timestamp>,
    end_time: Option<Timestamp>,
    computed_at: Timestamp,
) -> (w: (Timestamp, Timestamp, Timestamp))
    requires
        start_time is None && end_time is Some ==> end_time->0@.0 - ANALYTICS_DEFAULT_WINDOW_DAYS * SECS_PER_DAY >= -MAX_ABS_SECS,
        start_time is None && end_time is None ==> computed_at@.0 - ANALYTICS_DEFAULT_WINDOW_DAYS * SECS_PER_DAY >= -MAX_ABS_SECS,
    ensures
        ({
            let end = match end_time { Some(e) => e, None => computed_at };
            &&& start_time is Some ==> (ts_le(start_time->0, end) ==> w.0 == start_time->0 && w.1 == end)
                && (!ts_le(start_time->0, end) ==> w.0 == end && w.1 == start_time->0)
            &&& start_time is None ==> w.0@ == (end@.0 - ANALYTICS_DEFAULT_WINDOW_DAYS * SECS_PER_DAY, end@.1) && w.1 == end
            &&& w.2 == computed_at
        }),
{
    let end = match end_time {
        Some(e) => e,
        None => computed_at,
    };
    let start = match start_time {
        Some(s) => s,
        None => end.minus_seconds(ANALYTICS_DEFAULT_WINDOW_DAYS * SECS_PER_DAY),
    };
    if !end.before(&start) {
        (start, end, computed_at)
    } else {
        (end, start, computed_at)
    }
}

/// Which figures a performance request reads.
#[derive(Clone, Copy, Debug, PartialEq, Eq, Structural)]
pub enum StrategyPerformanceMode {
    Backtest,
    Paper,
    Shadow,
    Combined,
}

/// The performance of one strategy, to be ranked against others.
#[derive(Debug)]
pub struct StrategyComparisonSummary {
    pub strategy_id: String,
    pub symbol: Option<String>,
    pub timeframe: Option<String>,
    pub mode: StrategyPerformanceMode,
    pub realized_pnl: Dec,
    pub unrealized_pnl: Dec,
    pub risk_rejection_rate: Dec,
    pub win_rate: Option<Dec>,
    pub best_backtest_pnl_pct: Option<Dec>,
    pub worst_backtest_pnl_pct: Option<Dec>,
    pub avg_backtest_pnl_pct: Option<Dec>,
    pub shadow_would_submit_count: i64,
    pub shadow_no_signal_count: i64,
    pub shadow_risk_rejected_count: i64,
    pub approved_risk_decisions: i64,
    pub rejected_risk_decisions: i64,
    pub paper_orders_count: i64,
    pub total_signals: i64,
    pub total_runs: i64,
    pub computed_at: Timestamp,
}

/// The average backtest result, zero when absent.
pub open spec fn backtest_key(s: StrategyComparisonSummary) -> (int, int) {
    match opt_parts(s.avg_backtest_pnl_pct) {
        Some(p) => p,
        None => (0int, 0int),
    }
}

/// `a` ranks before `b`: by the mode's figures, best first (average backtest result;
/// realized result; shadow submissions, then risk rejections; realized result, then
/// shadow submissions), then by strategy id.
pub open spec fn ranks_before(mode: StrategyPerformanceMode, a: StrategyComparisonSummary, b: StrategyComparisonSummary) -> bool {
    match mode {
        StrategyPerformanceMode::Backtest => value_lt(backtest_key(b), backtest_key(a)) || (value_eq(backtest_key(a), backtest_key(b))
            && lex_lt(a.strategy_id@, b.strategy_id@)),
        StrategyPerformanceMode::Paper => value_lt(b.realized_pnl@, a.realized_pnl@) || (value_eq(a.realized_pnl@, b.realized_pnl@)
            && lex_lt(a.strategy_id@, b.strategy_id@)),
        StrategyPerformanceMode::Shadow => b.shadow_would_submit_count < a.shadow_would_submit_count || (
        a.shadow_would_submit_count == b.shadow_would_submit_count && (b.rejected_risk_decisions
            < a.rejected_risk_decisions || (a.rejected_risk_decisions == b.rejected_risk_decisions
            && lex_lt(a.strategy_id@, b.strategy_id@)))),
        StrategyPerformanceMode::Combined => value_lt(b.realized_pnl@, a.realized_pnl@) || (value_eq(a.realized_pnl@, b.realized_pnl@)
            && (b.shadow_would_submit_count < a.shadow_would_submit_count || (a.shadow_would_submit_count
            == b.shadow_would_submit_count && lex_lt(a.strategy_id@, b.strategy_id@)))),
    }
}

/// No summary ranks before an earlier one.
pub open spec fn ranked(mode: StrategyPerformanceMode, s: Seq<StrategyComparisonSummary>) -> bool {
    forall|i: int, j: int| 0 <= i < j < s.len() ==> !ranks_before(mode, #[trigger] s[j], #[trigger] s[i])
}

proof fn lemma_pow10_pos(n: nat)
    ensures
        pow10(n) > 0,
    decreases n,
{
    if n > 0 {
        lemma_pow10_pos((n - 1) as nat);
    }
}

proof fn lemma_value_order(a: (int, int), b: (int, int), c: (int, int))
    requires
        a.1 >= 0,
        b.1 >= 0,
        c.1 >= 0,
    ensures
        value_lt(a, b) && value_lt(b, c) ==> value_lt(a, c),
        value_lt(a, b) && value_eq(b, c) ==> value_lt(a, c),
        value_eq(a, b) && value_lt(b, c) ==> value_lt(a, c),
        value_eq(a, b) && value_eq(b, c) ==> value_eq(a, c),
{
    let pa = pow10(a.1 as nat);
    let pb = pow10(b.1 as nat);
    let pc = pow10(c.1 as nat);
    lemma_pow10_pos(a.1 as nat);
    lemma_pow10_pos(b.1 as nat);
    lemma_pow10_pos(c.1 as nat);
    let x = a.0 * pb;
    let y = b.0 * pa;
    let u = b.0 * pc;
    let v = c.0 * pb;
    assert(a.0 * pc * pb == x * pc && b.0 * pa * pc == y * pc) by (nonlinear_arith)
        requires x == a.0 * pb, y == b.0 * pa;
    assert(b.0 * pc * pa == u * pa && c.0 * pb * pa == v * pa) by (nonlinear_arith)
        requires u == b.0 * pc, v == c.0 * pb;
    assert(y * pc == u * pa) by (nonlinear_arith)
        requires y == b.0 * pa, u == b.0 * pc;
    assert(x < y ==> x * pc < y * pc) by (nonlinear_arith) requires pc > 0;
    assert(x == y ==> x * pc == y * pc);
    assert(u < v ==> u * pa < v * pa) by (nonlinear_arith) requires pa > 0;
    assert(u == v ==> u * pa == v * pa);
    assert(a.0 * pc * pb < c.0 * pa * pb ==> a.0 * pc < c.0 * pa) by (nonlinear_arith) requires pb > 0;
    assert(a.0 * pc * pb == c.0 * pa * pb ==> a.0 * pc == c.0 * pa) by (nonlinear_arith) requires pb > 0;
    assert(c.0 * pb * pa == c.0 * pa * pb) by (nonlinear_arith);
}

proof fn lemma_ranks_before_order(
    mode: StrategyPerformanceMode,
    a: StrategyComparisonSummary,
    b: StrategyComparisonSummary,
    c: StrategyComparisonSummary,
)
    requires
        a.realized_pnl@.1 >= 0,
        b.realized_pnl@.1 >= 0,
        c.realized_pnl@.1 >= 0,
        backtest_key(a).1 >= 0,
        backtest_key(b).1 >= 0,
        backtest_key(c).1 >= 0,
    ensures
        ranks_before(mode, a, b) ==> !ranks_before(mode, b, a),
        ranks_before(mode, a, b) && ranks_before(mode, b, c) ==> ranks_before(mode, a, c),
{
    crate::text::lemma_lex_lt_trichotomy(a.strategy_id@, b.strategy_id@);
    if lex_lt(a.strategy_id@, b.strategy_id@) && lex_lt(b.strategy_id@, c.strategy_id@) {
        crate::text::lemma_lex_lt_trans(a.strategy_id@, b.strategy_id@, c.strategy_id@);
    }
    lemma_value_order(backtest_key(c), backtest_key(b), backtest_key(a));
    lemma_value_order(c.realized_pnl@, b.realized_pnl@, a.realized_pnl@);
    lemma_value_order(a.realized_pnl@, b.realized_pnl@, c.realized_pnl@);
    lemma_value_order(backtest_key(a), backtest_key(b), backtest_key(c));
}

fn opt_key(o: &Option<Dec>) -> (d: Dec)
    ensures
        d@ == (match opt_parts(*o) { Some(p) => p, None => (0int, 0int) }),
        d@.1 >= 0,
{
    match o {
        Some(x) => {
            let _ = x.scale();
            *x
        },
        None => Dec::zero(),
    }
}

fn ranks_before_exec(mode: StrategyPerformanceMode, a: &StrategyComparisonSummary, b: &StrategyComparisonSummary) -> (r: bool)
    ensures
        r == ranks_before(mode, *a, *b),
{
    match mode {
        StrategyPerformanceMode::Backtest => {
            let ka = opt_key(&a.avg_backtest_pnl_pct);
            let kb = opt_key(&b.avg_backtest_pnl_pct);
            kb.lt(&ka) || (ka == kb && str_lt(a.strategy_id.as_str(), b.strategy_id.as_str()))
        },
        StrategyPerformanceMode::Paper => {
            b.realized_pnl.lt(&a.realized_pnl) || (a.realized_pnl == b.realized_pnl && str_lt(
                a.strategy_id.as_str(),
                b.strategy_id.as_str(),
            ))
        },
        StrategyPerformanceMode::Shadow => {
            b.shadow_would_submit_count < a.shadow_would_submit_count || (a.shadow_would_submit_count
                == b.shadow_would_submit_count && (b.rejected_risk_decisions < a.rejected_risk_decisions
                || (a.rejected_risk_decisions == b.rejected_risk_decisions && str_lt(
                a.strategy_id.as_str(),
                b.strategy_id.as_str(),
            ))))
        },
        StrategyPerformanceMode::Combined => {
            b.realized_pnl.lt(&a.realized_pnl) || (a.realized_pnl == b.realized_pnl && (
            b.shadow_would_submit_count < a.shadow_would_submit_count || (a.shadow_would_submit_count
                == b.shadow_would_submit_count && str_lt(a.strategy_id.as_str(), b.strategy_id.as_str()))))
        },
    }
}

proof fn lemma_insert_to_multiset<A>(s: Seq<A>, pos: int, x: A)
    requires
        0 <= pos <= s.len(),
    ensures
        s.insert(pos, x).to_multiset() =~= s.to_multiset().insert(x),
{
    let a = s.subrange(0, pos);
    let b = s.subrange(pos, s.len() as int);
    assert(s =~= a + b);
    vstd::seq_lib::lemma_multiset_commutative(a, b);
    vstd::seq_lib::lemma_multiset_commutative(a.push(x), b);
    a.to_multiset_ensures();
}

/// The scales of a summary's ranking figures are not negative.
pub open spec fn scales_ok(s: StrategyComparisonSummary) -> bool {
    s.realized_pnl@.1 >= 0 && backtest_key(s).1 >= 0
}

/// What a ranking orders by, in each mode, for any two summaries `s[i]` before `s[j]`:
/// paper and combined rankings put the higher realized PnL first, and among equal
/// realized PnL the combined ranking puts more shadow would-submit signals first; the
/// shadow ranking puts more would-submit signals first and, among equal counts, more
/// rejected risk decisions; the backtest ranking puts the higher average backtest PnL
/// first. Among summaries equal in all of these, the smaller strategy id comes first.
pub proof fn law_ranking_order(mode: StrategyPerformanceMode, s: Seq<StrategyComparisonSummary>, i: int, j: int)
    requires
        ranked(mode, s),
        0 <= i < j < s.len(),
    ensures
        (mode is Paper || mode is Combined) ==> !value_lt(s[i].realized_pnl@, s[j].realized_pnl@),
        mode is Combined && value_eq(s[i].realized_pnl@, s[j].realized_pnl@)
            ==> s[i].shadow_would_submit_count >= s[j].shadow_would_submit_count,
        mode is Shadow ==> s[i].shadow_would_submit_count >= s[j].shadow_would_submit_count,
        mode is Shadow && s[i].shadow_would_submit_count == s[j].shadow_would_submit_count
            ==> s[i].rejected_risk_decisions >= s[j].rejected_risk_decisions,
        mode is Backtest ==> !value_lt(backtest_key(s[i]), backtest_key(s[j])),
        mode is Paper && value_eq(s[i].realized_pnl@, s[j].realized_pnl@) ==> !lex_lt(
            s[j].strategy_id@,
            s[i].strategy_id@,
        ),
        mode is Combined && value_eq(s[i].realized_pnl@, s[j].realized_pnl@)
            && s[i].shadow_would_submit_count == s[j].shadow_would_submit_count ==> !lex_lt(
            s[j].strategy_id@,
            s[i].strategy_id@,
        ),
        mode is Shadow && s[i].shadow_would_submit_count == s[j].shadow_would_submit_count
            && s[i].rejected_risk_decisions == s[j].rejected_risk_decisions ==> !lex_lt(
            s[j].strategy_id@,
            s[i].strategy_id@,
        ),
        mode is Backtest && value_eq(backtest_key(s[i]), backtest_key(s[j])) ==> !lex_lt(
            s[j].strategy_id@,
            s[i].strategy_id@,
        ),
{
    assert(!ranks_before(mode, s[j], s[i]));
}

/// How many of the leading summaries of `s` the summary `x` does not rank before.
pub open spec fn not_before_prefix_len(
    mode: StrategyPerformanceMode,
    s: Seq<StrategyComparisonSummary>,
    x: StrategyComparisonSummary,
) -> nat
    decreases s.len(),
{
    if s.len() > 0 && !ranks_before(mode, x, s[0]) {
        1 + not_before_prefix_len(mode, s.drop_first(), x)
    } else {
        0
    }
}

/// The summaries in ranking order as a stable sort leaves them: each goes after every
/// earlier one that it does not rank before, so that full ties keep their input order.
pub open spec fn stable_ranked(mode: StrategyPerformanceMode, s: Seq<StrategyComparisonSummary>) -> Seq<
    StrategyComparisonSummary,
>
    decreases s.len(),
{
    if s.len() == 0 {
        Seq::empty()
    } else {
        let r = stable_ranked(mode, s.drop_last());
        r.insert(not_before_prefix_len(mode, r, s.last()) as int, s.last())
    }
}

/// The summaries in ranking order (stable), cut to the first `limit`.
pub fn rank_strategy_comparisons(
    mode: StrategyPerformanceMode,
    rankings: Vec<StrategyComparisonSummary>,
    limit: usize,
) -> (r: Vec<StrategyComparisonSummary>)
    ensures
        r@ == stable_ranked(mode, rankings@).take(
            if limit < rankings@.len() { limit as int } else { rankings@.len() as int },
        ),
        stable_ranked(mode, rankings@).to_multiset() == rankings@.to_multiset(),
        ranked(mode, stable_ranked(mode, rankings@)),
        forall|i: int, j: int|
            0 <= i < j < r@.len() ==> {
                &&& (mode is Paper || mode is Combined) ==> !value_lt(
                    (#[trigger] r@[i]).realized_pnl@,
                    (#[trigger] r@[j]).realized_pnl@,
                )
                &&& mode is Combined && value_eq(r@[i].realized_pnl@, r@[j].realized_pnl@)
                    ==> r@[i].shadow_would_submit_count >= r@[j].shadow_would_submit_count
                &&& mode is Shadow ==> r@[i].shadow_would_submit_count >= r@[j].shadow_would_submit_count
                &&& mode is Shadow && r@[i].shadow_would_submit_count == r@[j].shadow_would_submit_count
                    ==> r@[i].rejected_risk_decisions >= r@[j].rejected_risk_decisions
                &&& mode is Backtest ==> !value_lt(backtest_key(r@[i]), backtest_key(r@[j]))
            },
{
    let ghost orig = rankings@;
    let ghost mut done: int = 0;
    let mut rest = rankings;
    let mut sorted: Vec<StrategyComparisonSummary> = Vec::new();
    proof {
        vstd::seq_lib::lemma_multiset_commutative(sorted@, rest@);
        assert(sorted@ + rest@ =~= orig);
        assert(orig.skip(0) =~= orig);
        assert(orig.take(0) =~= Seq::<StrategyComparisonSummary>::empty());
    }
    while rest.len() > 0
        invariant
            0 <= done <= orig.len(),
            rest@ == orig.skip(done),
            sorted@ == stable_ranked(mode, orig.take(done)),
            sorted@.len() == done,
            sorted@.to_multiset().add(rest@.to_multiset()) == orig.to_multiset(),
            ranked(mode, sorted@),
            forall|k: int| 0 <= k < sorted@.len() ==> scales_ok(#[trigger] sorted@[k]),
        decreases rest@.len(),
    {
        let ghost before_rest = rest@;
        let x = rest.remove(0);
        proof {
            before_rest.remove_ensures(0);
            assert(before_rest =~= seq![x] + rest@);
            vstd::seq_lib::lemma_multiset_commutative(seq![x], rest@);
            seq![x].to_multiset_ensures();
            Seq::<StrategyComparisonSummary>::empty().to_multiset_ensures();
            assert(seq![x] =~= Seq::<StrategyComparisonSummary>::empty().push(x));
        }
        let _ = x.realized_pnl.scale();
        let _ = opt_key(&x.avg_backtest_pnl_pct);
        let mut pos: usize = 0;
        proof {
            assert(sorted@.skip(0) =~= sorted@);
        }
        while pos < sorted.len() && !ranks_before_exec(mode, &x, &sorted[pos])
            invariant
                pos <= sorted@.len(),
                forall|k: int| 0 <= k < pos ==> !ranks_before(mode, x, #[trigger] sorted@[k]),
                not_before_prefix_len(mode, sorted@, x) == pos + not_before_prefix_len(
                    mode,
                    sorted@.skip(pos as int),
                    x,
                ),
            decreases sorted@.len() - pos,
        {
            proof {
                assert(sorted@.skip(pos as int).drop_first() =~= sorted@.skip(pos as int + 1));
            }
            pos = pos + 1;
        }
        proof {
            if pos < sorted@.len() {
                assert(sorted@.skip(pos as int)[0] == sorted@[pos as int]);
            }
            assert(not_before_prefix_len(mode, sorted@, x) == pos);
            assert(x == orig[done]);
            assert(orig.take(done + 1).drop_last() =~= orig.take(done));
            assert(orig.take(done + 1).last() == x);
        }
        let ghost old_sorted = sorted@;
        sorted.insert(pos, x);
        proof {
            assert(sorted@ == stable_ranked(mode, orig.take(done + 1)));
            assert(rest@ =~= orig.skip(done + 1));
            done = done + 1;
            old_sorted.insert_ensures(pos as int, x);
            lemma_insert_to_multiset(old_sorted, pos as int, x);
            assert forall|i: int, j: int| 0 <= i < j < sorted@.len() implies !ranks_before(mode, #[trigger] sorted@[j], #[trigger] sorted@[i]) by {
                if j < pos {
                    assert(sorted@[i] == old_sorted[i] && sorted@[j] == old_sorted[j]);
                } else if j == pos {
                    assert(sorted@[i] == old_sorted[i]);
                } else if i < pos {
                    assert(sorted@[i] == old_sorted[i] && sorted@[j] == old_sorted[j - 1]);
                } else if i == pos {
                    assert(sorted@[j] == old_sorted[j - 1]);
                    let p = old_sorted[pos as int];
                    let y = old_sorted[j - 1];
                    lemma_ranks_before_order(mode, x, p, y);
                    lemma_ranks_before_order(mode, y, x, p);
                    lemma_ranks_before_order(mode, p, y, x);
                    if j - 1 > pos {
                        assert(!ranks_before(mode, y, p));
                    }
                } else {
                    assert(sorted@[i] == old_sorted[i - 1] && sorted@[j] == old_sorted[j - 1]);
                }
            }
            assert forall|i: int, j: int| 0 <= i < j < sorted@.len() && i < pos && j > pos implies !ranks_before(mode, #[trigger] sorted@[j], #[trigger] sorted@[i]) by {
                assert(sorted@[i] == old_sorted[i] && sorted@[j] == old_sorted[j - 1]);
            }
        }
    }
    proof {
        assert(rest@ =~= Seq::<StrategyComparisonSummary>::empty());
        Seq::<StrategyComparisonSummary>::empty().to_multiset_ensures();
        assert(done == orig.len());
        assert(orig.take(done) =~= orig);
    }
    let ghost all = sorted@;
    sorted.truncate(limit);
    proof {
        assert(sorted@ =~= all.take(if limit < all.len() { limit as int } else { all.len() as int }));
        assert forall|i: int, j: int| 0 <= i < j < sorted@.len() implies {
            &&& (mode is Paper || mode is Combined) ==> !value_lt(
                (#[trigger] sorted@[i]).realized_pnl@,
                (#[trigger] sorted@[j]).realized_pnl@,
            )
            &&& mode is Combined && value_eq(sorted@[i].realized_pnl@, sorted@[j].realized_pnl@)
                ==> sorted@[i].shadow_would_submit_count >= sorted@[j].shadow_would_submit_count
            &&& mode is Shadow ==> sorted@[i].shadow_would_submit_count >= sorted@[j].shadow_would_submit_count
            &&& mode is Shadow && sorted@[i].shadow_would_submit_count == sorted@[j].shadow_would_submit_count
                ==> sorted@[i].rejected_risk_decisions >= sorted@[j].rejected_risk_decisions
            &&& mode is Backtest ==> !value_lt(backtest_key(sorted@[i]), backtest_key(sorted@[j]))
        } by {
            assert(sorted@[i] == all[i] && sorted@[j] == all[j]);
            law_ranking_order(mode, all, i, j);
        }
    }
    sorted
}


/// The state that risk checks read.
#[derive(Debug)]
pub struct RiskStateSnapshot {
    pub kill_switch_enabled: bool,
    pub kill_switch_reason: Option<String>,
    pub open_positions_count: Option<u32>,
    pub daily_loss_pct: Option<Dec>,
    pub weekly_loss_pct: Option<Dec>,
    pub consecutive_losses: Option<u32>,
    pub latest_market_data_at: Option<Timestamp>,
    pub last_trade_at: Option<Timestamp>,
}

/// How many of the latest results (latest first) are losses before the first that is not.
pub open spec fn losing_streak(pnls: Seq<Dec>) -> nat
    decreases pnls.len(),
{
    if pnls.len() == 0 || pnls[0]@.0 >= 0 {
        0
    } else {
        1 + losing_streak(pnls.drop_first())
    }
}

/// The number of consecutive losses at the head of the results (latest first).
pub fn consecutive_losses(recent_pnls: &Vec<Dec>) -> (n: usize)
    ensures
        n == losing_streak(recent_pnls@),
{
    let mut n: usize = 0;
    proof {
        assert(recent_pnls@.skip(0) =~= recent_pnls@);
    }
    while n < recent_pnls.len() && recent_pnls[n].is_negative()
        invariant
            n <= recent_pnls@.len(),
            losing_streak(recent_pnls@) == n + losing_streak(recent_pnls@.skip(n as int)),
        decreases recent_pnls@.len() - n,
    {
        proof {
            assert(recent_pnls@.skip(n as int).drop_first() =~= recent_pnls@.skip(n as int + 1));
        }
        n = n + 1;
    }
    n
}

/// The loss in percent of the equity, `(loss / equity) * 100` as `rust_decimal`
/// computes it: absent without both figures or without positive equity; `None` on
/// overflow.
pub open spec fn loss_pct_of(loss: Option<(int, int)>, equity: Option<(int, int)>) -> Option<Option<(int, int)>> {
    match (loss, equity) {
        (Some(l), Some(e)) => if e.0 > 0 {
            match crate::decimal::decimal_checked_div(l, e) {
                Some(q) => match crate::decimal::decimal_checked_mul(q, (100int, 0int)) {
                    Some(p) => Some(Some(p)),
                    None => None,
                },
                None => None,
            }
        } else {
            Some(None)
        },
        _ => Some(None),
    }
}

/// The loss in percent of the equity.
pub fn loss_pct(loss: Option<Dec>, equity: Option<Dec>) -> (r: Result<Option<Dec>, DecimalOverflow>)
    ensures
        crate::stats::outcome(r) == loss_pct_of(opt_parts(loss), opt_parts(equity)),
{
    match (loss, equity) {
        (Some(l), Some(e)) => if e.is_positive() {
            match l.checked_div(&e) {
                Some(q) => match q.checked_mul(&Dec::from_int(100)) {
                    Some(p) => Ok(Some(p)),
                    None => Err(DecimalOverflow),
                },
                None => Err(DecimalOverflow),
            }
        } else {
            Ok(None)
        },
        _ => Ok(None),
    }
}

/// The risk state from what was read: the kill switch, the open positions (when the count
/// fits), the daily and weekly loss in percent of the current equity, the losing streak
/// of the recent results (latest first) and the latest market data and trade times.
pub fn build_risk_state_snapshot(
    kill_switch_enabled: bool,
    kill_switch_reason: Option<String>,
    open_positions: Option<i64>,
    current_equity: Option<Dec>,
    daily_realized_loss: Option<Dec>,
    weekly_realized_loss: Option<Dec>,
    recent_pnls: &Vec<Dec>,
    latest_market_data_at: Option<Timestamp>,
    last_trade_at: Option<Timestamp>,
) -> (r: Result<RiskStateSnapshot, DecimalOverflow>)
    ensures
        (r is Err) <==> (loss_pct_of(opt_parts(daily_realized_loss), opt_parts(current_equity)) is None
            || loss_pct_of(opt_parts(weekly_realized_loss), opt_parts(current_equity)) is None),
        r is Ok ==> ({
            let s = r->Ok_0;
            &&& s.kill_switch_enabled == kill_switch_enabled
            &&& s.kill_switch_reason == kill_switch_reason
            &&& s.open_positions_count == (match open_positions {
                Some(c) => if 0 <= c <= u32::MAX { Some(c as u32) } else { None },
                None => None,
            })
            &&& Some(opt_parts(s.daily_loss_pct)) == loss_pct_of(opt_parts(daily_realized_loss), opt_parts(current_equity))
            &&& Some(opt_parts(s.weekly_loss_pct)) == loss_pct_of(opt_parts(weekly_realized_loss), opt_parts(current_equity))
            &&& s.consecutive_losses == if losing_streak(recent_pnls@) <= u32::MAX { Some(losing_streak(recent_pnls@) as u32) } else { None }
            &&& s.latest_market_data_at == latest_market_data_at
            &&& s.last_trade_at == last_trade_at
        }),
{
    let open_positions_count = match open_positions {
        Some(c) => if 0 <= c && c <= u32::MAX as i64 {
            Some(c as u32)
        } else {
            None
        },
        None => None,
    };
    let daily_loss_pct = loss_pct(daily_realized_loss, current_equity)?;
    let weekly_loss_pct = loss_pct(weekly_realized_loss, current_equity)?;
    let streak = consecutive_losses(recent_pnls);
    let consecutive = if streak <= u32::MAX as usize {
        Some(streak as u32)
    } else {
        None
    };
    Ok(
        RiskStateSnapshot {
            kill_switch_enabled,
            kill_switch_reason,
            open_positions_count,
            daily_loss_pct,
            weekly_loss_pct,
            consecutive_losses: consecutive,
            latest_market_data_at,
            last_trade_at,
        },
    )
}

} // verus!
