//! Candles: de-duplication of a batch before an upsert, and the decision of
//! which candles to insert, update or leave alone.
use crate::decimal::{opt_parts, value_eq, Dec};
use crate::text::str_eq;
use crate::timestamp::{lemma_timestamp_view_injective, ts_lt, Timestamp};
use uuid::Uuid;
use vstd::prelude::*;

verus! {

/// One OHLCV candle of a market.
#[derive(Debug)]
pub struct Candle {
    pub id: Uuid,
    pub exchange: String,
    pub symbol: String,
    pub interval: String,
    pub open_time: Timestamp,
    pub close_time: Timestamp,
    pub open: Dec,
    pub high: Dec,
    pub low: Dec,
    pub close: Dec,
    pub volume: Dec,
    pub quote_volume: Option<Dec>,
    pub trade_count: i32,
    pub is_closed: bool,
    pub created_at: Timestamp,
    pub updated_at: Timestamp,
}

impl Clone for Candle {
    fn clone(&self) -> (r: Self)
        ensures
            r == *self,
    {
        Candle {
            id: self.id,
            exchange: self.exchange.clone(),
            symbol: self.symbol.clone(),
            interval: self.interval.clone(),
            open_time: self.open_time,
            close_time: self.close_time,
            open: self.open,
            high: self.high,
            low: self.low,
            close: self.close,
            volume: self.volume,
            quote_volume: self.quote_volume,
            trade_count: self.trade_count,
            is_closed: self.is_closed,
            created_at: self.created_at,
            updated_at: self.updated_at,
        }
    }
}

/// A stored candle.
#[derive(Debug)]
pub struct CandleRecord {
    pub id: Uuid,
    pub exchange: String,
    pub symbol: String,
    pub interval: String,
    pub open_time: Timestamp,
    pub close_time: Timestamp,
    pub open: Dec,
    pub high: Dec,
    pub low: Dec,
    pub close: Dec,
    pub volume: Dec,
    pub quote_volume: Option<Dec>,
    pub trade_count: i32,
    pub is_closed: bool,
    pub created_at: Timestamp,
    pub updated_at: Timestamp,
}

/// What an upsert of a batch of candles did.
#[derive(Clone, Copy, Debug, PartialEq, Eq, Structural)]
pub struct CandleUpsertBatchResult {
    pub inserted_candles: i32,
    pub updated_candles: i32,
    pub skipped_candles: i32,
}

impl Default for CandleUpsertBatchResult {
    fn default() -> (r: Self)
        ensures
            r.inserted_candles == 0 && r.updated_candles == 0 && r.skipped_candles == 0,
    {
        CandleUpsertBatchResult { inserted_candles: 0, updated_candles: 0, skipped_candles: 0 }
    }
}

/// The latest candle of each open time, inserting the batch in order.
pub open spec fn latest_by_open_time(s: Seq<Candle>) -> Map<Timestamp, Candle>
    decreases s.len(),
{
    if s.len() == 0 {
        Map::empty()
    } else {
        latest_by_open_time(s.drop_last()).insert(s.last().open_time, s.last())
    }
}

/// The candles are in strictly increasing order of open time.
pub open spec fn strictly_by_open_time(s: Seq<Candle>) -> bool {
    forall|a: int, b: int| 0 <= a < b < s.len() ==> ts_lt((#[trigger] s[a]).open_time, (#[trigger] s[b]).open_time)
}

/// The candles, keyed by open time.
pub open spec fn keyed(s: Seq<Candle>) -> Map<Timestamp, Candle> {
    Map::new(
        |t: Timestamp| exists|k: int| 0 <= k < s.len() && (#[trigger] s[k]).open_time == t,
        |t: Timestamp| s[choose|k: int| 0 <= k < s.len() && (#[trigger] s[k]).open_time == t],
    )
}

proof fn lemma_keyed_insert_new(s: Seq<Candle>, pos: int, c: Candle)
    requires
        strictly_by_open_time(s),
        0 <= pos <= s.len(),
        !keyed(s).contains_key(c.open_time),
    ensures
        keyed(s.insert(pos, c)) =~= keyed(s).insert(c.open_time, c),
{
    s.insert_ensures(pos, c);
    let n = s.insert(pos, c);
    assert forall|t: Timestamp| #[trigger] keyed(n).contains_key(t) == keyed(s).insert(c.open_time, c).contains_key(t) by {
        if keyed(s).contains_key(t) {
            let j = choose|j: int| 0 <= j < s.len() && (#[trigger] s[j]).open_time == t;
            if j < pos {
                assert(n[j] == s[j]);
            } else {
                assert(n[j + 1] == s[j]);
            }
        }
        if t == c.open_time {
            assert(n[pos] == c);
        }
        if keyed(n).contains_key(t) {
            let j = choose|j: int| 0 <= j < n.len() && (#[trigger] n[j]).open_time == t;
            if j < pos {
                assert(s[j] == n[j]);
            } else if j > pos {
                assert(s[j - 1] == n[j]);
            }
        }
    }
    assert forall|t: Timestamp| #[trigger] keyed(n).contains_key(t) implies keyed(n)[t] == keyed(s).insert(c.open_time, c)[t] by {
        let j = choose|j: int| 0 <= j < n.len() && (#[trigger] n[j]).open_time == t;
        if t == c.open_time {
            if j != pos {
                if j < pos {
                    assert(s[j] == n[j]);
                } else {
                    assert(s[j - 1] == n[j]);
                }
                assert(keyed(s).contains_key(t));
            }
        } else {
            if j < pos {
                assert(s[j] == n[j]);
                let j2 = choose|j2: int| 0 <= j2 < s.len() && (#[trigger] s[j2]).open_time == t;
                if j2 != j {
                    assert(s[j2].open_time != s[j].open_time);
                }
            } else {
                assert(j > pos);
                assert(s[j - 1] == n[j]);
                let j2 = choose|j2: int| 0 <= j2 < s.len() && (#[trigger] s[j2]).open_time == t;
                if j2 != j - 1 {
                    assert(s[j2].open_time != s[j - 1].open_time);
                }
            }
        }
    }
}

proof fn lemma_keyed_replace(s: Seq<Candle>, pos: int, c: Candle)
    requires
        strictly_by_open_time(s),
        0 <= pos < s.len(),
        s[pos].open_time == c.open_time,
    ensures
        keyed(s.update(pos, c)) =~= keyed(s).insert(c.open_time, c),
{
    let n = s.update(pos, c);
    assert forall|t: Timestamp| #[trigger] keyed(n).contains_key(t) == keyed(s).insert(c.open_time, c).contains_key(t) by {
        if keyed(s).contains_key(t) {
            let j = choose|j: int| 0 <= j < s.len() && (#[trigger] s[j]).open_time == t;
            assert(n[j].open_time == t);
        }
        if t == c.open_time {
            assert(n[pos] == c);
        }
        if keyed(n).contains_key(t) {
            let j = choose|j: int| 0 <= j < n.len() && (#[trigger] n[j]).open_time == t;
            assert(s[j].open_time == t);
        }
    }
    assert forall|t: Timestamp| #[trigger] keyed(n).contains_key(t) implies keyed(n)[t] == keyed(s).insert(c.open_time, c)[t] by {
        let j = choose|j: int| 0 <= j < n.len() && (#[trigger] n[j]).open_time == t;
        if t == c.open_time {
            if j != pos {
                assert(s[j].open_time == s[pos].open_time);
            }
        } else {
            assert(j != pos);
            let j2 = choose|j2: int| 0 <= j2 < s.len() && (#[trigger] s[j2]).open_time == t;
            if j2 != j {
                assert(s[j2].open_time != s[j].open_time);
            }
        }
    }
}

/// The batch without repeated open times: for each open time the last candle of the
/// batch with it, in increasing order of open time.
pub fn dedupe_candles_for_upsert(candles: &[Candle]) -> (r: Vec<Candle>)
    ensures
        strictly_by_open_time(r@),
        keyed(r@) == latest_by_open_time(candles@),
{
    let mut out: Vec<Candle> = Vec::new();
    let mut i: usize = 0;
    proof {
        assert(keyed(out@) =~= Map::<Timestamp, Candle>::empty());
        assert(candles@.take(0) =~= Seq::<Candle>::empty());
    }
    while i < candles.len()
        invariant
            i <= candles@.len(),
            strictly_by_open_time(out@),
            keyed(out@) == latest_by_open_time(candles@.take(i as int)),
        decreases candles@.len() - i,
    {
        let c = candles[i].clone();
        proof {
            assert(candles@.take(i as int + 1).drop_last() =~= candles@.take(i as int));
            assert(candles@.take(i as int + 1).last() == c);
        }
        let t = c.open_time;
        let mut pos: usize = 0;
        while pos < out.len() && out[pos].open_time.before(&t)
            invariant
                pos <= out@.len(),
                forall|k: int| 0 <= k < pos ==> ts_lt((#[trigger] out@[k]).open_time, t),
            decreases out@.len() - pos,
        {
            pos = pos + 1;
        }
        let ghost old_out = out@;
        if pos < out.len() && out[pos].open_time == t {
            proof {
                lemma_keyed_replace(old_out, pos as int, c);
            }
            out.set(pos, c);
            proof {
                assert forall|a: int, b: int| 0 <= a < b < out@.len() implies ts_lt((#[trigger] out@[a]).open_time, (#[trigger] out@[b]).open_time) by {
                    assert(ts_lt(old_out[a].open_time, old_out[b].open_time));
                }
            }
        } else {
            proof {
                if pos < old_out.len() {
                    lemma_timestamp_view_injective(old_out[pos as int].open_time, t);
                }
                assert(!keyed(old_out).contains_key(t)) by {
                    if keyed(old_out).contains_key(t) {
                        let j = choose|j: int| 0 <= j < old_out.len() && (#[trigger] old_out[j]).open_time == t;
                        if j >= pos {
                            if j > pos {
                                assert(ts_lt(old_out[pos as int].open_time, old_out[j].open_time));
                            }
                        }
                    }
                }
                lemma_keyed_insert_new(old_out, pos as int, c);
                old_out.insert_ensures(pos as int, c);
            }
            out.insert(pos, c);
            proof {
                assert forall|a: int, b: int| 0 <= a < b < out@.len() implies ts_lt((#[trigger] out@[a]).open_time, (#[trigger] out@[b]).open_time) by {
                    if b < pos {
                        assert(out@[a] == old_out[a] && out@[b] == old_out[b]);
                    } else if b == pos {
                        assert(out@[a] == old_out[a]);
                    } else if a < pos {
                        assert(out@[a] == old_out[a] && out@[b] == old_out[b - 1]);
                        assert(ts_lt(t, old_out[pos as int].open_time));
                        if b - 1 > pos {
                            assert(ts_lt(old_out[pos as int].open_time, old_out[b - 1].open_time));
                        }
                    } else if a == pos {
                        assert(out@[b] == old_out[b - 1]);
                        if b - 1 > pos {
                            assert(ts_lt(old_out[pos as int].open_time, old_out[b - 1].open_time));
                        }
                    } else {
                        assert(out@[a] == old_out[a - 1] && out@[b] == old_out[b - 1]);
                    }
                }
            }
        }
        i = i + 1;
    }
    proof {
        assert(candles@.take(candles@.len() as int) =~= candles@);
    }
    out
}

/// Two optional decimals are both absent or denote the same number.
pub open spec fn opt_value_eq(a: Option<Dec>, b: Option<Dec>) -> bool {
    match (a, b) {
        (Some(x), Some(y)) => value_eq(x@, y@),
        (None, None) => true,
        _ => false,
    }
}

/// The candle carries the same data as the stored record.
pub open spec fn candle_matches(c: Candle, r: CandleRecord) -> bool {
    &&& c.exchange@ == r.exchange@
    &&& c.symbol@ == r.symbol@
    &&& c.interval@ == r.interval@
    &&& c.open_time == r.open_time
    &&& c.close_time == r.close_time
    &&& value_eq(c.open@, r.open@)
    &&& value_eq(c.high@, r.high@)
    &&& value_eq(c.low@, r.low@)
    &&& value_eq(c.close@, r.close@)
    &&& value_eq(c.volume@, r.volume@)
    &&& opt_value_eq(c.quote_volume, r.quote_volume)
    &&& c.trade_count == r.trade_count
    &&& c.is_closed == r.is_closed
}

fn opt_dec_eq(a: &Option<Dec>, b: &Option<Dec>) -> (r: bool)
    ensures
        r == opt_value_eq(*a, *b),
{
    match (a, b) {
        (Some(x), Some(y)) => *x == *y,
        (None, None) => true,
        _ => false,
    }
}

/// Whether the candle carries the same data as the stored record (decimals compared by
/// value).
pub fn candle_matches_record(candle: &Candle, record: &CandleRecord) -> (b: bool)
    ensures
        b == candle_matches(*candle, *record),
{
    str_eq(candle.exchange.as_str(), record.exchange.as_str())
        && str_eq(candle.symbol.as_str(), record.symbol.as_str())
        && str_eq(candle.interval.as_str(), record.interval.as_str())
        && candle.open_time == record.open_time
        && candle.close_time == record.close_time
        && candle.open == record.open
        && candle.high == record.high
        && candle.low == record.low
        && candle.close == record.close
        && candle.volume == record.volume
        && opt_dec_eq(&candle.quote_volume, &record.quote_volume)
        && candle.trade_count == record.trade_count
        && candle.is_closed == record.is_closed
}

/// What to do with one candle of a batch.
#[derive(Clone, Copy, Debug, PartialEq, Eq, Structural)]
pub enum CandleUpsertAction {
    /// No stored candle has its open time.
    Insert,
    /// The stored candle differs.
    Update,
    /// The stored candle is the same.
    Skip,
}

/// The stored records by open time, a later record replacing an earlier one.
pub open spec fn records_by_open_time(s: Seq<CandleRecord>) -> Map<Timestamp, CandleRecord>
    decreases s.len(),
{
    if s.len() == 0 {
        Map::empty()
    } else {
        records_by_open_time(s.drop_last()).insert(s.last().open_time, s.last())
    }
}

/// The action for a candle given the stored records.
pub open spec fn action_for(c: Candle, stored: Map<Timestamp, CandleRecord>) -> CandleUpsertAction {
    if !stored.contains_key(c.open_time) {
        CandleUpsertAction::Insert
    } else if candle_matches(c, stored[c.open_time]) {
        CandleUpsertAction::Skip
    } else {
        CandleUpsertAction::Update
    }
}

/// A candle is inserted exactly when no stored candle has its open time, and skipped
/// exactly when the stored candle carries the same data: the same exchange, symbol,
/// interval and times, the same prices, volume and quote volume by value, the same trade
/// count and closed flag. Any difference, in the volume as anywhere else, makes it an
/// update.
pub proof fn law_candle_skipped_only_when_unchanged(c: Candle, stored: Map<Timestamp, CandleRecord>)
    ensures
        action_for(c, stored) == CandleUpsertAction::Insert <==> !stored.contains_key(c.open_time),
        action_for(c, stored) == CandleUpsertAction::Skip <==> {
            let r = stored[c.open_time];
            &&& stored.contains_key(c.open_time)
            &&& c.exchange@ == r.exchange@ && c.symbol@ == r.symbol@ && c.interval@ == r.interval@
            &&& c.open_time == r.open_time && c.close_time == r.close_time
            &&& value_eq(c.open@, r.open@) && value_eq(c.high@, r.high@)
            &&& value_eq(c.low@, r.low@) && value_eq(c.close@, r.close@)
            &&& value_eq(c.volume@, r.volume@)
            &&& match (c.quote_volume, r.quote_volume) {
                (Some(x), Some(y)) => value_eq(x@, y@),
                (None, None) => true,
                _ => false,
            }
            &&& c.trade_count == r.trade_count && c.is_closed == r.is_closed
        },
        stored.contains_key(c.open_time) && !value_eq(c.volume@, stored[c.open_time].volume@)
            ==> action_for(c, stored) == CandleUpsertAction::Update,
{
}

/// How many of the actions are `a`.
pub open spec fn count_actions(s: Seq<CandleUpsertAction>, a: CandleUpsertAction) -> nat
    decreases s.len(),
{
    if s.len() == 0 {
        0
    } else {
        count_actions(s.drop_last(), a) + if s.last() == a {
            1nat
        } else {
            0nat
        }
    }
}

proof fn lemma_count_actions_bound(s: Seq<CandleUpsertAction>, a: CandleUpsertAction)
    ensures
        count_actions(s, a) <= s.len(),
    decreases s.len(),
{
    if s.len() > 0 {
        lemma_count_actions_bound(s.drop_last(), a);
    }
}

proof fn lemma_last_record_wins(s: Seq<CandleRecord>, t: Timestamp, k: int)
    requires
        0 <= k < s.len(),
        s[k].open_time == t,
        forall|j: int| k < j < s.len() ==> (#[trigger] s[j]).open_time != t,
    ensures
        records_by_open_time(s).contains_key(t),
        records_by_open_time(s)[t] == s[k],
    decreases s.len(),
{
    if k < s.len() - 1 {
        lemma_last_record_wins(s.drop_last(), t, k);
    }
}

proof fn lemma_no_record(s: Seq<CandleRecord>, t: Timestamp)
    requires
        forall|j: int| 0 <= j < s.len() ==> (#[trigger] s[j]).open_time != t,
    ensures
        !records_by_open_time(s).contains_key(t),
    decreases s.len(),
{
    if s.len() > 0 {
        lemma_no_record(s.drop_last(), t);
    }
}

proof fn lemma_count_actions_sum(s: Seq<CandleUpsertAction>)
    ensures
        count_actions(s, CandleUpsertAction::Insert) + count_actions(s, CandleUpsertAction::Update)
            + count_actions(s, CandleUpsertAction::Skip) == s.len(),
    decreases s.len(),
{
    if s.len() > 0 {
        lemma_count_actions_sum(s.drop_last());
    }
}

proof fn lemma_count_actions_all(s: Seq<CandleUpsertAction>, a: CandleUpsertAction)
    requires
        forall|k: int| 0 <= k < s.len() ==> s[k] == a,
    ensures
        count_actions(s, a) == s.len(),
    decreases s.len(),
{
    if s.len() > 0 {
        lemma_count_actions_all(s.drop_last(), a);
    }
}

fn find_record(existing: &Vec<CandleRecord>, t: Timestamp) -> (r: Option<usize>)
    ensures
        match r {
            Some(k) => k < existing@.len() && records_by_open_time(existing@).contains_key(t)
                && records_by_open_time(existing@)[t] == existing@[k as int],
            None => !records_by_open_time(existing@).contains_key(t),
        },
{
    let mut j: usize = existing.len();
    while j > 0
        invariant
            j <= existing@.len(),
            forall|x: int| j <= x < existing@.len() ==> (#[trigger] existing@[x]).open_time != t,
        decreases j,
    {
        if existing[j - 1].open_time == t {
            proof {
                lemma_last_record_wins(existing@, t, j as int - 1);
            }
            return Some(j - 1);
        }
        j = j - 1;
    }
    proof {
        lemma_no_record(existing@, t);
    }
    None
}

/// What to do with each candle of a de-duplicated batch, given the stored candles of
/// those open times, and the counts of inserts, updates and skips.
pub fn plan_candle_upsert(deduped: &Vec<Candle>, existing: &Vec<CandleRecord>) -> (r: (
    Vec<CandleUpsertAction>,
    CandleUpsertBatchResult,
))
    requires
        deduped@.len() <= i32::MAX,
    ensures
        r.0@.len() == deduped@.len(),
        forall|k: int| 0 <= k < deduped@.len() ==> #[trigger] r.0@[k] == action_for(deduped@[k], records_by_open_time(existing@)),
        r.1.inserted_candles == count_actions(r.0@, CandleUpsertAction::Insert),
        r.1.updated_candles == count_actions(r.0@, CandleUpsertAction::Update),
        r.1.skipped_candles == count_actions(r.0@, CandleUpsertAction::Skip),
        r.1.inserted_candles + r.1.updated_candles + r.1.skipped_candles == deduped@.len(),
{
    let ghost stored = records_by_open_time(existing@);
    let mut actions: Vec<CandleUpsertAction> = Vec::new();
    let mut outcome = CandleUpsertBatchResult { inserted_candles: 0, updated_candles: 0, skipped_candles: 0 };
    let mut i: usize = 0;
    while i < deduped.len()
        invariant
            i <= deduped@.len(),
            deduped@.len() <= i32::MAX,
            stored == records_by_open_time(existing@),
            actions@.len() == i,
            forall|k: int| 0 <= k < i ==> #[trigger] actions@[k] == action_for(deduped@[k], stored),
            outcome.inserted_candles == count_actions(actions@, CandleUpsertAction::Insert),
            outcome.updated_candles == count_actions(actions@, CandleUpsertAction::Update),
            outcome.skipped_candles == count_actions(actions@, CandleUpsertAction::Skip),
        decreases deduped@.len() - i,
    {
        let candle = &deduped[i];
        proof {
            lemma_count_actions_bound(actions@, CandleUpsertAction::Insert);
            lemma_count_actions_bound(actions@, CandleUpsertAction::Update);
            lemma_count_actions_bound(actions@, CandleUpsertAction::Skip);
        }
        let ghost before = actions@;
        let action = match find_record(existing, candle.open_time) {
            None => {
                outcome.inserted_candles = outcome.inserted_candles + 1;
                CandleUpsertAction::Insert
            },
            Some(k) => if candle_matches_record(candle, &existing[k]) {
                outcome.skipped_candles = outcome.skipped_candles + 1;
                CandleUpsertAction::Skip
            } else {
                outcome.updated_candles = outcome.updated_candles + 1;
                CandleUpsertAction::Update
            },
        };
        actions.push(action);
        proof {
            assert(actions@.drop_last() =~= before);
        }
        i = i + 1;
    }
    proof {
        lemma_count_actions_sum(actions@);
    }
    (actions, outcome)
}

/// De-duplication keeps exactly one candle per open time, and that candle is the last
/// one of the batch with its open time.
pub proof fn law_dedupe_keeps_one_per_open_time(out: Seq<Candle>, batch: Seq<Candle>)
    requires
        strictly_by_open_time(out),
        keyed(out) == latest_by_open_time(batch),
    ensures
        forall|k: int| 0 <= k < out.len() ==> latest_by_open_time(batch).contains_key((#[trigger] out[k]).open_time)
            && latest_by_open_time(batch)[out[k].open_time] == out[k],
        forall|a: int, b: int| 0 <= a < b < out.len() ==> (#[trigger] out[a]).open_time != (#[trigger] out[b]).open_time,
{
    assert forall|k: int| 0 <= k < out.len() implies latest_by_open_time(batch).contains_key((#[trigger] out[k]).open_time)
        && latest_by_open_time(batch)[out[k].open_time] == out[k] by {
        let t = out[k].open_time;
        assert(keyed(out).contains_key(t));
        let j = choose|j: int| 0 <= j < out.len() && (#[trigger] out[j]).open_time == t;
        if j != k {
            if j < k {
                assert(ts_lt(out[j].open_time, out[k].open_time));
            } else {
                assert(ts_lt(out[k].open_time, out[j].open_time));
            }
        }
    }
}

/// A batch that is already de-duplicated (strictly ordered by open time) is its own
/// de-duplication: for every open time the latest candle is the one it holds.
pub proof fn law_dedupe_is_idempotent(batch: Seq<Candle>)
    requires
        strictly_by_open_time(batch),
    ensures
        latest_by_open_time(batch) == keyed(batch),
    decreases batch.len(),
{
    if batch.len() == 0 {
        assert(keyed(batch) =~= Map::<Timestamp, Candle>::empty());
    } else {
        let init = batch.drop_last();
        let c = batch.last();
        assert(strictly_by_open_time(init)) by {
            assert forall|a: int, b: int| 0 <= a < b < init.len() implies ts_lt((#[trigger] init[a]).open_time,
                (#[trigger] init[b]).open_time) by {
                assert(init[a] == batch[a] && init[b] == batch[b]);
            }
        }
        law_dedupe_is_idempotent(init);
        assert(!keyed(init).contains_key(c.open_time)) by {
            if keyed(init).contains_key(c.open_time) {
                let j = choose|j: int| 0 <= j < init.len() && (#[trigger] init[j]).open_time
                    == c.open_time;
                assert(ts_lt(batch[j].open_time, batch[batch.len() - 1].open_time));
            }
        }
        lemma_keyed_insert_new(init, init.len() as int, c);
        assert(init.insert(init.len() as int, c) =~= batch);
    }
}

/// The actions for a batch of candles given the stored records.
pub open spec fn actions_for(deduped: Seq<Candle>, stored: Map<Timestamp, CandleRecord>) -> Seq<CandleUpsertAction> {
    Seq::new(deduped.len(), |k: int| action_for(deduped[k], stored))
}

/// Upserting a batch again, when every candle is stored unchanged under its open time,
/// skips every candle: nothing is inserted or updated and the skips count the batch.
pub proof fn law_repeated_upsert_skips_all(deduped: Seq<Candle>, existing: Seq<CandleRecord>)
    requires
        forall|k: int|
            0 <= k < deduped.len() ==> records_by_open_time(existing).contains_key(
                (#[trigger] deduped[k]).open_time,
            ) && candle_matches(deduped[k], records_by_open_time(existing)[deduped[k].open_time]),
    ensures
        forall|k: int|
            0 <= k < deduped.len() ==> #[trigger] actions_for(deduped, records_by_open_time(existing))[k]
                == CandleUpsertAction::Skip,
        count_actions(actions_for(deduped, records_by_open_time(existing)), CandleUpsertAction::Skip)
            == deduped.len(),
        count_actions(actions_for(deduped, records_by_open_time(existing)), CandleUpsertAction::Insert)
            == 0,
        count_actions(actions_for(deduped, records_by_open_time(existing)), CandleUpsertAction::Update)
            == 0,
{
    let acts = actions_for(deduped, records_by_open_time(existing));
    assert forall|k: int| 0 <= k < acts.len() implies acts[k] == CandleUpsertAction::Skip by {
        assert(deduped[k] == deduped[k]);
    }
    lemma_count_actions_all(acts, CandleUpsertAction::Skip);
    lemma_count_actions_sum(acts);
}

/// A strictly ordered sequence keys each open time to the candle at that time.
proof fn lemma_keyed_at(s: Seq<Candle>, k: int)
    requires
        strictly_by_open_time(s),
        0 <= k < s.len(),
    ensures
        keyed(s).contains_key(s[k].open_time),
        keyed(s)[s[k].open_time] == s[k],
{
    let t = s[k].open_time;
    assert(s[k].open_time == t);
    let j = choose|j: int| 0 <= j < s.len() && (#[trigger] s[j]).open_time == t;
    if j < k {
        assert(ts_lt(s[j].open_time, s[k].open_time));
    } else if j > k {
        assert(ts_lt(s[k].open_time, s[j].open_time));
    }
}

/// Two strictly ordered sequences that key the same candles to the same open times are
/// the same sequence.
proof fn lemma_keyed_determines(s: Seq<Candle>, t: Seq<Candle>)
    requires
        strictly_by_open_time(s),
        strictly_by_open_time(t),
        keyed(s) == keyed(t),
    ensures
        s == t,
    decreases s.len(),
{
    if s.len() == 0 {
        if t.len() > 0 {
            lemma_keyed_at(t, 0);
        }
        assert(s =~= t);
    } else {
        lemma_keyed_at(s, s.len() - 1);
        let a = s.last();
        assert(keyed(t).contains_key(a.open_time));
        assert(t.len() > 0);
        lemma_keyed_at(t, t.len() - 1);
        let b = t.last();
        assert(keyed(s).contains_key(b.open_time));
        let ja = choose|j: int| 0 <= j < t.len() && (#[trigger] t[j]).open_time == a.open_time;
        if ja < t.len() - 1 {
            assert(ts_lt(t[ja].open_time, t[t.len() - 1].open_time));
        }
        let jb = choose|j: int| 0 <= j < s.len() && (#[trigger] s[j]).open_time == b.open_time;
        if jb < s.len() - 1 {
            assert(ts_lt(s[jb].open_time, s[s.len() - 1].open_time));
        }
        assert(a.open_time == b.open_time);
        assert(a == b);
        let si = s.drop_last();
        let ti = t.drop_last();
        assert(strictly_by_open_time(si)) by {
            assert forall|x: int, y: int| 0 <= x < y < si.len() implies ts_lt((#[trigger] si[x]).open_time,
                (#[trigger] si[y]).open_time) by {
                assert(si[x] == s[x] && si[y] == s[y]);
            }
        }
        assert(strictly_by_open_time(ti)) by {
            assert forall|x: int, y: int| 0 <= x < y < ti.len() implies ts_lt((#[trigger] ti[x]).open_time,
                (#[trigger] ti[y]).open_time) by {
                assert(ti[x] == t[x] && ti[y] == t[y]);
            }
        }
        assert(!keyed(si).contains_key(a.open_time)) by {
            if keyed(si).contains_key(a.open_time) {
                let j = choose|j: int| 0 <= j < si.len() && (#[trigger] si[j]).open_time == a.open_time;
                assert(ts_lt(s[j].open_time, s[s.len() - 1].open_time));
            }
        }
        assert(!keyed(ti).contains_key(b.open_time)) by {
            if keyed(ti).contains_key(b.open_time) {
                let j = choose|j: int| 0 <= j < ti.len() && (#[trigger] ti[j]).open_time == b.open_time;
                assert(ts_lt(t[j].open_time, t[t.len() - 1].open_time));
            }
        }
        lemma_keyed_insert_new(si, si.len() as int, a);
        lemma_keyed_insert_new(ti, ti.len() as int, b);
        assert(si.insert(si.len() as int, a) =~= s);
        assert(ti.insert(ti.len() as int, b) =~= t);
        assert(keyed(si) =~= keyed(s).remove(a.open_time));
        assert(keyed(ti) =~= keyed(t).remove(b.open_time));
        lemma_keyed_determines(si, ti);
        assert(s =~= si.push(a));
        assert(t =~= ti.push(b));
    }
}

/// De-duplicating the output of a de-duplication gives the same sequence again.
pub proof fn law_dedupe_twice_is_dedupe_once(batch: Seq<Candle>, once: Seq<Candle>, twice: Seq<Candle>)
    requires
        strictly_by_open_time(once),
        keyed(once) == latest_by_open_time(batch),
        strictly_by_open_time(twice),
        keyed(twice) == latest_by_open_time(once),
    ensures
        twice == once,
{
    law_dedupe_is_idempotent(once);
    lemma_keyed_determines(twice, once);
}

} // verus!
