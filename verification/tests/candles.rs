use aegis_db::candles::{
    candle_matches_record, dedupe_candles_for_upsert, plan_candle_upsert, Candle, CandleRecord,
    CandleUpsertAction,
};
use aegis_db::decimal::Dec;
use aegis_db::timestamp::Timestamp;
use chrono::TimeZone;
use uuid::Uuid;

fn ts(micros: i64) -> Timestamp {
    Timestamp::new(micros.div_euclid(1_000_000), (micros.rem_euclid(1_000_000) * 1_000) as u32).unwrap()
}

fn micros_of(t: Timestamp) -> i64 {
    t.secs() * 1_000_000 + (t.subsec_nanos() / 1_000) as i64
}

const MICROS_PER_MINUTE: i64 = 60_000_000;

fn candle(open_minute: i64, close: i64) -> Candle {
    let start = chrono::Utc.with_ymd_and_hms(2026, 5, 1, 0, 0, 0).unwrap().timestamp_micros();
    let open_time = start + open_minute * MICROS_PER_MINUTE;
    Candle {
        id: Uuid::new_v4(),
        exchange: "binance".to_string(),
        symbol: "BTCUSDT".to_string(),
        interval: "1m".to_string(),
        open_time: ts(open_time),
        close_time: ts(open_time + MICROS_PER_MINUTE - 1_000),
        open: Dec::new(close - 1, 0),
        high: Dec::new(close + 1, 0),
        low: Dec::new(close - 2, 0),
        close: Dec::new(close, 0),
        volume: Dec::new(10, 0),
        quote_volume: Some(Dec::new(1_000, 0)),
        trade_count: 1,
        is_closed: true,
        created_at: ts(open_time),
        updated_at: ts(open_time),
    }
}

fn record_of(c: &Candle) -> CandleRecord {
    CandleRecord {
        id: c.id,
        exchange: c.exchange.clone(),
        symbol: c.symbol.clone(),
        interval: c.interval.clone(),
        open_time: c.open_time,
        close_time: c.close_time,
        open: c.open,
        high: c.high,
        low: c.low,
        close: c.close,
        volume: c.volume,
        quote_volume: c.quote_volume,
        trade_count: c.trade_count,
        is_closed: c.is_closed,
        created_at: c.created_at,
        updated_at: c.updated_at,
    }
}

#[test]
fn dedupe_candles_keeps_latest_entry_per_open_time() {
    let original = candle(0, 100);
    let replacement = candle(0, 105);
    let next = candle(1, 110);

    let deduped = dedupe_candles_for_upsert(&[original, replacement.clone(), next.clone()]);

    assert_eq!(deduped.len(), 2);
    assert_eq!(deduped[0].close, replacement.close);
    assert_eq!(deduped[1].close, next.close);
}

#[test]
fn dedupe_orders_by_open_time_and_keeps_last_of_each() {
    let late = candle(5, 150);
    let early = candle(2, 120);
    let early_again = candle(2, 121);
    let middle = candle(3, 130);
    let deduped = dedupe_candles_for_upsert(&[late, early, middle, early_again]);
    assert_eq!(deduped.len(), 3);
    assert_eq!(deduped[0].close, Dec::from_int(121));
    assert_eq!(deduped[1].close, Dec::from_int(130));
    assert_eq!(deduped[2].close, Dec::from_int(150));
    assert!(micros_of(deduped[0].open_time) < micros_of(deduped[1].open_time));
    assert!(micros_of(deduped[1].open_time) < micros_of(deduped[2].open_time));
}

#[test]
fn dedupe_of_empty_batch_is_empty() {
    assert!(dedupe_candles_for_upsert(&[]).is_empty());
}

#[test]
fn candle_matches_record_compares_decimals_by_value() {
    let c = candle(0, 100);
    let mut r = record_of(&c);
    r.close = Dec::new(10000, 2);
    assert!(candle_matches_record(&c, &r));
    r.close = Dec::new(10001, 2);
    assert!(!candle_matches_record(&c, &r));
    let mut r2 = record_of(&c);
    r2.quote_volume = None;
    assert!(!candle_matches_record(&c, &r2));
}

#[test]
fn plan_candle_upsert_inserts_updates_and_skips() {
    let same = candle(0, 100);
    let changed = candle(1, 110);
    let new = candle(2, 120);
    let mut stale = record_of(&changed);
    stale.close = Dec::from_int(109);
    let existing = vec![record_of(&same), stale];
    let (actions, result) = plan_candle_upsert(&vec![same, changed, new], &existing);
    assert_eq!(
        actions,
        vec![CandleUpsertAction::Skip, CandleUpsertAction::Update, CandleUpsertAction::Insert]
    );
    assert_eq!(result.inserted_candles, 1);
    assert_eq!(result.updated_candles, 1);
    assert_eq!(result.skipped_candles, 1);
    assert_eq!(result.inserted_candles + result.updated_candles + result.skipped_candles, 3);
}

#[test]
fn repeated_upsert_skips_every_candle() {
    let batch = dedupe_candles_for_upsert(&[candle(0, 100), candle(1, 101), candle(2, 102)]);
    let stored: Vec<CandleRecord> = batch.iter().map(record_of).collect();
    let (actions, result) = plan_candle_upsert(&batch, &stored);
    assert!(actions.iter().all(|a| *a == CandleUpsertAction::Skip));
    assert_eq!((result.inserted_candles, result.updated_candles, result.skipped_candles), (0, 0, 3));
}

#[test]
fn dedupe_of_a_deduplicated_batch_changes_nothing() {
    let once = dedupe_candles_for_upsert(&[candle(3, 130), candle(1, 110), candle(3, 131), candle(2, 120)]);
    let twice = dedupe_candles_for_upsert(&once);
    assert_eq!(once.len(), 3);
    assert_eq!(once.len(), twice.len());
    for (a, b) in once.iter().zip(twice.iter()) {
        assert_eq!(a.id, b.id);
        assert_eq!(a.open_time, b.open_time);
        assert_eq!(a.close, b.close);
    }
}
