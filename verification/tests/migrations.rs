use aegis_db::migrations::plan_baseline;
use aegis_db::migrations::{migration_run_outcome, AppliedMigration};
use aegis_db::migrations::{migration_files_from_entries, MigrationEntry};
use aegis_db::migrations::migration_file_name;
use aegis_db::migrations::{
    baseline_confirmation, baseline_report, check_baseline_schema, classify_baseline_files,
    finalize_migration_files, hex_encode, migration_status, parse_migration_version,
    plan_migration_run, select_baseline_files, sha256_hex, verify_checksum, MigrationError,
    MigrationFile, MigrationLedger, MigrationStep, SchemaMigrationRecord, SkippedMigration,
};
use aegis_db::timestamp::Timestamp;
use std::path::PathBuf;

fn ts(micros: i64) -> Timestamp {
    Timestamp::new(micros.div_euclid(1_000_000), (micros.rem_euclid(1_000_000) * 1_000) as u32).unwrap()
}

fn micros_of(t: Timestamp) -> i64 {
    t.secs() * 1_000_000 + (t.subsec_nanos() / 1_000) as i64
}

fn file(filename: &str, checksum: &str) -> MigrationFile {
    MigrationFile {
        version: parse_migration_version(filename).unwrap(),
        filename: filename.to_string(),
        checksum_sha256: checksum.to_string(),
        path: PathBuf::from(format!("migrations/{filename}")),
    }
}

fn record(version: &str, filename: &str, checksum: &str, applied_micros: i64) -> SchemaMigrationRecord {
    SchemaMigrationRecord {
        version: version.to_string(),
        filename: filename.to_string(),
        checksum_sha256: checksum.to_string(),
        applied_at: ts(applied_micros),
        applied_by: Some("tests".to_string()),
        execution_ms: Some(3),
        success: true,
    }
}

fn names(files: &[MigrationFile]) -> Vec<String> {
    files.iter().map(|f| f.filename.clone()).collect()
}

#[test]
fn migration_version_is_the_four_digit_prefix() {
    assert_eq!(parse_migration_version("0001_create_users.sql").unwrap(), "0001");
    assert_eq!(parse_migration_version("0074_microstructure_tables.sql").unwrap(), "0074");
    assert_eq!(parse_migration_version("0002__double.sql").unwrap(), "0002");
}

#[test]
fn migration_version_errors() {
    assert!(matches!(
        parse_migration_version("0001.sql"),
        Err(MigrationError::MissingVersionPrefix { filename }) if filename == "0001.sql"
    ));
    assert!(matches!(
        parse_migration_version("01_short.sql"),
        Err(MigrationError::InvalidVersion { filename }) if filename == "01_short.sql"
    ));
    assert!(matches!(
        parse_migration_version("00a1_letters.sql"),
        Err(MigrationError::InvalidVersion { .. })
    ));
    assert!(matches!(parse_migration_version("_leading.sql"), Err(MigrationError::InvalidVersion { .. })));
}

#[test]
fn sha256_hex_of_known_inputs() {
    assert_eq!(
        sha256_hex(b"abc"),
        "ba7816bf8f01cfea414140de5dae2223b00361a396177a9cb410ff61f20015ad"
    );
    assert_eq!(
        sha256_hex(b""),
        "e3b0c44298fc1c149afbf4c8996fb92427ae41e4649b934ca495991b7852b855"
    );
}

#[test]
fn hex_encode_uses_two_lower_case_digits_per_byte() {
    assert_eq!(hex_encode(&[0x00, 0x0f, 0xa0, 0xff]), "000fa0ff");
    assert_eq!(hex_encode(&[]), "");
}

#[test]
fn finalize_sorts_by_file_name() {
    let files = vec![file("0003_c.sql", "c"), file("0001_a.sql", "a"), file("0002_b.sql", "b")];
    let sorted = finalize_migration_files(files).unwrap();
    assert_eq!(names(&sorted), vec!["0001_a.sql", "0002_b.sql", "0003_c.sql"]);
}

#[test]
fn finalize_refuses_duplicate_versions() {
    let files = vec![
        file("0005_e.sql", "e"),
        file("0002_b.sql", "b"),
        file("0005_again.sql", "x"),
        file("0002_again.sql", "y"),
    ];
    match finalize_migration_files(files) {
        Err(MigrationError::DuplicateVersion { version }) => assert_eq!(version, "0002"),
        other => panic!("expected a duplicate version, got {other:?}"),
    }
}

#[test]
fn ledger_keeps_the_last_record_of_a_version() {
    let ledger = MigrationLedger::from_records(vec![
        record("0001", "0001_a.sql", "old", 1),
        record("0002", "0002_b.sql", "b", 2),
        record("0001", "0001_a.sql", "new", 3),
    ]);
    assert_eq!(ledger.len(), 2);
    assert_eq!(ledger.get("0001").unwrap().checksum_sha256, "new");
    assert!(ledger.get("0003").is_none());
}

#[test]
fn verify_checksum_compares_ledger_and_file() {
    let f = file("0001_a.sql", "aaa");
    assert!(verify_checksum(&f, &record("0001", "0001_a.sql", "aaa", 1)).is_ok());
    match verify_checksum(&f, &record("0001", "0001_a.sql", "bbb", 1)) {
        Err(MigrationError::ChecksumMismatch { version, filename, ledger_sha256, file_sha256 }) => {
            assert_eq!(version, "0001");
            assert_eq!(filename, "0001_a.sql");
            assert_eq!(ledger_sha256, "bbb");
            assert_eq!(file_sha256, "aaa");
        }
        other => panic!("expected a checksum mismatch, got {other:?}"),
    }
}

#[test]
fn run_plan_skips_applied_and_applies_the_rest() {
    let files = vec![file("0001_a.sql", "a"), file("0002_b.sql", "b"), file("0003_c.sql", "c")];
    let ledger = MigrationLedger::from_records(vec![record("0001", "0001_a.sql", "a", 1)]);
    let plan = plan_migration_run(&files, &ledger);
    assert_eq!(plan.steps, vec![MigrationStep::Skip, MigrationStep::Apply, MigrationStep::Apply]);
    assert!(plan.failure.is_none());
}

#[test]
fn run_plan_stops_at_first_checksum_mismatch() {
    let files = vec![file("0001_a.sql", "a"), file("0002_b.sql", "b"), file("0003_c.sql", "c")];
    let ledger = MigrationLedger::from_records(vec![
        record("0001", "0001_a.sql", "a", 1),
        record("0002", "0002_b.sql", "changed", 2),
    ]);
    let plan = plan_migration_run(&files, &ledger);
    assert_eq!(plan.steps, vec![MigrationStep::Skip]);
    assert!(matches!(plan.failure, Some(MigrationError::ChecksumMismatch { ref version, .. }) if version == "0002"));
}

#[test]
fn baseline_needs_confirmation() {
    assert!(baseline_confirmation(true).is_ok());
    assert!(matches!(baseline_confirmation(false), Err(MigrationError::BaselineNotConfirmed)));
}

#[test]
fn baseline_selects_files_up_to_target() {
    let files = vec![file("0001_a.sql", "a"), file("0002_b.sql", "b"), file("0003_c.sql", "c")];
    let selected = select_baseline_files(files, "0002").unwrap();
    assert_eq!(names(&selected), vec!["0001_a.sql", "0002_b.sql"]);
    let files = vec![file("0001_a.sql", "a"), file("0003_c.sql", "c")];
    match select_baseline_files(files, "0002") {
        Err(MigrationError::BaselineTargetMissing { target_version }) => assert_eq!(target_version, "0002"),
        other => panic!("expected a missing target, got {other:?}"),
    }
}

#[test]
fn baseline_classifies_already_applied_and_to_record() {
    let selected = vec![file("0001_a.sql", "a"), file("0002_b.sql", "b")];
    let ledger = MigrationLedger::from_records(vec![record("0001", "0001_a.sql", "a", 1)]);
    let (already, to_record) = classify_baseline_files(&selected, &ledger).unwrap();
    assert_eq!(already.len(), 1);
    assert_eq!(already[0].version, "0001");
    assert_eq!(to_record.len(), 1);
    assert_eq!(to_record[0].filename, "0002_b.sql");

    let bad = MigrationLedger::from_records(vec![record("0002", "0002_b.sql", "other", 1)]);
    assert!(matches!(classify_baseline_files(&selected, &bad), Err(MigrationError::ChecksumMismatch { .. })));
}

#[test]
fn baseline_report_separates_dry_run() {
    let skipped = |v: &str| SkippedMigration { version: v.to_string(), filename: format!("{v}_x.sql") };
    let dry = baseline_report("0002".to_string(), true, 2, vec![skipped("0001")], vec![skipped("0002")]);
    assert!(dry.recorded.is_empty());
    assert_eq!(dry.would_record.len(), 1);
    assert_eq!(dry.already_applied.len(), 1);
    let real = baseline_report("0002".to_string(), false, 2, vec![], vec![skipped("0002")]);
    assert_eq!(real.recorded.len(), 1);
    assert!(real.would_record.is_empty());
    assert_eq!(real.target_version, "0002");
    assert_eq!(real.total_considered, 2);
}

fn tables(list: &[&str]) -> Vec<String> {
    list.iter().map(|t| t.to_string()).collect()
}

const REQUIRED: [&str; 8] = [
    "scheduled_research_jobs",
    "derivatives_funding_rates",
    "candidate_review_events",
    "symbols",
    "market_ticks",
    "candles",
    "research_batches",
    "strategy_experiments",
];

#[test]
fn baseline_schema_refuses_an_empty_database() {
    assert!(matches!(
        check_baseline_schema(&tables(&["schema_migrations", "_sqlx_migrations"]), "0073"),
        Err(MigrationError::BaselineEmptySchema)
    ));
    assert!(matches!(check_baseline_schema(&Vec::new(), "0073"), Err(MigrationError::BaselineEmptySchema)));
}

#[test]
fn baseline_schema_lists_missing_required_tables() {
    match check_baseline_schema(&tables(&["symbols", "candles", "research_candidates"]), "0073") {
        Err(MigrationError::BaselineUnexpectedSchema { missing_required, has_candidate_table }) => {
            assert!(has_candidate_table);
            assert_eq!(
                missing_required,
                vec![
                    "scheduled_research_jobs",
                    "derivatives_funding_rates",
                    "candidate_review_events",
                    "market_ticks",
                    "research_batches",
                    "strategy_experiments",
                ]
            );
        }
        other => panic!("expected an unexpected schema, got {other:?}"),
    }
    let mut all = tables(&REQUIRED);
    match check_baseline_schema(&all, "0073") {
        Err(MigrationError::BaselineUnexpectedSchema { missing_required, has_candidate_table }) => {
            assert!(!has_candidate_table);
            assert!(missing_required.is_empty());
        }
        other => panic!("expected a missing candidate table, got {other:?}"),
    }
    all.push("strategy_research_candidates".to_string());
    assert!(check_baseline_schema(&all, "0073").is_ok());
}

#[test]
fn baseline_schema_refuses_a_target_below_existing_tables() {
    let mut all = tables(&REQUIRED);
    all.push("research_candidates".to_string());
    all.push("microstructure_spread_metrics".to_string());
    match check_baseline_schema(&all, "0073") {
        Err(MigrationError::BaselineTargetTooLow { target_version, incompatible }) => {
            assert_eq!(target_version, "0073");
            assert_eq!(incompatible, vec!["microstructure_spread_metrics requires baseline target >= 0074"]);
        }
        other => panic!("expected a target too low, got {other:?}"),
    }
    assert!(check_baseline_schema(&all, "0074").is_ok());
    match check_baseline_schema(&all, "0050") {
        Err(MigrationError::BaselineTargetTooLow { incompatible, .. }) => assert_eq!(
            incompatible,
            vec![
                "scheduled_research_jobs requires baseline target >= 0052",
                "derivatives_funding_rates requires baseline target >= 0071",
                "candidate_review_events requires baseline target >= 0073",
                "microstructure_spread_metrics requires baseline target >= 0074",
            ]
        ),
        other => panic!("expected a target too low, got {other:?}"),
    }
}

#[test]
fn status_counts_applied_pending_and_mismatches() {
    let files = vec![file("0001_a.sql", "a"), file("0002_b.sql", "b"), file("0003_c.sql", "c")];
    let ledger = MigrationLedger::from_records(vec![
        record("0001", "0001_a.sql", "a", 1),
        record("0002", "0002_b.sql", "changed", 2),
        record("0009", "0009_gone.sql", "z", 3),
    ]);
    let status = migration_status(files, &ledger);
    assert_eq!(status.total_migrations, 3);
    assert_eq!(status.applied_count, 2);
    assert_eq!(status.pending_count, 1);
    assert_eq!(status.applied_count + status.pending_count, status.total_migrations);
    assert_eq!(status.pending[0].filename, "0003_c.sql");
    assert_eq!(status.latest_applied.as_ref().unwrap().version, "0002");
    assert_eq!(status.checksum_mismatches.len(), 1);
    assert_eq!(status.checksum_mismatches[0].version, "0002");
    assert_eq!(status.checksum_mismatches[0].expected_sha256, "changed");
    assert_eq!(status.checksum_mismatches[0].actual_sha256, "b");
}

#[test]
fn completed_run_leaves_nothing_pending() {
    let files = vec![file("0001_a.sql", "a"), file("0002_b.sql", "b"), file("0003_c.sql", "c")];
    let mut records = vec![record("0001", "0001_a.sql", "a", 1)];
    let before = MigrationLedger::from_records(records.clone());
    let plan = plan_migration_run(&files, &before);
    assert!(plan.failure.is_none());
    for (f, step) in files.iter().zip(plan.steps.iter()) {
        if *step == MigrationStep::Apply {
            records.push(record(&f.version, &f.filename, &f.checksum_sha256, 10));
        }
    }
    let after = MigrationLedger::from_records(records);
    let status = migration_status(files, &after);
    assert_eq!(status.pending_count, 0);
    assert_eq!(status.applied_count, 3);
    assert_eq!(status.latest_applied.unwrap().version, "0003");
}

#[test]
fn migration_file_names_end_in_sql() {
    assert!(migration_file_name("0001_a.sql"));
    assert!(migration_file_name("x.sql"));
    assert!(!migration_file_name(".sql"));
    assert!(!migration_file_name("0001_a.SQL"));
    assert!(!migration_file_name("README.md"));
    assert!(!migration_file_name("0001_a.sql.bak"));
}

#[test]
fn migration_files_are_built_from_entries() {
    let entry = |name: &str, contents: &[u8]| MigrationEntry {
        filename: name.to_string(),
        path: PathBuf::from(name),
        contents: contents.to_vec(),
    };
    let files = migration_files_from_entries(vec![
        entry("0002_b.sql", b""),
        entry("notes.txt", b"ignored"),
        entry("0001_a.sql", b"abc"),
    ])
    .unwrap();
    assert_eq!(names(&files), vec!["0001_a.sql", "0002_b.sql"]);
    assert_eq!(files[0].version, "0001");
    assert_eq!(files[0].checksum_sha256, "ba7816bf8f01cfea414140de5dae2223b00361a396177a9cb410ff61f20015ad");
    assert_eq!(files[1].checksum_sha256, "e3b0c44298fc1c149afbf4c8996fb92427ae41e4649b934ca495991b7852b855");
    assert_eq!(files[1].path, PathBuf::from("0002_b.sql"));

    match migration_files_from_entries(vec![entry("0001_a.sql", b""), entry("bad.sql", b""), entry("12_x.sql", b"")]) {
        Err(MigrationError::MissingVersionPrefix { filename }) => assert_eq!(filename, "bad.sql"),
        other => panic!("expected a missing prefix, got {other:?}"),
    }
    match migration_files_from_entries(vec![entry("12_x.sql", b""), entry("bad.sql", b"")]) {
        Err(MigrationError::InvalidVersion { filename }) => assert_eq!(filename, "12_x.sql"),
        other => panic!("expected an invalid version, got {other:?}"),
    }
    assert!(matches!(
        migration_files_from_entries(vec![entry("0001_a.sql", b""), entry("0001_b.sql", b"")]),
        Err(MigrationError::DuplicateVersion { .. })
    ));
    assert!(migration_files_from_entries(vec![entry("bad.txt", b"")]).unwrap().is_empty());
}

#[test]
fn baseline_plan_counts_every_selected_file_once() {
    let selected = vec![file("0001_a.sql", "a"), file("0002_b.sql", "b"), file("0003_c.sql", "c")];
    let ledger = MigrationLedger::from_records(vec![record("0002", "0002_b.sql", "b", 1)]);
    let (report, to_record) = plan_baseline("0003".to_string(), false, selected, &ledger).unwrap();
    assert_eq!(report.total_considered, 3);
    assert_eq!(report.already_applied.len() + report.recorded.len() + report.would_record.len(), 3);
    assert_eq!(report.already_applied[0].version, "0002");
    assert_eq!(names(&to_record), vec!["0001_a.sql", "0003_c.sql"]);
    assert_eq!(report.recorded.iter().map(|m| m.version.as_str()).collect::<Vec<_>>(), vec!["0001", "0003"]);
    assert!(report.would_record.is_empty());

    let selected = vec![file("0001_a.sql", "a"), file("0002_b.sql", "b")];
    let (dry, to_record) = plan_baseline("0002".to_string(), true, selected, &ledger).unwrap();
    assert!(dry.dry_run && dry.recorded.is_empty());
    assert_eq!(dry.would_record.len(), 1);
    assert_eq!(to_record.len(), 1);

    let bad = MigrationLedger::from_records(vec![record("0001", "0001_a.sql", "other", 1)]);
    assert!(matches!(
        plan_baseline("0001".to_string(), true, vec![file("0001_a.sql", "a")], &bad),
        Err(MigrationError::ChecksumMismatch { .. })
    ));
}

#[test]
fn run_outcome_reports_skipped_files_and_applied_migrations() {
    let files = vec![file("0001_a.sql", "a"), file("0002_b.sql", "b"), file("0003_c.sql", "c")];
    let ledger = MigrationLedger::from_records(vec![record("0002", "0002_b.sql", "b", 1)]);
    let plan = plan_migration_run(&files, &ledger);
    let applied = vec![
        AppliedMigration { version: "0001".to_string(), filename: "0001_a.sql".to_string(), execution_ms: 4 },
        AppliedMigration { version: "0003".to_string(), filename: "0003_c.sql".to_string(), execution_ms: 7 },
    ];
    let report = migration_run_outcome(&files, plan, applied).unwrap();
    assert_eq!(report.total_migrations, 3);
    let applied: Vec<(&str, i64)> = report.applied.iter().map(|a| (a.version.as_str(), a.execution_ms)).collect();
    assert_eq!(applied, vec![("0001", 4), ("0003", 7)]);
    let skipped: Vec<(&str, &str)> =
        report.skipped.iter().map(|m| (m.version.as_str(), m.filename.as_str())).collect();
    assert_eq!(skipped, vec![("0002", "0002_b.sql")]);
}

#[test]
fn run_outcome_returns_the_plan_failure() {
    let files = vec![file("0001_a.sql", "a"), file("0002_b.sql", "b")];
    let ledger = MigrationLedger::from_records(vec![record("0001", "0001_a.sql", "changed", 1)]);
    let plan = plan_migration_run(&files, &ledger);
    match migration_run_outcome(&files, plan, Vec::new()) {
        Err(MigrationError::ChecksumMismatch { version, .. }) => assert_eq!(version, "0001"),
        other => panic!("expected a checksum mismatch, got {other:?}"),
    }
}
