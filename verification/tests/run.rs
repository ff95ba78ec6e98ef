use photo::calendar::civil_from_days;
use photo::run::{
    generate_run_id, generate_token, harness_run_dir, sandbox_storage_dirs, splitmix64,
    utc_string_from_epoch_ms, RunManifest, RUN_MANIFEST_SCHEMA_VERSION,
};

#[test]
fn utc_string_matches_known_instants() {
    assert_eq!(utc_string_from_epoch_ms(0), "1970-01-01T00:00:00Z");
    // 2026-01-01T00:00:00Z: 56 years, 14 leap days.
    assert_eq!(
        utc_string_from_epoch_ms(1_767_225_600_000),
        "2026-01-01T00:00:00Z"
    );
    // Leap-day handling: 2024-02-29T12:34:56Z
    // (1_709_164_800 = 2024-02-29T00:00:00Z; + 12h34m56s = 45_296s).
    assert_eq!(
        utc_string_from_epoch_ms((1_709_164_800 + 45_296) * 1000),
        "2024-02-29T12:34:56Z"
    );
}

#[test]
fn run_id_is_compact_utc_plus_pid() {
    assert_eq!(
        generate_run_id(1_767_225_600_000, 4242),
        "20260101-000000Z-4242"
    );
}

#[test]
fn tokens_are_32_hex_and_seed_sensitive() {
    let a = generate_token(1_000_000, 1);
    let b = generate_token(1_000_001, 1);
    let c = generate_token(1_000_000, 2);
    for token in [&a, &b, &c] {
        assert_eq!(token.len(), 32);
        assert!(token.chars().all(|c| c.is_ascii_hexdigit()));
    }
    assert_ne!(a, b);
    assert_ne!(a, c);
}

#[test]
fn manifest_lifecycle_and_layout_helpers() {
    let mut manifest = RunManifest::started("run-1".to_string(), true);
    assert_eq!(manifest.schema_version, RUN_MANIFEST_SCHEMA_VERSION);
    assert_eq!(manifest.app_version, "0.1.0");
    assert!(manifest.ended_at_epoch_ms.is_none());
    assert!(manifest.stop_reason.is_none());

    manifest.finalize("quit", vec!["artifacts/0001-screenshot.png".to_string()]);
    assert_eq!(manifest.stop_reason.as_deref(), Some("quit"));
    assert!(manifest.ended_at_epoch_ms.unwrap() >= manifest.started_at_epoch_ms);
    assert_eq!(manifest.artifacts.len(), 1);

    let dir = harness_run_dir("base", "run-1");
    assert!(dir.ends_with("tmp/harness-runs/run-1"));
    let storage = sandbox_storage_dirs(&dir);
    assert!(storage
        .appdata
        .ends_with("tmp/harness-runs/run-1/storage/appdata"));
    assert!(storage
        .repo
        .ends_with("tmp/harness-runs/run-1/storage/repo"));
}

#[test]
fn utc_string_handles_century_rules_and_late_instants() {
    // 2000 is a leap year (divisible by 400), 2100 is not.
    assert_eq!(utc_string_from_epoch_ms(951_782_400_000), "2000-02-29T00:00:00Z");
    assert_eq!(utc_string_from_epoch_ms(4_107_542_400_000), "2100-03-01T00:00:00Z");
    assert_eq!(utc_string_from_epoch_ms(86_399_999), "1970-01-01T23:59:59Z");
    // The year keeps all of its digits past 9999.
    assert_eq!(utc_string_from_epoch_ms(253_402_300_800_000), "10000-01-01T00:00:00Z");
}

#[test]
fn civil_from_days_known_days() {
    assert_eq!(civil_from_days(0), (1970, 1, 1));
    assert_eq!(civil_from_days(-1), (1969, 12, 31));
    assert_eq!(civil_from_days(59), (1970, 3, 1));
    assert_eq!(civil_from_days(11_016), (2000, 2, 29));
}

#[test]
fn run_id_of_a_five_digit_year_splits_after_eight_digits() {
    assert_eq!(
        generate_run_id(253_402_300_800_000, 7),
        "10000010-1000000Z-7"
    );
}

#[test]
fn splitmix64_known_value() {
    // First output of the reference SplitMix64 generator seeded with 0.
    assert_eq!(splitmix64(0), 0xE220_A839_7B1D_CDAF);
}

#[test]
fn manifest_finalize_at_records_the_end() {
    let mut manifest = RunManifest::started_at("run-2".to_string(), false, 0);
    assert_eq!(manifest.started_at_utc, "1970-01-01T00:00:00Z");
    manifest.finalize_at("quit", Vec::new(), 1_767_225_600_000);
    assert_eq!(manifest.ended_at_epoch_ms, Some(1_767_225_600_000));
    assert_eq!(manifest.ended_at_utc.as_deref(), Some("2026-01-01T00:00:00Z"));
    assert_eq!(manifest.run_id, "run-2");
    assert!(manifest.artifacts.is_empty());
}

#[test]
fn later_runs_have_greater_ids() {
    let early = generate_run_id(1_767_225_600_000, 99_999);
    let later = generate_run_id(1_767_225_601_000, 1);
    let next_year = generate_run_id(1_798_761_600_000, 7);
    assert!(early < later);
    assert!(later < next_year);
    let runs = vec![later.clone(), next_year.clone(), early.clone()];
    assert_eq!(
        photo::control::newest_session_under("tmp/harness-runs", &runs),
        Some(format!("tmp/harness-runs/{next_year}/session.json"))
    );
}
