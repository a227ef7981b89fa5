use dotmgr::stats::{format_deploy_status, format_sync_status, DeployStats, Outcome, SyncStats};
use dotmgr::utils::format_size;

fn float_size(bytes: u64) -> String {
    const KB: u64 = 1024;
    const MB: u64 = 1024 * KB;
    const GB: u64 = 1024 * MB;
    if bytes >= GB {
        format!("{:.1}G", bytes as f64 / GB as f64)
    } else if bytes >= MB {
        format!("{:.1}M", bytes as f64 / MB as f64)
    } else if bytes >= KB {
        format!("{:.1}K", bytes as f64 / KB as f64)
    } else {
        format!("{}B", bytes)
    }
}

#[test]
fn format_size_small_values_are_bytes() {
    assert_eq!(format_size(0), "0B");
    assert_eq!(format_size(7), "7B");
    assert_eq!(format_size(1023), "1023B");
}

#[test]
fn format_size_units() {
    assert_eq!(format_size(1024), "1.0K");
    assert_eq!(format_size(1536), "1.5K");
    assert_eq!(format_size(1024 * 1024), "1.0M");
    assert_eq!(format_size(5 * 1024 * 1024 + 512 * 1024), "5.5M");
    assert_eq!(format_size(1024 * 1024 * 1024), "1.0G");
    assert_eq!(format_size(1048575), "1024.0K");
}

#[test]
fn format_size_ties_round_to_even() {
    // 1.25K and 1.75K are exact halves between tenths.
    assert_eq!(format_size(1280), "1.2K");
    assert_eq!(format_size(1792), "1.8K");
    assert_eq!(format_size(1280), float_size(1280));
    assert_eq!(format_size(1792), float_size(1792));
}

#[test]
fn format_size_matches_float_formatting() {
    let mut b: u64 = 0;
    while b < 3 * 1024 * 1024 {
        assert_eq!(format_size(b), float_size(b), "bytes = {}", b);
        b += 1;
    }
    let mut x: u64 = 1;
    for _ in 0..200_000 {
        x = x.wrapping_mul(6364136223846793005).wrapping_add(1442695040888963407);
        for shift in [0u32, 8, 16, 24, 30, 34, 40, 48, 52, 54, 58, 60, 63] {
            let v = x >> shift;
            assert_eq!(format_size(v), float_size(v), "bytes = {}", v);
        }
    }
    for v in [u64::MAX, u64::MAX - 1, 1u64 << 53, (1u64 << 53) + 1, (1u64 << 54) + 3, (1u64 << 63) + 1025] {
        assert_eq!(format_size(v), float_size(v), "bytes = {}", v);
    }
}

#[test]
fn sync_status_up_to_date() {
    assert_eq!(format_sync_status(&SyncStats::default()), "Already up to date ✓");
    let bytes_only = SyncStats { bytes: 99, ..SyncStats::default() };
    assert_eq!(format_sync_status(&bytes_only), "Already up to date ✓");
}

#[test]
fn sync_status_parts_in_order() {
    let st = SyncStats { copied: 2, skipped: 1, cleaned: 4, dirs: 3, bytes: 2048, errors: 5 };
    assert_eq!(
        format_sync_status(&st),
        "↑ copied 2 (2.0K) │ up-to-date 1 │ dirs 3 │ cleaned 4 │ errors 5"
    );
    let st = SyncStats { cleaned: 1, ..SyncStats::default() };
    assert_eq!(format_sync_status(&st), "cleaned 1");
}

#[test]
fn deploy_status_parts_in_order() {
    assert_eq!(format_deploy_status(&DeployStats::default()), "Already up to date ✓");
    let st = DeployStats { copied: 1, skipped: 2, dirs: 3, bytes: 10, errors: 0, overwritten: 1 };
    assert_eq!(
        format_deploy_status(&st),
        "↓ deployed 1 (10B) │ overwritten 1 │ up-to-date 2 │ dirs 3"
    );
}

#[test]
fn recording_outcomes() {
    let mut st = SyncStats::default();
    st.record(Outcome::Copied { bytes: 10, replaced: true });
    st.record(Outcome::Skipped);
    st.record(Outcome::DirCreated);
    st.record(Outcome::Cleaned);
    st.record(Outcome::Failed);
    assert_eq!((st.copied, st.bytes, st.skipped, st.dirs, st.cleaned, st.errors), (1, 10, 1, 1, 1, 1));
    let mut dp = DeployStats::default();
    dp.record(Outcome::Copied { bytes: 5, replaced: true });
    dp.record(Outcome::Copied { bytes: 5, replaced: false });
    dp.record(Outcome::Cleaned);
    assert_eq!((dp.copied, dp.overwritten, dp.bytes), (2, 1, 10));
    let full = SyncStats { skipped: u64::MAX, ..SyncStats::default() };
    assert!(!full.can_record(&Outcome::Skipped));
    assert!(full.can_record(&Outcome::Failed));
    let big = SyncStats { bytes: u64::MAX - 3, ..SyncStats::default() };
    assert!(!big.can_record(&Outcome::Copied { bytes: 4, replaced: false }));
    assert!(big.can_record(&Outcome::Copied { bytes: 3, replaced: false }));
}
