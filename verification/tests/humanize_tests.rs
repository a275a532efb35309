use systeminfo::humanize::{humanize_bytes, humanize_epoch, humanize_epoch_into};
use std::time::{Duration, UNIX_EPOCH};

#[test]
fn test_humanize_time() {
    let epoch_time = UNIX_EPOCH + Duration::from_secs(1610859829);
    let secs = epoch_time.duration_since(UNIX_EPOCH).unwrap().as_secs();
    let human_time = String::from("Sun Jan 17 2021, 05:03:49");
    assert_eq!(humanize_epoch(secs), human_time);
}

#[test]
fn test_humanize_into_time() {
    let epoch_time = UNIX_EPOCH + Duration::from_secs(1610859829);
    let secs = epoch_time.duration_since(UNIX_EPOCH).unwrap().as_secs();
    let human_time = String::from("2021-01-17");
    assert_eq!(humanize_epoch_into(secs, "%Y-%m-%d"), human_time);
}

#[test]
fn test_humanize_file_size() {
    let file_size = 1000_f64;
    assert_eq!(humanize_bytes(file_size < 0.0, file_size as u64), "1 kB");
}

#[test]
fn test_humanize_rounds_to_two_decimals() {
    assert_eq!(humanize_bytes(false, 1028), "1.03 kB");
}

#[test]
fn test_humanize_preserves_sign() {
    assert_eq!(humanize_bytes(true, 1028), "-1.03 kB");
}

#[test]
fn test_humanize_small_and_zero() {
    assert_eq!(humanize_bytes(false, 0), "0 B");
    assert_eq!(humanize_bytes(false, 999), "999 B");
}

#[test]
fn test_humanize_unit_ladder() {
    assert_eq!(humanize_bytes(false, 1_000_000), "1 MB");
    assert_eq!(humanize_bytes(false, 1_500_000_000), "1.5 GB");
    assert_eq!(humanize_bytes(false, 2_000_000_000_000), "2 TB");
}

#[test]
fn test_humanize_one_decimal_kept() {
    assert_eq!(humanize_bytes(false, 1300), "1.3 kB");
}
