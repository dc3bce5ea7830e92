//! Unit conversion: vendor counters to decimal megabytes/terabytes.

use disk_health::units::{lbas_to_mb, nvme_units_to_mb};

#[test]
fn nvme_units_about_one_terabyte() {
    // 1,953,504 units of 512,000 bytes is one decimal terabyte, to three
    // decimal places.
    let mb = nvme_units_to_mb(1_953_504);
    assert_eq!(mb, 1_000_194);
    let tb = mb as f64 / 1_000_000.0;
    assert!((tb - 1.000).abs() < 0.001);
}

#[test]
fn lbas_exactly_one_terabyte() {
    // 1,953,125,000 blocks of 512 bytes is exactly one decimal terabyte.
    let mb = lbas_to_mb(1_953_125_000);
    assert_eq!(mb, 1_000_000);
    let tb = mb as f64 / 1_000_000.0;
    assert!((tb - 1.000).abs() < 1e-12);
}

#[test]
fn zero_counts_convert_to_zero() {
    assert_eq!(nvme_units_to_mb(0), 0);
    assert_eq!(lbas_to_mb(0), 0);
}

#[test]
fn conversions_round_down() {
    // One unit is 0.512 MB; one block is far below a megabyte.
    assert_eq!(nvme_units_to_mb(1), 0);
    assert_eq!(lbas_to_mb(1), 0);
    assert_eq!(nvme_units_to_mb(2), 1);
}

#[test]
fn conversions_handle_the_largest_counts() {
    let expected = ((u64::MAX as u128) * 512_000 / 1_000_000) as u64;
    assert_eq!(nvme_units_to_mb(u64::MAX), expected);
    let expected_lbas = ((u64::MAX as u128) * 512 / 1_000_000) as u64;
    assert_eq!(lbas_to_mb(u64::MAX), expected_lbas);
}
