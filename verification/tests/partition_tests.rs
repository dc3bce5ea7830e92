//! Partition correlation and the space-usage arithmetic.

use disk_health::models::MountedFsInfo;
use disk_health::partitions::{correlate_partitions, make_partition};

fn mount(name: &str, point: &str, total: u64, avail: u64) -> MountedFsInfo {
    MountedFsInfo {
        device_name: String::from(name),
        mount_point: String::from(point),
        fs_type: String::from("ext4"),
        total_bytes: total,
        available_bytes: avail,
    }
}

#[test]
fn used_percent_for_three_quarters_full() {
    // total 100 GB, free 25 GB: 75 GB used, 75.00 percent.
    let p = make_partition(&mount("/dev/sda1", "/", 100_000_000_000, 25_000_000_000));
    assert_eq!(p.total_mb, 100_000);
    assert_eq!(p.free_mb, 25_000);
    assert_eq!(p.used_mb, 75_000);
    assert_eq!(p.used_percent_hundredths, 7500);
    assert!((p.used_percent_hundredths as f64 / 100.0 - 75.0).abs() < 1e-9);
}

#[test]
fn zero_total_has_zero_percent() {
    let p = make_partition(&mount("/dev/sda1", "/", 0, 0));
    assert_eq!(p.total_mb, 0);
    assert_eq!(p.used_mb, 0);
    assert_eq!(p.used_percent_hundredths, 0);
}

#[test]
fn free_above_total_saturates_used() {
    let p = make_partition(&mount("/dev/sda1", "/", 1_000_000, 2_000_000));
    assert_eq!(p.used_mb, 0);
    assert_eq!(p.used_percent_hundredths, 0);
}

#[test]
fn containment_matches_partitions_of_the_device() {
    let mounts = vec![
        mount("/dev/sda1", "/", 100_000_000_000, 25_000_000_000),
        mount("/dev/sdb1", "/data", 10_000_000_000, 5_000_000_000),
        mount("/dev/sda2", "/home", 50_000_000_000, 40_000_000_000),
    ];
    let parts = correlate_partitions("sda", &mounts);
    assert_eq!(parts.len(), 2);
    assert_eq!(parts[0].mount_point, "/");
    assert_eq!(parts[1].mount_point, "/home");
    assert_eq!(parts[0].fs_type, "ext4");
}

#[test]
fn containment_accepts_similarly_named_devices() {
    // Substring matching is deliberate: "sda" also matches this name.
    let mounts = vec![mount("/dev/mapper/sdawful", "/x", 1_000_000, 0)];
    let parts = correlate_partitions("sda", &mounts);
    assert_eq!(parts.len(), 1);
}

#[test]
fn no_match_yields_no_partitions() {
    let mounts = vec![mount("/dev/sdb1", "/data", 1_000_000, 0)];
    assert!(correlate_partitions("sda", &mounts).is_empty());
}
