//! Device-name classification, the rotational-flag decision, and the
//! ordered scan.

use disk_health::models::{DeviceKind, DeviceSample, MountedFsInfo};
use disk_health::scan::{classify_device_name, sata_or_hdd, scan_disks, DeviceClass};

fn sample(name: &str, flag: Option<&str>, report: Option<&str>) -> DeviceSample {
    DeviceSample {
        name: String::from(name),
        rotational_flag: flag.map(String::from),
        report: report.map(String::from),
    }
}

#[test]
fn classification_by_naming_convention() {
    assert_eq!(classify_device_name("nvme0n1"), Some(DeviceClass::NvmeDisk));
    assert_eq!(classify_device_name("nvme1n2"), Some(DeviceClass::NvmeDisk));
    // A partition suffix carries a 'p' and is ignored.
    assert_eq!(classify_device_name("nvme0n1p1"), None);
    assert_eq!(classify_device_name("sda"), Some(DeviceClass::ScsiDisk));
    assert_eq!(classify_device_name("sdz"), Some(DeviceClass::ScsiDisk));
    // Only the three-letter base disk name, not partitions or long names.
    assert_eq!(classify_device_name("sda1"), None);
    assert_eq!(classify_device_name("sd"), None);
    assert_eq!(classify_device_name("loop0"), None);
    assert_eq!(classify_device_name("ram0"), None);
    assert_eq!(classify_device_name(""), None);
}

#[test]
fn rotational_flag_decides_sata_or_hdd() {
    assert_eq!(sata_or_hdd(&Some(String::from("0\n"))), DeviceKind::Sata);
    assert_eq!(sata_or_hdd(&Some(String::from("  0  "))), DeviceKind::Sata);
    assert_eq!(sata_or_hdd(&Some(String::from("1\n"))), DeviceKind::Hdd);
    assert_eq!(sata_or_hdd(&Some(String::from(""))), DeviceKind::Hdd);
    // A failed probe falls back to the conservative classification.
    assert_eq!(sata_or_hdd(&None), DeviceKind::Hdd);
}

#[test]
fn scan_orders_records_by_device_path() {
    let samples = vec![
        sample("sdb", Some("1"), Some("")),
        sample("nvme0n1", None, Some("")),
        sample("sda", Some("0"), Some("")),
    ];
    let mounts: Vec<MountedFsInfo> = Vec::new();
    let records = scan_disks(&samples, &mounts);
    let devs: Vec<&str> = records.iter().map(|r| r.dev.as_str()).collect();
    assert_eq!(devs, vec!["/dev/nvme0n1", "/dev/sda", "/dev/sdb"]);
}

#[test]
fn scan_assigns_kinds_and_skips_failures() {
    let samples = vec![
        sample("sda", Some("0"), Some("Device Model: S\n")),
        sample("sdb", Some("1"), Some("")),
        sample("sdc", Some("0"), None),
        sample("nvme0n1", None, Some("Model Number: N\n")),
        sample("loop0", None, Some("")),
    ];
    let mounts: Vec<MountedFsInfo> = Vec::new();
    let records = scan_disks(&samples, &mounts);
    // sdc has no captured report and loop0 is no candidate.
    assert_eq!(records.len(), 3);
    assert_eq!(records[0].dev, "/dev/nvme0n1");
    assert_eq!(records[0].kind, DeviceKind::Nvme);
    assert_eq!(records[0].model, Some(String::from("N")));
    assert_eq!(records[1].dev, "/dev/sda");
    assert_eq!(records[1].kind, DeviceKind::Sata);
    assert_eq!(records[1].model, Some(String::from("S")));
    assert_eq!(records[2].dev, "/dev/sdb");
    assert_eq!(records[2].kind, DeviceKind::Hdd);
}

#[test]
fn scan_attaches_matching_partitions() {
    let samples = vec![sample("sda", Some("0"), Some(""))];
    let mounts = vec![
        MountedFsInfo {
            device_name: String::from("/dev/sda1"),
            mount_point: String::from("/"),
            fs_type: String::from("ext4"),
            total_bytes: 100_000_000_000,
            available_bytes: 25_000_000_000,
        },
        MountedFsInfo {
            device_name: String::from("/dev/nvme0n1p1"),
            mount_point: String::from("/boot"),
            fs_type: String::from("vfat"),
            total_bytes: 1_000_000_000,
            available_bytes: 900_000_000,
        },
    ];
    let records = scan_disks(&samples, &mounts);
    assert_eq!(records.len(), 1);
    assert_eq!(records[0].partitions.len(), 1);
    assert_eq!(records[0].partitions[0].mount_point, "/");
    assert_eq!(records[0].partitions[0].used_percent_hundredths, 7500);
}

#[test]
fn empty_record_constructor_only_sets_the_path() {
    let di = disk_health::models::DiskInfo::empty(String::from("/dev/sda"));
    assert_eq!(di.dev, "/dev/sda");
    assert_eq!(di.kind, DeviceKind::Unknown);
    assert_eq!(di.model, None);
    assert!(di.smart_attributes.is_empty());
    assert!(di.partitions.is_empty());
}
