//! Report parsing: field extraction, fallbacks, and the fail-closed rule.

use disk_health::models::DeviceKind;
use disk_health::report::parse_smart_report;

fn parse(raw: &str, kind: DeviceKind) -> disk_health::models::DiskInfo {
    parse_smart_report(String::from("/dev/test"), raw, kind)
}

#[test]
fn nvme_report_end_to_end() {
    let raw = "Device Model: X\n\
               Temperature: 40 Celsius\n\
               Power Cycles: 12\n\
               Data Units Written: 2000\n";
    let di = parse(raw, DeviceKind::Nvme);
    assert_eq!(di.model, Some(String::from("X")));
    assert_eq!(di.temp_c, Some(40));
    assert_eq!(di.power_cycles, Some(12));
    // 2000 units of 512,000 bytes = 1024 MB = 0.001024 TB.
    assert_eq!(di.data_written_mb, Some(1024));
    let tb = di.data_written_mb.unwrap() as f64 / 1_000_000.0;
    assert!((tb - 0.001024).abs() < 1e-9);
    assert_eq!(di.protocol, Some(String::from("NVMe")));
    assert_eq!(di.device_type, Some(String::from("SSD")));
    assert_eq!(di.dev, "/dev/test");
    assert_eq!(di.kind, DeviceKind::Nvme);
}

#[test]
fn health_percent_is_100_minus_wear() {
    let di = parse("Percentage Used: 3%\n", DeviceKind::Nvme);
    assert_eq!(di.health_percent, Some(97));
}

#[test]
fn health_percent_clamps_at_zero() {
    let di = parse("Percentage Used: 250%\n", DeviceKind::Nvme);
    assert_eq!(di.health_percent, Some(0));
}

#[test]
fn health_percent_absent_without_field() {
    let di = parse("Temperature: 30 Celsius\n", DeviceKind::Nvme);
    assert_eq!(di.health_percent, None);
}

#[test]
fn health_percent_absent_when_unparsable() {
    // The wear figure is promised to fit a byte; 300 does not.
    let di = parse("Percentage Used: 300%\n", DeviceKind::Nvme);
    assert_eq!(di.health_percent, None);
}

#[test]
fn model_first_label_wins() {
    let raw = "Model Number: Alpha\nDevice Model: Beta\n";
    let di = parse(raw, DeviceKind::Nvme);
    assert_eq!(di.model, Some(String::from("Alpha")));
}

#[test]
fn model_second_label_is_fallback() {
    let di = parse("Device Model: Beta\n", DeviceKind::Sata);
    assert_eq!(di.model, Some(String::from("Beta")));
}

#[test]
fn serial_and_firmware_trimmed() {
    let raw = "Serial Number:    S123XYZ   \nFirmware Version: 2B2QEXM7\n";
    let di = parse(raw, DeviceKind::Nvme);
    assert_eq!(di.serial, Some(String::from("S123XYZ")));
    assert_eq!(di.firmware, Some(String::from("2B2QEXM7")));
}

#[test]
fn capacity_bytes_and_display_set_together() {
    let raw = "User Capacity:    500,107,862,016 [500 GB]\n";
    let di = parse(raw, DeviceKind::Sata);
    assert_eq!(di.capacity, Some(500_107_862_016));
    assert_eq!(di.capacity_str, Some(String::from("500 GB")));
}

#[test]
fn capacity_word_before_bracket_fails_closed() {
    // The pattern wants the bracket right after the byte count; a word in
    // between leaves both capacity fields unset.
    let raw = "User Capacity:    500,107,862,016 bytes [500 GB]\n";
    let di = parse(raw, DeviceKind::Sata);
    assert_eq!(di.capacity, None);
    assert_eq!(di.capacity_str, None);
}

#[test]
fn capacity_fractional_terabytes() {
    let raw = "Total NVM Capacity: 2,000,398,934,016 [2.00 TB]\n";
    let di = parse(raw, DeviceKind::Nvme);
    assert_eq!(di.capacity, Some(2_000_398_934_016));
    assert_eq!(di.capacity_str, Some(String::from("2.00 TB")));
}

#[test]
fn capacity_absent_without_unit() {
    let raw = "User Capacity: 500,107,862,016 [huge]\n";
    let di = parse(raw, DeviceKind::Sata);
    assert_eq!(di.capacity, None);
    assert_eq!(di.capacity_str, None);
}

#[test]
fn temperature_ata_attribute_row() {
    let raw = "194 Temperature_Celsius 0x0022 036 049 000 Old_age Always - 36 (Min/Max 21/49)\n";
    let di = parse(raw, DeviceKind::Sata);
    assert_eq!(di.temp_c, Some(36));
}

#[test]
fn temperature_nvme_line_preferred() {
    let raw = "Temperature: 41 Celsius\n\
               194 Temperature_Celsius 0x0022 036 049 000 Old_age Always - 36 (Min/Max 21/49)\n";
    let di = parse(raw, DeviceKind::Nvme);
    assert_eq!(di.temp_c, Some(41));
}

#[test]
fn power_on_hours_nvme_label() {
    let di = parse("Power On Hours: 1,234\n", DeviceKind::Nvme);
    assert_eq!(di.power_on_hours, Some(1234));
}

#[test]
fn power_on_hours_ata_fallback_reads_first_number() {
    let raw = "  9 Power_On_Hours 0x0032 095 095 000 Old_age Always - 23815\n";
    let di = parse(raw, DeviceKind::Hdd);
    // The fallback takes the first number on the row's line, here the
    // flag column's leading digit.
    assert_eq!(di.power_on_hours, Some(0));
}

#[test]
fn unsafe_shutdowns_nvme_only_field() {
    let di = parse("Unsafe Shutdowns: 7\n", DeviceKind::Nvme);
    assert_eq!(di.unsafe_shutdowns, Some(7));
    let none = parse("Power Cycles: 3\n", DeviceKind::Sata);
    assert_eq!(none.unsafe_shutdowns, None);
}

#[test]
fn rotation_rate_parsed_with_unit() {
    let di = parse("Rotation Rate: 7200 rpm\n", DeviceKind::Hdd);
    assert_eq!(di.rotation_rpm, Some(7200));
    let ssd = parse("Rotation Rate: Solid State Device\n", DeviceKind::Sata);
    assert_eq!(ssd.rotation_rpm, None);
}

#[test]
fn data_units_gated_on_kind() {
    let raw = "Data Units Written: 1,953,504\nData Units Read: 100\n";
    let nvme = parse(raw, DeviceKind::Nvme);
    assert_eq!(nvme.data_written_mb, Some(1_000_194));
    assert_eq!(nvme.data_read_mb, Some(51));
    // A non-NVMe device is read only through its LBA fields.
    let sata = parse(raw, DeviceKind::Sata);
    assert_eq!(sata.data_written_mb, None);
    assert_eq!(sata.data_read_mb, None);
}

#[test]
fn lba_fields_for_ata_kind() {
    let raw = "Total_LBAs_Written a b c 1,953,125,000\n";
    let di = parse(raw, DeviceKind::Sata);
    // 1,953,125,000 blocks of 512 bytes = exactly one decimal terabyte.
    assert_eq!(di.data_written_mb, Some(1_000_000));
}

#[test]
fn lba_attribute_row_reads_fourth_column() {
    let raw = "241 Total_LBAs_Written 0x0032 100 100 000 Old_age Always - 81252\n";
    let di = parse(raw, DeviceKind::Sata);
    // On a full table row the three skipped tokens are the flag and the
    // current/worst columns, so the threshold column is what is read.
    assert_eq!(di.data_written_mb, Some(0));
}

#[test]
fn protocol_and_type_follow_kind() {
    let hdd = parse("", DeviceKind::Hdd);
    assert_eq!(hdd.protocol, Some(String::from("ATA")));
    assert_eq!(hdd.device_type, Some(String::from("HDD")));
    let sata = parse("", DeviceKind::Sata);
    assert_eq!(sata.protocol, Some(String::from("ATA")));
    assert_eq!(sata.device_type, Some(String::from("SSD")));
}

#[test]
fn empty_report_leaves_everything_unset() {
    let di = parse("", DeviceKind::Nvme);
    assert_eq!(di.model, None);
    assert_eq!(di.serial, None);
    assert_eq!(di.firmware, None);
    assert_eq!(di.capacity, None);
    assert_eq!(di.capacity_str, None);
    assert_eq!(di.health_percent, None);
    assert_eq!(di.temp_c, None);
    assert_eq!(di.data_written_mb, None);
    assert_eq!(di.data_read_mb, None);
    assert_eq!(di.power_on_hours, None);
    assert_eq!(di.power_cycles, None);
    assert_eq!(di.unsafe_shutdowns, None);
    assert_eq!(di.rotation_rpm, None);
    assert!(di.smart_attributes.is_empty());
    assert!(di.partitions.is_empty());
}
