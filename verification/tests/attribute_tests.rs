//! The attribute-table parser and the status classification rule.

use disk_health::attributes::{attribute_status, parse_smart_attributes};
use disk_health::models::AttributeStatus;

#[test]
fn zero_threshold_is_always_good() {
    assert_eq!(attribute_status(0, 0), AttributeStatus::Good);
    assert_eq!(attribute_status(1, 0), AttributeStatus::Good);
    assert_eq!(attribute_status(100, 0), AttributeStatus::Good);
    assert_eq!(attribute_status(u32::MAX, 0), AttributeStatus::Good);
}

#[test]
fn status_around_the_threshold() {
    let t = 50;
    assert_eq!(attribute_status(t, t), AttributeStatus::Critical);
    assert_eq!(attribute_status(t - 1, t), AttributeStatus::Critical);
    assert_eq!(attribute_status(t + 1, t), AttributeStatus::Warning);
    assert_eq!(attribute_status(t + 10, t), AttributeStatus::Warning);
    assert_eq!(attribute_status(t + 11, t), AttributeStatus::Good);
}

#[test]
fn status_no_overflow_near_max() {
    assert_eq!(attribute_status(u32::MAX, u32::MAX - 5), AttributeStatus::Warning);
}

#[test]
fn table_rows_parsed_in_order() {
    let raw = "SMART Attributes Data Structure revision number: 1\n\
               ID# ATTRIBUTE_NAME FLAG VALUE WORST THRESH TYPE UPDATED WHEN_FAILED RAW_VALUE\n\
               5 Reallocated_Sector_Ct 0x0033 100 100 010 Pre-fail Always - 0\n\
               9 Power_On_Hours 0x0032 095 095 000 Old_age Always - 23815\n\
               194 Temperature_Celsius 0x0022 036 049 000 Old_age Always - 36 (Min/Max 21/49)\n";
    let rows = parse_smart_attributes(raw);
    assert_eq!(rows.len(), 3);
    assert_eq!(rows[0].id, "5");
    assert_eq!(rows[0].name, "Reallocated_Sector_Ct");
    assert_eq!(rows[0].current, "100");
    assert_eq!(rows[0].worst, "100");
    assert_eq!(rows[0].threshold, "010");
    assert_eq!(rows[0].raw_value, "0");
    assert_eq!(rows[0].status, AttributeStatus::Good);
    assert_eq!(rows[1].id, "9");
    assert_eq!(rows[1].status, AttributeStatus::Good);
    assert_eq!(rows[2].id, "194");
    assert_eq!(rows[2].raw_value, "36 (Min/Max 21/49)");
    assert_eq!(rows[2].status, AttributeStatus::Good);
}

#[test]
fn row_status_uses_current_and_threshold() {
    let raw = "1 Raw_Read_Error_Rate 0x002f 010 010 010 Pre-fail Always - 0\n\
               2 Throughput_Performance 0x0026 055 055 050 Old_age Always - 0\n\
               3 Spin_Up_Time 0x0023 070 070 050 Pre-fail Always - 0\n";
    let rows = parse_smart_attributes(raw);
    assert_eq!(rows.len(), 3);
    // current == threshold
    assert_eq!(rows[0].status, AttributeStatus::Critical);
    // current within ten of threshold
    assert_eq!(rows[1].status, AttributeStatus::Warning);
    // current well above threshold
    assert_eq!(rows[2].status, AttributeStatus::Good);
}

#[test]
fn malformed_lines_are_skipped() {
    let raw = "not a row\n\
               5 MissingFlag 100 100 010 Pre-fail Always - 0\n\
               5 Bad_Flag 0xZZZZ 100 100 010 Pre-fail Always - 0\n\
               5 Upper_Hex 0x00AB 100 100 010 Pre-fail Always - 0\n\
               5 No_Raw_Value 0x0033 100 100 010 Pre-fail Always\n\
               5 Good_Row 0x0033 100 100 010 Pre-fail Always - 7\n";
    let rows = parse_smart_attributes(raw);
    assert_eq!(rows.len(), 1);
    assert_eq!(rows[0].name, "Good_Row");
    assert_eq!(rows[0].raw_value, "7");
}

#[test]
fn unparsable_columns_read_as_zero() {
    // A current value beyond u32 parses as 0, which sits below the
    // threshold: the row classifies as critical.
    let raw = "7 Huge_Current 0x0033 99999999999 100 010 Pre-fail Always - 0\n";
    let rows = parse_smart_attributes(raw);
    assert_eq!(rows.len(), 1);
    assert_eq!(rows[0].current, "99999999999");
    assert_eq!(rows[0].status, AttributeStatus::Critical);
}

#[test]
fn empty_input_has_no_rows() {
    assert!(parse_smart_attributes("").is_empty());
}
