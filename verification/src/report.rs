//! The device report parser.  It runs a fixed list of labeled extraction
//! patterns over the diagnostic tool's output and fills a health record;
//! an absent or garbled field stays unset and is never an error.
//!
//! Each pattern reads from the first occurrence of its label.  Where the
//! report may carry a field under two labels, the patterns are tried in
//! order and the first that yields a value wins.  The transfer-total
//! fields are gated on the device kind: an NVMe device is read through its
//! `Data Units` fields, any other through the `Total_LBAs` attribute rows.

use crate::attributes::{parse_smart_attributes, rows_from};
use crate::models::{DeviceKind, DiskInfo, DiskInfoV, PartitionInfoV};
use crate::text::{
    chars_of, class_end, find, find_from, has_at, is_digit, line_end, match_at,
    parse_grouped_u64, scan_class, scan_line_end, scan_trim_end, seq_value, spec_parse_grouped,
    substr, trim_end_idx, CharClass,
};
use crate::units::{lbas_to_mb, nvme_units_to_mb, spec_lbas_mb, spec_nvme_units_mb};
use vstd::prelude::*;
use vstd::string::*;

verus! {

/// The free text that follows `label` on the label's line: at least one
/// whitespace character after the label, then everything to the end of the
/// line, trimmed of trailing whitespace.  `None` when the label is absent
/// or nothing follows it.
pub open spec fn spec_label_text(t: Seq<char>, label: Seq<char>) -> Option<Seq<char>> {
    match find_from(t, label, 0) {
        None => None,
        Some(i) => {
            let j = class_end(t, i + label.len(), t.len() as int, CharClass::Ws);
            if j == i + label.len() || j == t.len() {
                None
            } else {
                Some(t.subrange(j, trim_end_idx(t, j, line_end(t, j))))
            }
        }
    }
}

/// Extract the text field labeled `label`.
fn extract_text(s: &str, t: &Vec<char>, label: &str) -> (r: Option<String>)
    requires
        t@ == s@,
    ensures
        match r {
            Some(v) => spec_label_text(t@, label@) == Some(v@),
            None => spec_label_text(t@, label@) is None,
        },
{
    let lab = chars_of(label);
    match find(t, &lab, 0) {
        None => None,
        Some(i) => {
            let j = scan_class(t, i + lab.len(), t.len(), CharClass::Ws);
            if j == i + lab.len() || j == t.len() {
                None
            } else {
                let e = scan_line_end(t, j);
                let v1 = scan_trim_end(t, j, e);
                Some(substr(s, j, v1))
            }
        }
    }
}

/// The digit-group token (digits and commas) that follows `label` after at
/// least one whitespace character.  `None` when the label is absent or no
/// such token follows.
pub open spec fn spec_label_token(t: Seq<char>, label: Seq<char>) -> Option<Seq<char>> {
    match find_from(t, label, 0) {
        None => None,
        Some(i) => {
            let j = class_end(t, i + label.len(), t.len() as int, CharClass::Ws);
            let k = class_end(t, j, t.len() as int, CharClass::DigitOrComma);
            if j > i + label.len() && k > j {
                Some(t.subrange(j, k))
            } else {
                None
            }
        }
    }
}

/// The counter labeled `label`, parsed with commas ignored; `None` when
/// the token is absent or its value does not fit in a `u64`.
pub open spec fn spec_label_counter(t: Seq<char>, label: Seq<char>) -> Option<u64> {
    match spec_label_token(t, label) {
        None => None,
        Some(tok) => spec_parse_grouped(tok),
    }
}

/// Extract the counter labeled `label`.
fn extract_counter(t: &Vec<char>, label: &str) -> (r: Option<u64>)
    ensures
        r == spec_label_counter(t@, label@),
{
    let lab = chars_of(label);
    match find(t, &lab, 0) {
        None => None,
        Some(i) => {
            let j = scan_class(t, i + lab.len(), t.len(), CharClass::Ws);
            let k = scan_class(t, j, t.len(), CharClass::DigitOrComma);
            if j > i + lab.len() && k > j {
                proof {
                    crate::text::lemma_class_end_chars(
                        t@,
                        j as int,
                        t@.len() as int,
                        CharClass::DigitOrComma,
                    );
                }
                parse_grouped_u64(t, j, k)
            } else {
                None
            }
        }
    }
}

/// The digit run of the wear-indicator field `Percentage Used:`, which
/// must be followed immediately by a percent sign.
pub open spec fn spec_health_token(t: Seq<char>) -> Option<Seq<char>> {
    match find_from(t, "Percentage Used:"@, 0) {
        None => None,
        Some(i) => {
            let le = "Percentage Used:"@.len();
            let j = class_end(t, i + le, t.len() as int, CharClass::Ws);
            let k = class_end(t, j, t.len() as int, CharClass::Digit);
            if j > i + le && k > j && k < t.len() && t[k] == '%' {
                Some(t.subrange(j, k))
            } else {
                None
            }
        }
    }
}

/// Health percentage: 100 minus the wear percentage, never below zero.
/// Absent when the wear field is absent or its value does not fit the
/// byte-sized percentage the report promises.
pub open spec fn spec_health(t: Seq<char>) -> Option<u8> {
    match spec_health_token(t) {
        None => None,
        Some(tok) => {
            if seq_value(tok) <= u8::MAX {
                if seq_value(tok) <= 100 {
                    Some((100 - seq_value(tok)) as u8)
                } else {
                    Some(0)
                }
            } else {
                None
            }
        }
    }
}

/// The health percentage complements the wear figure.  For every report:
/// when the wear field reads `N` and `N` fits the byte-sized percentage,
/// health is `100 - N` clamped to zero, and so never exceeds 100; when
/// the field is absent or out of range, health is absent.
pub proof fn lemma_health_complements_wear(t: Seq<char>)
    ensures
        match spec_health_token(t) {
            None => spec_health(t) is None,
            Some(tok) => if seq_value(tok) <= u8::MAX {
                spec_health(t) == Some(
                    if seq_value(tok) <= 100 {
                        (100 - seq_value(tok)) as u8
                    } else {
                        0u8
                    },
                ) && spec_health(t)->Some_0 <= 100
            } else {
                spec_health(t) is None
            },
        },
{
}

/// Extract the health percentage.
fn extract_health(t: &Vec<char>) -> (r: Option<u8>)
    ensures
        r == spec_health(t@),
{
    let lab = chars_of("Percentage Used:");
    match find(t, &lab, 0) {
        None => None,
        Some(i) => {
            let j = scan_class(t, i + lab.len(), t.len(), CharClass::Ws);
            let k = scan_class(t, j, t.len(), CharClass::Digit);
            if j > i + lab.len() && k > j && k < t.len() && t[k] == '%' {
                proof {
                    crate::text::lemma_class_end_chars(
                        t@,
                        j as int,
                        t@.len() as int,
                        CharClass::Digit,
                    );
                    crate::text::lemma_strip_commas_all_digits(
                        t@.subrange(j as int, k as int),
                    );
                }
                match parse_grouped_u64(t, j, k) {
                    Some(v) => {
                        if v <= 255 {
                            if v <= 100 {
                                Some(100 - (v as u8))
                            } else {
                                Some(0)
                            }
                        } else {
                            None
                        }
                    }
                    None => None,
                }
            } else {
                None
            }
        }
    }
}

/// The digit run of an `NVMe`-style temperature line: `Temperature:`,
/// whitespace, digits, whitespace, `Celsius`.
pub open spec fn spec_nvme_temp_token(t: Seq<char>) -> Option<Seq<char>> {
    match find_from(t, "Temperature:"@, 0) {
        None => None,
        Some(i) => {
            let le = "Temperature:"@.len();
            let j = class_end(t, i + le, t.len() as int, CharClass::Ws);
            let k = class_end(t, j, t.len() as int, CharClass::Digit);
            let m = class_end(t, k, t.len() as int, CharClass::Ws);
            if j > i + le && k > j && m > k && match_at(t, "Celsius"@, m) {
                Some(t.subrange(j, k))
            } else {
                None
            }
        }
    }
}

/// A digit run in `t[from..le)` whose end is followed by whitespace and an
/// opening parenthesis, or stands at the very end of the text: the shape
/// of the raw value in a `Temperature_Celsius` attribute row.
pub open spec fn spec_ata_temp_scan(t: Seq<char>, from: int, le: int) -> Option<Seq<char>>
    recommends
        0 <= from <= le <= t.len(),
    decreases le - from
        when 0 <= from <= le <= t.len()
{
    if from >= le {
        None
    } else if is_digit(t[from]) && {
        let k = class_end(t, from, le, CharClass::Digit);
        let m = class_end(t, k, t.len() as int, CharClass::Ws);
        k == t.len() || (m > k && m < t.len() && t[m] == '(')
    } {
        Some(t.subrange(from, class_end(t, from, le, CharClass::Digit)))
    } else {
        spec_ata_temp_scan(t, from + 1, le)
    }
}

/// The temperature read from an `ATA`-style `Temperature_Celsius`
/// attribute row: the first digit run on the label's line that the row
/// format marks as the temperature value.
pub open spec fn spec_ata_temp_token(t: Seq<char>) -> Option<Seq<char>> {
    match find_from(t, "Temperature_Celsius"@, 0) {
        None => None,
        Some(i) => {
            let s = i + "Temperature_Celsius"@.len();
            spec_ata_temp_scan(t, s, line_end(t, s))
        }
    }
}

/// Device temperature in Celsius.  The `NVMe`-style line is tried first;
/// only when that pattern is absent altogether is the `ATA`-style
/// attribute row read.  A value beyond `i32` leaves the field absent.
pub open spec fn spec_temperature(t: Seq<char>) -> Option<i32> {
    match spec_nvme_temp_token(t) {
        Some(tok) => {
            if seq_value(tok) <= i32::MAX {
                Some(seq_value(tok) as i32)
            } else {
                None
            }
        }
        None => match spec_ata_temp_token(t) {
            Some(tok) => {
                if seq_value(tok) <= i32::MAX {
                    Some(seq_value(tok) as i32)
                } else {
                    None
                }
            }
            None => None,
        },
    }
}

/// Parse the all-digit run `t[from..to]` as an `i32` if it fits.
fn parse_digits_i32(t: &Vec<char>, from: usize, to: usize) -> (r: Option<i32>)
    requires
        from < to <= t@.len(),
        forall|i: int| from <= i < to ==> is_digit(t@[i]),
    ensures
        r == (if seq_value(t@.subrange(from as int, to as int)) <= i32::MAX {
            Some(seq_value(t@.subrange(from as int, to as int)) as i32)
        } else {
            None::<i32>
        }),
{
    proof {
        crate::text::lemma_strip_commas_all_digits(t@.subrange(from as int, to as int));
    }
    match parse_grouped_u64(t, from, to) {
        Some(v) => {
            if v <= 0x7fff_ffff {
                Some(v as i32)
            } else {
                None
            }
        }
        None => None,
    }
}

/// Extract the device temperature.
fn extract_temperature(t: &Vec<char>) -> (r: Option<i32>)
    ensures
        r == spec_temperature(t@),
{
    let nvme_lab = chars_of("Temperature:");
    let celsius = chars_of("Celsius");
    match find(t, &nvme_lab, 0) {
        Some(i) => {
            let j = scan_class(t, i + nvme_lab.len(), t.len(), CharClass::Ws);
            let k = scan_class(t, j, t.len(), CharClass::Digit);
            let m = scan_class(t, k, t.len(), CharClass::Ws);
            if j > i + nvme_lab.len() && k > j && m > k && has_at(t, &celsius, m) {
                proof {
                    crate::text::lemma_class_end_chars(
                        t@,
                        j as int,
                        t@.len() as int,
                        CharClass::Digit,
                    );
                }
                parse_digits_i32(t, j, k)
            } else {
                extract_ata_temperature(t)
            }
        }
        None => extract_ata_temperature(t),
    }
}

/// Extract the `ATA`-style temperature row value.
fn extract_ata_temperature(t: &Vec<char>) -> (r: Option<i32>)
    requires
        spec_nvme_temp_token(t@) is None,
    ensures
        r == spec_temperature(t@),
{
    let lab = chars_of("Temperature_Celsius");
    match find(t, &lab, 0) {
        None => None,
        Some(i) => {
            let start = i + lab.len();
            let le = scan_line_end(t, start);
            let mut from: usize = start;
            loop
                invariant
                    start <= from <= le <= t@.len(),
                    le == line_end(t@, start as int),
                    spec_nvme_temp_token(t@) is None,
                    lab@ == "Temperature_Celsius"@,
                    find_from(t@, lab@, 0) == Some(i as int),
                    start as int == i + lab@.len(),
                    spec_ata_temp_scan(t@, start as int, le as int) == spec_ata_temp_scan(
                        t@,
                        from as int,
                        le as int,
                    ),
                decreases le - from,
            {
                if from >= le {
                    return None;
                }
                let c = t[from];
                if '0' <= c && c <= '9' {
                    let k = scan_class(t, from, le, CharClass::Digit);
                    let m = scan_class(t, k, t.len(), CharClass::Ws);
                    let suffix_ok = k == t.len() || (m > k && m < t.len() && t[m] == '(');
                    if suffix_ok {
                        proof {
                            crate::text::lemma_class_end_chars(
                                t@,
                                from as int,
                                le as int,
                                CharClass::Digit,
                            );
                        }
                        return parse_digits_i32(t, from, k);
                    }
                }
                from += 1;
            }
        }
    }
}

/// Value of an all-digit run when it is non-empty and fits in a `u64`.
pub open spec fn spec_parse_digits(s: Seq<char>) -> Option<u64> {
    if s.len() > 0 && seq_value(s) <= u64::MAX {
        Some(seq_value(s) as u64)
    } else {
        None
    }
}

/// The digit run of the `Rotation Rate:` line: whitespace, digits,
/// whitespace, `rpm`.  Solid-state reports do not carry the line.
pub open spec fn spec_rotation_token(t: Seq<char>) -> Option<Seq<char>> {
    match find_from(t, "Rotation Rate:"@, 0) {
        None => None,
        Some(i) => {
            let le = "Rotation Rate:"@.len();
            let j = class_end(t, i + le, t.len() as int, CharClass::Ws);
            let k = class_end(t, j, t.len() as int, CharClass::Digit);
            let m = class_end(t, k, t.len() as int, CharClass::Ws);
            if j > i + le && k > j && m > k && match_at(t, "rpm"@, m) {
                Some(t.subrange(j, k))
            } else {
                None
            }
        }
    }
}

/// Rotation speed in revolutions per minute, when the report carries it.
pub open spec fn spec_rotation_rpm(t: Seq<char>) -> Option<u64> {
    match spec_rotation_token(t) {
        None => None,
        Some(tok) => spec_parse_digits(tok),
    }
}

/// Extract the rotation speed.
fn extract_rotation(t: &Vec<char>) -> (r: Option<u64>)
    ensures
        r == spec_rotation_rpm(t@),
{
    let lab = chars_of("Rotation Rate:");
    let rpm = chars_of("rpm");
    match find(t, &lab, 0) {
        None => None,
        Some(i) => {
            let j = scan_class(t, i + lab.len(), t.len(), CharClass::Ws);
            let k = scan_class(t, j, t.len(), CharClass::Digit);
            let m = scan_class(t, k, t.len(), CharClass::Ws);
            if j > i + lab.len() && k > j && m > k && has_at(t, &rpm, m) {
                proof {
                    crate::text::lemma_class_end_chars(
                        t@,
                        j as int,
                        t@.len() as int,
                        CharClass::Digit,
                    );
                    crate::text::lemma_strip_commas_all_digits(
                        t@.subrange(j as int, k as int),
                    );
                }
                parse_grouped_u64(t, j, k)
            } else {
                None
            }
        }
    }
}

/// The digit-group token in the raw-value column of a `Total_LBAs` row:
/// the label, then three whitespace-separated tokens, then the group.
pub open spec fn spec_lba_token(t: Seq<char>, label: Seq<char>) -> Option<Seq<char>> {
    match find_from(t, label, 0) {
        None => None,
        Some(i) => {
            let j1 = class_end(t, i + label.len(), t.len() as int, CharClass::Ws);
            let e1 = class_end(t, j1, t.len() as int, CharClass::NonWs);
            let j2 = class_end(t, e1, t.len() as int, CharClass::Ws);
            let e2 = class_end(t, j2, t.len() as int, CharClass::NonWs);
            let j3 = class_end(t, e2, t.len() as int, CharClass::Ws);
            let e3 = class_end(t, j3, t.len() as int, CharClass::NonWs);
            let j4 = class_end(t, e3, t.len() as int, CharClass::Ws);
            let k = class_end(t, j4, t.len() as int, CharClass::DigitOrComma);
            if j1 > i + label.len() && e1 > j1 && j2 > e1 && e2 > j2 && j3 > e2 && e3 > j3 && j4
                > e3 && k > j4 {
                Some(t.subrange(j4, k))
            } else {
                None
            }
        }
    }
}

/// The `Total_LBAs` counter labeled `label`, parsed with commas ignored.
pub open spec fn spec_lba_counter(t: Seq<char>, label: Seq<char>) -> Option<u64> {
    match spec_lba_token(t, label) {
        None => None,
        Some(tok) => spec_parse_grouped(tok),
    }
}

/// Extract a `Total_LBAs` counter.
fn extract_lba_counter(t: &Vec<char>, label: &str) -> (r: Option<u64>)
    ensures
        r == spec_lba_counter(t@, label@),
{
    let lab = chars_of(label);
    match find(t, &lab, 0) {
        None => None,
        Some(i) => {
            let j1 = scan_class(t, i + lab.len(), t.len(), CharClass::Ws);
            let e1 = scan_class(t, j1, t.len(), CharClass::NonWs);
            let j2 = scan_class(t, e1, t.len(), CharClass::Ws);
            let e2 = scan_class(t, j2, t.len(), CharClass::NonWs);
            let j3 = scan_class(t, e2, t.len(), CharClass::Ws);
            let e3 = scan_class(t, j3, t.len(), CharClass::NonWs);
            let j4 = scan_class(t, e3, t.len(), CharClass::Ws);
            let k = scan_class(t, j4, t.len(), CharClass::DigitOrComma);
            if j1 > i + lab.len() && e1 > j1 && j2 > e1 && e2 > j2 && j3 > e2 && e3 > j3 && j4
                > e3 && k > j4 {
                proof {
                    crate::text::lemma_class_end_chars(
                        t@,
                        j4 as int,
                        t@.len() as int,
                        CharClass::DigitOrComma,
                    );
                }
                parse_grouped_u64(t, j4, k)
            } else {
                None
            }
        }
    }
}

/// Lifetime data written, in decimal megabytes.  An NVMe device reports
/// `Data Units Written` (units of 512,000 bytes); any other kind reports
/// `Total_LBAs_Written` (512-byte blocks).  Each kind is read only through
/// its own field.
pub open spec fn spec_data_written(t: Seq<char>, kind: DeviceKind) -> Option<u64> {
    if kind == DeviceKind::Nvme {
        match spec_label_counter(t, "Data Units Written:"@) {
            None => None,
            Some(u) => Some(spec_nvme_units_mb(u)),
        }
    } else {
        match spec_lba_counter(t, "Total_LBAs_Written"@) {
            None => None,
            Some(l) => Some(spec_lbas_mb(l)),
        }
    }
}

/// Lifetime data read, in decimal megabytes; the counterpart of
/// [`spec_data_written`].
pub open spec fn spec_data_read(t: Seq<char>, kind: DeviceKind) -> Option<u64> {
    if kind == DeviceKind::Nvme {
        match spec_label_counter(t, "Data Units Read:"@) {
            None => None,
            Some(u) => Some(spec_nvme_units_mb(u)),
        }
    } else {
        match spec_lba_counter(t, "Total_LBAs_Read"@) {
            None => None,
            Some(l) => Some(spec_lbas_mb(l)),
        }
    }
}

/// Position of the `GB` or `TB` unit word that follows position `k` after
/// at least one whitespace character.
pub open spec fn spec_unit_pos(t: Seq<char>, k: int) -> Option<int>
    recommends
        0 <= k <= t.len(),
{
    let m = class_end(t, k, t.len() as int, CharClass::Ws);
    if m > k && (match_at(t, "GB"@, m) || match_at(t, "TB"@, m)) {
        Some(m)
    } else {
        None
    }
}

/// The first number in `t[from..le)` that a unit word follows: a digit
/// run, optionally a dot and a further digit run, then whitespace and
/// `GB` or `TB`.  Returns the number's extent.
pub open spec fn spec_cap_num_scan(t: Seq<char>, from: int, le: int) -> Option<(int, int)>
    recommends
        0 <= from <= le <= t.len(),
    decreases le - from
        when 0 <= from <= le <= t.len()
{
    if from >= le {
        None
    } else if is_digit(t[from]) && {
        let k1 = class_end(t, from, le, CharClass::Digit);
        (k1 < le && t[k1] == '.' && k1 + 1 < le && is_digit(t[k1 + 1]) && spec_unit_pos(
            t,
            class_end(t, k1 + 1, le, CharClass::Digit),
        ) is Some) || spec_unit_pos(t, k1) is Some
    } {
        let k1 = class_end(t, from, le, CharClass::Digit);
        if k1 < le && t[k1] == '.' && k1 + 1 < le && is_digit(t[k1 + 1]) && spec_unit_pos(
            t,
            class_end(t, k1 + 1, le, CharClass::Digit),
        ) is Some {
            Some((from, class_end(t, k1 + 1, le, CharClass::Digit)))
        } else {
            Some((from, k1))
        }
    } else {
        spec_cap_num_scan(t, from + 1, le)
    }
}

/// The capacity under one of its labels: a byte count in digit groups,
/// then a bracketed human-readable figure with a `GB` or `TB` unit.
/// Yields the byte count and the display text `number unit`.
pub open spec fn spec_capacity_at(t: Seq<char>, label: Seq<char>) -> Option<(u64, Seq<char>)> {
    match find_from(t, label, 0) {
        None => None,
        Some(i) => {
            let j = class_end(t, i + label.len(), t.len() as int, CharClass::Ws);
            let k = class_end(t, j, t.len() as int, CharClass::DigitOrComma);
            let m = class_end(t, k, t.len() as int, CharClass::Ws);
            if j > i + label.len() && k > j && m > k && m < t.len() && t[m] == '[' {
                match spec_cap_num_scan(t, m + 1, line_end(t, m + 1)) {
                    None => None,
                    Some((ns, ne)) => match spec_unit_pos(t, ne) {
                        None => None,
                        Some(up) => match spec_parse_grouped(t.subrange(j, k)) {
                            None => None,
                            Some(bytes) => Some(
                                (bytes, t.subrange(ns, ne) + " "@ + t.subrange(up, up + 2)),
                            ),
                        },
                    },
                }
            } else {
                None
            }
        }
    }
}

/// The device capacity, read from the first of its three known labels
/// that yields a complete value.
pub open spec fn spec_capacity(t: Seq<char>) -> Option<(u64, Seq<char>)> {
    if spec_capacity_at(t, "Total NVM Capacity:"@) is Some {
        spec_capacity_at(t, "Total NVM Capacity:"@)
    } else if spec_capacity_at(t, "Namespace 1 Size/Capacity:"@) is Some {
        spec_capacity_at(t, "Namespace 1 Size/Capacity:"@)
    } else {
        spec_capacity_at(t, "User Capacity:"@)
    }
}

/// Extract the capacity under one label.
fn extract_capacity_at(s: &str, t: &Vec<char>, label: &str) -> (r: Option<(u64, String)>)
    requires
        t@ == s@,
    ensures
        match r {
            Some(p) => spec_capacity_at(t@, label@) == Some((p.0, p.1@)),
            None => spec_capacity_at(t@, label@) is None,
        },
{
    let lab = chars_of(label);
    let gb = chars_of("GB");
    let tb = chars_of("TB");
    match find(t, &lab, 0) {
        None => None,
        Some(i) => {
            let j = scan_class(t, i + lab.len(), t.len(), CharClass::Ws);
            let k = scan_class(t, j, t.len(), CharClass::DigitOrComma);
            let m = scan_class(t, k, t.len(), CharClass::Ws);
            if j > i + lab.len() && k > j && m > k && m < t.len() && t[m] == '[' {
                let le = scan_line_end(t, m + 1);
                let mut from: usize = m + 1;
                loop
                    invariant
                        t@ == s@,
                        m + 1 <= from <= le <= t@.len(),
                        le == line_end(t@, m + 1),
                        gb@ == "GB"@,
                        tb@ == "TB"@,
                        lab@ == label@,
                        find_from(t@, lab@, 0) == Some(i as int),
                        j == class_end(t@, i + lab@.len(), t@.len() as int, CharClass::Ws),
                        k == class_end(t@, j as int, t@.len() as int, CharClass::DigitOrComma),
                        m == class_end(t@, k as int, t@.len() as int, CharClass::Ws),
                        j > i + lab@.len() && k > j && m > k && m < t@.len() && t@[m as int]
                            == '[',
                        spec_cap_num_scan(t@, m + 1, le as int) == spec_cap_num_scan(
                            t@,
                            from as int,
                            le as int,
                        ),
                    decreases le - from,
                {
                    if from >= le {
                        return None;
                    }
                    let c = t[from];
                    if '0' <= c && c <= '9' {
                        let k1 = scan_class(t, from, le, CharClass::Digit);
                        let frac_ok: bool = if k1 < le && t[k1] == '.' && k1 + 1 < le {
                            let c2 = t[k1 + 1];
                            '0' <= c2 && c2 <= '9'
                        } else {
                            false
                        };
                        let mut ne: usize = k1;
                        let mut matched: bool = false;
                        if frac_ok {
                            let k2 = scan_class(t, k1 + 1, le, CharClass::Digit);
                            let m2 = scan_class(t, k2, t.len(), CharClass::Ws);
                            if m2 > k2 && (has_at(t, &gb, m2) || has_at(t, &tb, m2)) {
                                ne = k2;
                                matched = true;
                            }
                        }
                        if !matched {
                            let m1 = scan_class(t, k1, t.len(), CharClass::Ws);
                            if m1 > k1 && (has_at(t, &gb, m1) || has_at(t, &tb, m1)) {
                                ne = k1;
                                matched = true;
                            }
                        }
                        if matched {
                            let up = scan_class(t, ne, t.len(), CharClass::Ws);
                            proof {
                                reveal_strlit("GB");
                                reveal_strlit("TB");
                                crate::text::lemma_class_end_chars(
                                    t@,
                                    j as int,
                                    t@.len() as int,
                                    CharClass::DigitOrComma,
                                );
                                assert(spec_cap_num_scan(t@, m + 1, le as int) == Some(
                                    (from as int, ne as int),
                                ));
                                assert(spec_unit_pos(t@, ne as int) == Some(up as int));
                            }
                            match parse_grouped_u64(t, j, k) {
                                None => {
                                    return None;
                                }
                                Some(bytes) => {
                                    let num = substr(s, from, ne);
                                    let unit = substr(s, up, up + 2);
                                    let disp = num.concat(" ").concat(unit.as_str());
                                    return Some((bytes, disp));
                                }
                            }
                        }
                    }
                    from += 1;
                }
            } else {
                None
            }
        }
    }
}

/// Extract the capacity, trying the three labels in order.
fn extract_capacity(s: &str, t: &Vec<char>) -> (r: Option<(u64, String)>)
    requires
        t@ == s@,
    ensures
        match r {
            Some(p) => spec_capacity(t@) == Some((p.0, p.1@)),
            None => spec_capacity(t@) is None,
        },
{
    match extract_capacity_at(s, t, "Total NVM Capacity:") {
        Some(p) => Some(p),
        None => match extract_capacity_at(s, t, "Namespace 1 Size/Capacity:") {
            Some(p) => Some(p),
            None => extract_capacity_at(s, t, "User Capacity:"),
        },
    }
}

/// The communication protocol a device kind implies.
pub open spec fn spec_protocol(kind: DeviceKind) -> Seq<char> {
    if kind == DeviceKind::Nvme {
        "NVMe"@
    } else {
        "ATA"@
    }
}

/// The device type a device kind implies.
pub open spec fn spec_device_type(kind: DeviceKind) -> Seq<char> {
    if kind == DeviceKind::Hdd {
        "HDD"@
    } else {
        "SSD"@
    }
}

/// The model name: the `Model Number:` line of an NVMe report when
/// present, otherwise the `Device Model:` line of an ATA report.
pub open spec fn spec_model(t: Seq<char>) -> Option<Seq<char>> {
    if spec_label_text(t, "Model Number:"@) is Some {
        spec_label_text(t, "Model Number:"@)
    } else {
        spec_label_text(t, "Device Model:"@)
    }
}

/// The power-cycle count: the `Power Cycles:` line when its pattern is
/// present, otherwise the first number of the `Power_Cycle_Count`
/// attribute row's line.
pub open spec fn spec_power_cycles(t: Seq<char>) -> Option<u64> {
    if spec_label_token(t, "Power Cycles:"@) is Some {
        spec_label_counter(t, "Power Cycles:"@)
    } else {
        match spec_first_line_number(t, "Power_Cycle_Count"@) {
            None => None,
            Some(tok) => spec_parse_digits(tok),
        }
    }
}

/// The power-on-hours count, read like [`spec_power_cycles`] from its two
/// possible labels.
pub open spec fn spec_power_on_hours(t: Seq<char>) -> Option<u64> {
    if spec_label_token(t, "Power On Hours:"@) is Some {
        spec_label_counter(t, "Power On Hours:"@)
    } else {
        match spec_first_line_number(t, "Power_On_Hours"@) {
            None => None,
            Some(tok) => spec_parse_digits(tok),
        }
    }
}

/// The first digit run on `label`'s line after the label itself.
pub open spec fn spec_first_line_number(t: Seq<char>, label: Seq<char>) -> Option<Seq<char>> {
    match find_from(t, label, 0) {
        None => None,
        Some(i) => {
            let s = i + label.len();
            spec_first_digit_run(t, s, line_end(t, s))
        }
    }
}

/// The first digit run in `t[from..le)`.
pub open spec fn spec_first_digit_run(t: Seq<char>, from: int, le: int) -> Option<Seq<char>>
    recommends
        0 <= from <= le <= t.len(),
    decreases le - from
        when 0 <= from <= le <= t.len()
{
    if from >= le {
        None
    } else if is_digit(t[from]) {
        Some(t.subrange(from, class_end(t, from, le, CharClass::Digit)))
    } else {
        spec_first_digit_run(t, from + 1, le)
    }
}

/// Extract the first digit run on `label`'s line, as a `u64`.
fn extract_first_line_number(t: &Vec<char>, label: &str) -> (r: Option<u64>)
    ensures
        r == (match spec_first_line_number(t@, label@) {
            None => None::<u64>,
            Some(tok) => spec_parse_digits(tok),
        }),
{
    let lab = chars_of(label);
    match find(t, &lab, 0) {
        None => None,
        Some(i) => {
            let start = i + lab.len();
            let le = scan_line_end(t, start);
            let mut from: usize = start;
            loop
                invariant
                    start <= from <= le <= t@.len(),
                    le == line_end(t@, start as int),
                    lab@ == label@,
                    find_from(t@, lab@, 0) == Some(i as int),
                    start as int == i + lab@.len(),
                    spec_first_digit_run(t@, start as int, le as int) == spec_first_digit_run(
                        t@,
                        from as int,
                        le as int,
                    ),
                decreases le - from,
            {
                if from >= le {
                    return None;
                }
                let c = t[from];
                if '0' <= c && c <= '9' {
                    let k = scan_class(t, from, le, CharClass::Digit);
                    proof {
                        crate::text::lemma_class_end_chars(
                            t@,
                            from as int,
                            le as int,
                            CharClass::Digit,
                        );
                        crate::text::lemma_strip_commas_all_digits(
                            t@.subrange(from as int, k as int),
                        );
                    }
                    return parse_grouped_u64(t, from, k);
                }
                from += 1;
            }
        }
    }
}

/// Extract a counter that has a primary labeled line and an attribute-row
/// fallback, the fallback read only when the primary pattern is absent.
fn extract_counter_with_fallback(t: &Vec<char>, primary: &str, fallback: &str) -> (r: Option<
    u64,
>)
    ensures
        r == (if spec_label_token(t@, primary@) is Some {
            spec_label_counter(t@, primary@)
        } else {
            match spec_first_line_number(t@, fallback@) {
                None => None::<u64>,
                Some(tok) => spec_parse_digits(tok),
            }
        }),
{
    let lab = chars_of(primary);
    match find(t, &lab, 0) {
        Some(i) => {
            let j = scan_class(t, i + lab.len(), t.len(), CharClass::Ws);
            let k = scan_class(t, j, t.len(), CharClass::DigitOrComma);
            if j > i + lab.len() && k > j {
                proof {
                    crate::text::lemma_class_end_chars(
                        t@,
                        j as int,
                        t@.len() as int,
                        CharClass::DigitOrComma,
                    );
                }
                parse_grouped_u64(t, j, k)
            } else {
                extract_first_line_number(t, fallback)
            }
        }
        None => extract_first_line_number(t, fallback),
    }
}

/// The complete record that parsing a report yields: every field given by
/// its extraction pattern, the attribute table in source order, and no
/// partition data.
pub open spec fn spec_report_record(dev: Seq<char>, raw: Seq<char>, kind: DeviceKind) -> DiskInfoV {
    DiskInfoV {
        dev,
        kind,
        model: spec_model(raw),
        serial: spec_label_text(raw, "Serial Number:"@),
        firmware: spec_label_text(raw, "Firmware Version:"@),
        capacity: match spec_capacity(raw) {
            Some(p) => Some(p.0),
            None => None,
        },
        capacity_str: match spec_capacity(raw) {
            Some(p) => Some(p.1),
            None => None,
        },
        health_percent: spec_health(raw),
        temp_c: spec_temperature(raw),
        data_written_mb: spec_data_written(raw, kind),
        data_read_mb: spec_data_read(raw, kind),
        power_on_hours: spec_power_on_hours(raw),
        power_cycles: spec_power_cycles(raw),
        unsafe_shutdowns: spec_label_counter(raw, "Unsafe Shutdowns:"@),
        rotation_rpm: spec_rotation_rpm(raw),
        protocol: Some(spec_protocol(kind)),
        device_type: Some(spec_device_type(kind)),
        smart_attributes: rows_from(raw, 0),
        partitions: Seq::empty(),
    }
}

/// Parse one device's diagnostic report into a health record.  Never
/// fails: a field whose pattern is absent, or whose value cannot be read
/// completely, stays unset.  `dev` is the device path the record is keyed
/// by and `kind` the classification assigned at discovery time; the
/// protocol and device-type labels follow from `kind` alone.  Partition
/// data is not part of the report and is left empty here.
pub fn parse_smart_report(dev: String, raw: &str, kind: DeviceKind) -> (r: DiskInfo)
    ensures
        r@ == spec_report_record(dev@, raw@, kind),
        r@.dev == dev@,
        r@.kind == kind,
        r@.model == spec_model(raw@),
        r@.serial == spec_label_text(raw@, "Serial Number:"@),
        r@.firmware == spec_label_text(raw@, "Firmware Version:"@),
        r@.protocol == Some(spec_protocol(kind)),
        r@.device_type == Some(spec_device_type(kind)),
        r@.capacity == (match spec_capacity(raw@) {
            Some(p) => Some(p.0),
            None => None::<u64>,
        }),
        r@.capacity_str == (match spec_capacity(raw@) {
            Some(p) => Some(p.1),
            None => None::<Seq<char>>,
        }),
        r@.health_percent == spec_health(raw@),
        r@.temp_c == spec_temperature(raw@),
        r@.data_written_mb == spec_data_written(raw@, kind),
        r@.data_read_mb == spec_data_read(raw@, kind),
        r@.power_on_hours == spec_power_on_hours(raw@),
        r@.power_cycles == spec_power_cycles(raw@),
        r@.unsafe_shutdowns == spec_label_counter(raw@, "Unsafe Shutdowns:"@),
        r@.rotation_rpm == spec_rotation_rpm(raw@),
        r@.smart_attributes == rows_from(raw@, 0),
        r@.partitions == Seq::<PartitionInfoV>::empty(),
{
    let t = chars_of(raw);
    let model = match extract_text(raw, &t, "Model Number:") {
        Some(v) => Some(v),
        None => extract_text(raw, &t, "Device Model:"),
    };
    let serial = extract_text(raw, &t, "Serial Number:");
    let firmware = extract_text(raw, &t, "Firmware Version:");
    let protocol = if kind == DeviceKind::Nvme {
        String::from_str("NVMe")
    } else {
        String::from_str("ATA")
    };
    let device_type = if kind == DeviceKind::Hdd {
        String::from_str("HDD")
    } else {
        String::from_str("SSD")
    };
    let (capacity, capacity_str) = match extract_capacity(raw, &t) {
        Some(p) => (Some(p.0), Some(p.1)),
        None => (None, None),
    };
    let health_percent = extract_health(&t);
    let temp_c = extract_temperature(&t);
    let (data_written_mb, data_read_mb) = if kind == DeviceKind::Nvme {
        let w = match extract_counter(&t, "Data Units Written:") {
            Some(u) => Some(nvme_units_to_mb(u)),
            None => None,
        };
        let rd = match extract_counter(&t, "Data Units Read:") {
            Some(u) => Some(nvme_units_to_mb(u)),
            None => None,
        };
        (w, rd)
    } else {
        let w = match extract_lba_counter(&t, "Total_LBAs_Written") {
            Some(l) => Some(lbas_to_mb(l)),
            None => None,
        };
        let rd = match extract_lba_counter(&t, "Total_LBAs_Read") {
            Some(l) => Some(lbas_to_mb(l)),
            None => None,
        };
        (w, rd)
    };
    let power_cycles = extract_counter_with_fallback(&t, "Power Cycles:", "Power_Cycle_Count");
    let power_on_hours = extract_counter_with_fallback(
        &t,
        "Power On Hours:",
        "Power_On_Hours",
    );
    let unsafe_shutdowns = extract_counter(&t, "Unsafe Shutdowns:");
    let rotation_rpm = extract_rotation(&t);
    let smart_attributes = parse_smart_attributes(raw);
    let r = DiskInfo {
        dev,
        kind,
        model,
        serial,
        firmware,
        capacity,
        capacity_str,
        health_percent,
        temp_c,
        data_written_mb,
        data_read_mb,
        power_on_hours,
        power_cycles,
        unsafe_shutdowns,
        rotation_rpm,
        protocol: Some(protocol),
        device_type: Some(device_type),
        smart_attributes,
        partitions: Vec::new(),
    };
    proof {
        assert(r@.partitions =~= Seq::<PartitionInfoV>::empty());
    }
    r
}

} // verus!
