//! Verified core of a storage-device health scanner.
//!
//! The library turns the text that a drive-diagnostic tool prints into a
//! typed health record: it classifies candidate block devices by name,
//! extracts labeled fields from a report, parses the SMART attribute table,
//! normalizes vendor counters to decimal units, and correlates mounted
//! filesystems with a device.  Every function is specified and verified;
//! the surrounding process invocation and filesystem probing live outside
//! the library and hand it plain values.

pub mod attributes;
pub mod models;
pub mod partitions;
pub mod report;
pub mod scan;
pub mod text;
pub mod units;
