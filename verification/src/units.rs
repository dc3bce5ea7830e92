//! Unit conversion for vendor transfer counters, in exact integer
//! arithmetic.  Results are decimal megabytes, one millionth of a decimal
//! terabyte, which keeps three decimal places of the terabyte figure a
//! report viewer shows.

use vstd::prelude::*;

verus! {

/// `units * 512_000 / 1_000_000`, the exact megabyte figure for a count of
/// NVMe data units; always fits in a `u64` because the factor is below one.
pub open spec fn spec_nvme_units_mb(units: u64) -> u64 {
    (units * 512_000 / 1_000_000) as u64
}

/// `lbas * 512 / 1_000_000`, the exact megabyte figure for a count of
/// 512-byte logical blocks.
pub open spec fn spec_lbas_mb(lbas: u64) -> u64 {
    (lbas * 512 / 1_000_000) as u64
}

/// Decimal megabytes represented by `units` NVMe data units of 512,000
/// bytes each: `units * 512_000 / 1_000_000`, rounded down.
pub fn nvme_units_to_mb(units: u64) -> (r: u64)
    ensures
        r == units * 512_000 / 1_000_000,
        r == spec_nvme_units_mb(units),
{
    let wide: u128 = (units as u128) * 512_000 / 1_000_000;
    proof {
        assert((units as int) * 512_000 / 1_000_000 <= units as int) by (nonlinear_arith);
        assert((units as int) * 512_000 >= 0) by (nonlinear_arith);
    }
    wide as u64
}

/// Decimal megabytes represented by `lbas` logical blocks of 512 bytes
/// each: `lbas * 512 / 1_000_000`, rounded down.
pub fn lbas_to_mb(lbas: u64) -> (r: u64)
    ensures
        r == lbas * 512 / 1_000_000,
        r == spec_lbas_mb(lbas),
{
    let wide: u128 = (lbas as u128) * 512 / 1_000_000;
    proof {
        assert((lbas as int) * 512 / 1_000_000 <= lbas as int) by (nonlinear_arith);
        assert((lbas as int) * 512 >= 0) by (nonlinear_arith);
    }
    wide as u64
}

} // verus!
