//! The partition correlator.  A mounted filesystem belongs to a device
//! when its reported device name contains the device's base name as a
//! substring — a deliberately simple containment rule.  Space figures are
//! derived in exact integer arithmetic: decimal megabytes from the byte
//! counts, and a usage ratio in hundredths of a percent, guarded against
//! division by zero.

use crate::models::{MountedFsInfo, MountedFsInfoV, PartitionInfo, PartitionInfoV};
use crate::text::{chars_of, contains_seq, find, lemma_find_from_spec};
use vstd::prelude::*;

verus! {

/// The partition record one mounted-filesystem entry yields.  With
/// `total_mb` and `free_mb` the byte counts scaled to decimal megabytes:
/// used space is their difference (zero when the reported free space
/// exceeds the total), and the usage ratio is `used / total`, in
/// hundredths of a percent, `0` when the total is zero.
pub open spec fn spec_partition_of(m: MountedFsInfoV) -> PartitionInfoV {
    let total_mb = m.total_bytes as int / 1_000_000;
    let free_mb = m.available_bytes as int / 1_000_000;
    let used_mb = if total_mb >= free_mb {
        total_mb - free_mb
    } else {
        0
    };
    PartitionInfoV {
        mount_point: m.mount_point,
        fs_type: m.fs_type,
        total_mb: total_mb as u64,
        used_mb: used_mb as u64,
        free_mb: free_mb as u64,
        used_percent_hundredths: if total_mb > 0 {
            (used_mb * 10_000 / total_mb) as u64
        } else {
            0
        },
    }
}

/// Build the partition record for one mounted-filesystem entry.
pub fn make_partition(m: &MountedFsInfo) -> (r: PartitionInfo)
    ensures
        r@ == spec_partition_of(m@),
        r@.used_mb == if r@.total_mb >= r@.free_mb {
            r@.total_mb - r@.free_mb
        } else {
            0
        },
        r@.used_percent_hundredths == if r@.total_mb > 0 {
            r@.used_mb * 10_000 / (r@.total_mb as int)
        } else {
            0
        },
{
    let total_mb: u64 = m.total_bytes / 1_000_000;
    let free_mb: u64 = m.available_bytes / 1_000_000;
    let used_mb: u64 = if total_mb >= free_mb {
        total_mb - free_mb
    } else {
        0
    };
    proof {
        assert(m.total_bytes as int / 1_000_000 <= 18_446_744_073_709int) by (nonlinear_arith)
            requires
                m.total_bytes <= u64::MAX,
        ;
        assert(used_mb * 10_000 <= 18_446_744_073_709int * 10_000) by (nonlinear_arith)
            requires
                0 <= used_mb <= 18_446_744_073_709int,
        ;
    }
    let used_percent_hundredths: u64 = if total_mb > 0 {
        used_mb * 10_000 / total_mb
    } else {
        0
    };
    PartitionInfo {
        mount_point: m.mount_point.clone(),
        fs_type: m.fs_type.clone(),
        total_mb,
        used_mb,
        free_mb,
        used_percent_hundredths,
    }
}

/// The partition records of every mounted filesystem whose device name
/// contains `dev_name`, in inventory order.
pub open spec fn spec_partitions_of(dev_name: Seq<char>, mounts: Seq<MountedFsInfoV>) -> Seq<
    PartitionInfoV,
>
    decreases mounts.len(),
{
    if mounts.len() == 0 {
        Seq::empty()
    } else {
        let head = if contains_seq(mounts[0].device_name, dev_name) {
            seq![spec_partition_of(mounts[0])]
        } else {
            Seq::empty()
        };
        head + spec_partitions_of(dev_name, mounts.drop_first())
    }
}

/// Collect the partition records that belong to the device whose base
/// name is `dev_name`.
pub fn correlate_partitions(dev_name: &str, mounts: &Vec<MountedFsInfo>) -> (r: Vec<
    PartitionInfo,
>)
    ensures
        r.deep_view() == spec_partitions_of(dev_name@, mounts.deep_view()),
{
    let pat = chars_of(dev_name);
    let mut out: Vec<PartitionInfo> = Vec::new();
    let mut i: usize = 0;
    proof {
        assert(mounts.deep_view().skip(0) =~= mounts.deep_view());
        assert(out.deep_view() + spec_partitions_of(dev_name@, mounts.deep_view())
            =~= spec_partitions_of(dev_name@, mounts.deep_view()));
    }
    while i < mounts.len()
        invariant
            i <= mounts@.len(),
            pat@ == dev_name@,
            out.deep_view() + spec_partitions_of(dev_name@, mounts.deep_view().skip(i as int))
                == spec_partitions_of(dev_name@, mounts.deep_view()),
        decreases mounts@.len() - i,
    {
        let ghost rest = mounts.deep_view().skip(i as int);
        proof {
            assert(rest.drop_first() =~= mounts.deep_view().skip(i + 1));
            assert(rest[0] == mounts.deep_view()[i as int]);
        }
        let name_chars = chars_of(mounts[i].device_name.as_str());
        let hit = find(&name_chars, &pat, 0);
        proof {
            lemma_find_from_spec(name_chars@, pat@, 0);
        }
        match hit {
            Some(_) => {
                let ghost before = out.deep_view();
                let p = make_partition(&mounts[i]);
                let ghost pv = p@;
                out.push(p);
                proof {
                    assert(contains_seq(mounts.deep_view()[i as int].device_name, dev_name@));
                    assert(out.deep_view() =~= before.push(pv));
                    assert(spec_partitions_of(dev_name@, rest) =~= seq![pv]
                        + spec_partitions_of(dev_name@, rest.drop_first()));
                    assert(out.deep_view() + spec_partitions_of(dev_name@, rest.drop_first())
                        =~= before + spec_partitions_of(dev_name@, rest));
                }
            }
            None => {
                proof {
                    assert(!contains_seq(mounts.deep_view()[i as int].device_name, dev_name@));
                    assert(spec_partitions_of(dev_name@, rest) =~= Seq::<
                        PartitionInfoV,
                    >::empty() + spec_partitions_of(dev_name@, rest.drop_first()));
                }
            }
        }
        i += 1;
    }
    proof {
        assert(mounts.deep_view().skip(i as int) =~= Seq::<MountedFsInfoV>::empty());
        assert(spec_partitions_of(dev_name@, mounts.deep_view().skip(i as int)) =~= Seq::<
            PartitionInfoV,
        >::empty());
        assert(out.deep_view() + Seq::<PartitionInfoV>::empty() =~= out.deep_view());
    }
    out
}

} // verus!
