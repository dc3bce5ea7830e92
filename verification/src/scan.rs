//! The device enumerator's decision core.  Given, for each `/dev` entry,
//! its name, the rotational-flag probe result and the diagnostic tool's
//! output, it classifies the entry by naming convention, parses the
//! report, appends the matching partition records, and returns the
//! records sorted by device path.  Listing `/dev`, probing the flag and
//! running the tool are the caller's work; a device whose tool invocation
//! failed is silently skipped.

use crate::models::{DeviceKind, DeviceSampleV, DiskInfo, DiskInfoV, MountedFsInfoV};
use crate::models::{DeviceSample, MountedFsInfo};
use crate::partitions::{correlate_partitions, spec_partitions_of};
use crate::report::{parse_smart_report, spec_report_record};
use crate::text::{
    chars_of, class_end, has_at, lemma_lex_le_total, lemma_lex_le_trans, lex_le, lex_le_exec,
    match_at, scan_class, scan_trim_end, trim_end_idx, CharClass,
};
use vstd::multiset::Multiset;
use vstd::prelude::*;
use vstd::string::*;

verus! {

broadcast use vstd::seq_lib::group_to_multiset_ensures;

/// What a `/dev` entry name denotes: an NVMe namespace (the `nvme` prefix
/// with no partition letter), or a whole SCSI/SATA disk (`sd` plus one
/// letter).
#[derive(Clone, Copy, Debug, PartialEq, Eq, Structural)]
pub enum DeviceClass {
    NvmeDisk,
    ScsiDisk,
}

/// Classification of a `/dev` entry name.  Names with a partition suffix
/// and everything else are ignored.
pub open spec fn spec_classify(name: Seq<char>) -> Option<DeviceClass> {
    if match_at(name, "nvme"@, 0) && !name.contains('p') {
        Some(DeviceClass::NvmeDisk)
    } else if match_at(name, "sd"@, 0) && name.len() == 3 {
        Some(DeviceClass::ScsiDisk)
    } else {
        None
    }
}

/// Classify a `/dev` entry name.
pub fn classify_device_name(name: &str) -> (r: Option<DeviceClass>)
    ensures
        r == spec_classify(name@),
{
    let t = chars_of(name);
    let nvme = chars_of("nvme");
    let sd = chars_of("sd");
    let mut has_p: bool = false;
    let mut i: usize = 0;
    while i < t.len()
        invariant
            i <= t@.len(),
            t@ == name@,
            has_p == exists|j: int| 0 <= j < i && t@[j] == 'p',
        decreases t@.len() - i,
    {
        if t[i] == 'p' {
            has_p = true;
        }
        i += 1;
    }
    proof {
        assert(has_p == name@.contains('p'));
    }
    if has_at(&t, &nvme, 0) && !has_p {
        Some(DeviceClass::NvmeDisk)
    } else if has_at(&t, &sd, 0) && t.len() == 3 {
        Some(DeviceClass::ScsiDisk)
    } else {
        None
    }
}

/// The content of a rotational flag with surrounding whitespace trimmed.
pub open spec fn spec_trimmed(s: Seq<char>) -> Seq<char> {
    let a = class_end(s, 0, s.len() as int, CharClass::Ws);
    s.subrange(a, trim_end_idx(s, a, s.len() as int))
}

/// The kind of a SCSI/SATA disk: solid-state exactly when the rotational
/// flag was read and holds `0`; a missing or unreadable flag counts as
/// rotational, the conservative reading.
pub open spec fn spec_sata_or_hdd(flag: Option<Seq<char>>) -> DeviceKind {
    match flag {
        Some(s) => if spec_trimmed(s) == "0"@ {
            DeviceKind::Sata
        } else {
            DeviceKind::Hdd
        },
        None => DeviceKind::Hdd,
    }
}

/// Decide between `Sata` and `Hdd` from the rotational-flag probe.
pub fn sata_or_hdd(flag: &Option<String>) -> (r: DeviceKind)
    ensures
        r == spec_sata_or_hdd(flag.deep_view()),
{
    match flag {
        None => DeviceKind::Hdd,
        Some(s) => {
            let t = chars_of(s.as_str());
            let a = scan_class(&t, 0, t.len(), CharClass::Ws);
            let b = scan_trim_end(&t, a, t.len());
            proof {
                reveal_strlit("0");
            }
            if b - a == 1 && t[a] == '0' {
                proof {
                    assert(spec_trimmed(s@) =~= "0"@);
                }
                DeviceKind::Sata
            } else {
                proof {
                    if spec_trimmed(s@) == "0"@ {
                        assert(spec_trimmed(s@).len() == 1);
                        assert(spec_trimmed(s@)[0] == '0');
                        assert(false);
                    }
                }
                DeviceKind::Hdd
            }
        }
    }
}

/// The kind a classified sample is probed to: an NVMe name is `Nvme`; a
/// SCSI disk name goes by its rotational flag.
pub open spec fn spec_sample_kind(sample: DeviceSampleV, cls: DeviceClass) -> DeviceKind {
    if cls == DeviceClass::NvmeDisk {
        DeviceKind::Nvme
    } else {
        spec_sata_or_hdd(sample.rotational_flag)
    }
}

/// The record one sample yields: `None` for a name that is no whole-disk
/// candidate and for a candidate whose diagnostic run failed.  Otherwise
/// the parsed report, keyed by `/dev/` plus the entry name, with the
/// partition records of the mounted filesystems that match the name.
pub open spec fn spec_record_of(sample: DeviceSampleV, mounts: Seq<MountedFsInfoV>) -> Option<
    DiskInfoV,
> {
    match spec_classify(sample.name) {
        None => None,
        Some(cls) => match sample.report {
            None => None,
            Some(raw) => Some(
                (DiskInfoV {
                    partitions: spec_partitions_of(sample.name, mounts),
                    ..spec_report_record(
                        "/dev/"@ + sample.name,
                        raw,
                        spec_sample_kind(sample, cls),
                    )
                }),
            ),
        },
    }
}

/// The records of every sample that yields one, in sample order.
pub open spec fn spec_records(samples: Seq<DeviceSampleV>, mounts: Seq<MountedFsInfoV>) -> Seq<
    DiskInfoV,
>
    decreases samples.len(),
{
    if samples.len() == 0 {
        Seq::empty()
    } else {
        let head = match spec_record_of(samples[0], mounts) {
            Some(r) => seq![r],
            None => Seq::empty(),
        };
        head + spec_records(samples.drop_first(), mounts)
    }
}

/// The records are in ascending order of device path.
pub open spec fn sorted_by_dev(s: Seq<DiskInfoV>) -> bool {
    forall|i: int, j: int| 0 <= i < j < s.len() ==> lex_le(s[i].dev, s[j].dev)
}

/// Compare two records' device paths.
fn dev_le(a: &DiskInfo, b: &DiskInfo) -> (r: bool)
    ensures
        r == lex_le(a@.dev, b@.dev),
{
    let ca = chars_of(a.dev.as_str());
    let cb = chars_of(b.dev.as_str());
    lex_le_exec(&ca, &cb)
}

/// Sort records ascending by device path; the result holds exactly the
/// given records.
fn sort_by_dev(v: Vec<DiskInfo>) -> (r: Vec<DiskInfo>)
    ensures
        r.deep_view().to_multiset() == v.deep_view().to_multiset(),
        sorted_by_dev(r.deep_view()),
{
    let mut work = v;
    let mut out: Vec<DiskInfo> = Vec::new();
    proof {
        assert(out.deep_view().to_multiset().add(work.deep_view().to_multiset()) =~= work
            .deep_view()
            .to_multiset());
    }
    while work.len() > 0
        invariant
            out.deep_view().to_multiset().add(work.deep_view().to_multiset()) == v
                .deep_view()
                .to_multiset(),
            sorted_by_dev(out.deep_view()),
            forall|i: int, j: int|
                0 <= i < out.deep_view().len() && 0 <= j < work.deep_view().len() ==> lex_le(
                    out.deep_view()[i].dev,
                    work.deep_view()[j].dev,
                ),
        decreases work@.len(),
    {
        let mut min_i: usize = 0;
        let mut idx: usize = 1;
        proof {
            lemma_lex_le_total(work.deep_view()[0].dev, work.deep_view()[0].dev);
        }
        while idx < work.len()
            invariant
                work@.len() > 0,
                min_i < idx <= work@.len(),
                forall|j: int|
                    0 <= j < idx ==> lex_le(
                        work.deep_view()[min_i as int].dev,
                        work.deep_view()[j].dev,
                    ),
            decreases work@.len() - idx,
        {
            if !dev_le(&work[min_i], &work[idx]) {
                proof {
                    lemma_lex_le_total(
                        work.deep_view()[min_i as int].dev,
                        work.deep_view()[idx as int].dev,
                    );
                    assert forall|j: int| 0 <= j < idx + 1 implies lex_le(
                        work.deep_view()[idx as int].dev,
                        work.deep_view()[j].dev,
                    ) by {
                        if j < idx {
                            lemma_lex_le_trans(
                                work.deep_view()[idx as int].dev,
                                work.deep_view()[min_i as int].dev,
                                work.deep_view()[j].dev,
                            );
                        } else {
                            lemma_lex_le_total(
                                work.deep_view()[idx as int].dev,
                                work.deep_view()[idx as int].dev,
                            );
                        }
                    }
                }
                min_i = idx;
            }
            idx += 1;
        }
        let ghost old_work = work.deep_view();
        let ghost old_out = out.deep_view();
        let item = work.remove(min_i);
        let ghost itemv = item@;
        out.push(item);
        proof {
            assert(work.deep_view() =~= old_work.remove(min_i as int));
            assert(out.deep_view() =~= old_out.push(itemv));
            assert(old_work.remove(min_i as int).to_multiset() =~= old_work.to_multiset()
                .remove(itemv));
            assert(out.deep_view().to_multiset() =~= old_out.to_multiset().insert(itemv));
            assert(old_work.to_multiset().contains(itemv));
            assert(out.deep_view().to_multiset().add(work.deep_view().to_multiset()) =~= old_out
                .to_multiset()
                .add(old_work.to_multiset()));
            assert forall|i: int, j: int|
                0 <= i < out.deep_view().len() && 0 <= j < work.deep_view().len() implies lex_le(
                out.deep_view()[i].dev,
                work.deep_view()[j].dev,
            ) by {
                let wj = work.deep_view()[j];
                assert(wj == if j < min_i {
                    old_work[j]
                } else {
                    old_work[j + 1]
                });
                if i < old_out.len() {
                } else {
                    assert(out.deep_view()[i] == itemv);
                }
            }
        }
    }
    proof {
        assert(work.deep_view().to_multiset() =~= Multiset::<DiskInfoV>::empty());
        assert(out.deep_view().to_multiset().add(Multiset::<DiskInfoV>::empty()) =~= out
            .deep_view()
            .to_multiset());
    }
    out
}

/// Scan the sampled devices: classify each entry name, parse each
/// captured report, attach the matching partition records, and return the
/// collection sorted by device path.  A sample without a report, and any
/// name that is no whole-disk candidate, contributes nothing.
pub fn scan_disks(samples: &Vec<DeviceSample>, mounts: &Vec<MountedFsInfo>) -> (r: Vec<DiskInfo>)
    ensures
        r.deep_view().to_multiset() == spec_records(
            samples.deep_view(),
            mounts.deep_view(),
        ).to_multiset(),
        sorted_by_dev(r.deep_view()),
{
    let mut out: Vec<DiskInfo> = Vec::new();
    let mut i: usize = 0;
    proof {
        assert(samples.deep_view().skip(0) =~= samples.deep_view());
        assert(out.deep_view() + spec_records(samples.deep_view(), mounts.deep_view())
            =~= spec_records(samples.deep_view(), mounts.deep_view()));
    }
    while i < samples.len()
        invariant
            i <= samples@.len(),
            out.deep_view() + spec_records(
                samples.deep_view().skip(i as int),
                mounts.deep_view(),
            ) == spec_records(samples.deep_view(), mounts.deep_view()),
        decreases samples@.len() - i,
    {
        let ghost rest = samples.deep_view().skip(i as int);
        proof {
            assert(rest.drop_first() =~= samples.deep_view().skip(i + 1));
            assert(rest[0] == samples.deep_view()[i as int]);
        }
        let sample = &samples[i];
        let cls = classify_device_name(sample.name.as_str());
        let ghost before = out.deep_view();
        match cls {
            None => {
                proof {
                    assert(spec_record_of(rest[0], mounts.deep_view()) is None);
                    assert(spec_records(rest, mounts.deep_view()) =~= Seq::<DiskInfoV>::empty()
                        + spec_records(rest.drop_first(), mounts.deep_view()));
                }
            }
            Some(c) => {
                match &sample.report {
                    None => {
                        proof {
                            assert(spec_record_of(rest[0], mounts.deep_view()) is None);
                            assert(spec_records(rest, mounts.deep_view()) =~= Seq::<
                                DiskInfoV,
                            >::empty() + spec_records(rest.drop_first(), mounts.deep_view()));
                        }
                    }
                    Some(raw) => {
                        let kind = if matches!(c, DeviceClass::NvmeDisk) {
                            DeviceKind::Nvme
                        } else {
                            sata_or_hdd(&sample.rotational_flag)
                        };
                        let dev_path = String::from_str("/dev/").concat(sample.name.as_str());
                        let mut di = parse_smart_report(dev_path, raw.as_str(), kind);
                        di.partitions = correlate_partitions(sample.name.as_str(), mounts);
                        let ghost div = di@;
                        out.push(di);
                        proof {
                            assert(spec_record_of(rest[0], mounts.deep_view()) == Some(div));
                            assert(out.deep_view() =~= before.push(div));
                            assert(spec_records(rest, mounts.deep_view()) =~= seq![div]
                                + spec_records(rest.drop_first(), mounts.deep_view()));
                            assert(out.deep_view() + spec_records(
                                rest.drop_first(),
                                mounts.deep_view(),
                            ) =~= before + spec_records(rest, mounts.deep_view()));
                        }
                    }
                }
            }
        }
        i += 1;
    }
    proof {
        assert(samples.deep_view().skip(i as int) =~= Seq::<DeviceSampleV>::empty());
        assert(spec_records(samples.deep_view().skip(i as int), mounts.deep_view()) =~= Seq::<
            DiskInfoV,
        >::empty());
        assert(out.deep_view() + Seq::<DiskInfoV>::empty() =~= out.deep_view());
    }
    sort_by_dev(out)
}

} // verus!
