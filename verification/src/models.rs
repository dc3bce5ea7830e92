//! The typed health model: attribute rows, partition usage, mounted
//! filesystems, and the per-device health record, each with a mathematical
//! view used by the contracts.
//!
//! Sizes are held in integer fixed point: decimal megabytes for capacities
//! and transfer totals (one decimal megabyte is a millionth of a decimal
//! terabyte) and hundredths of a percent for usage ratios, so that every
//! derivation is exact.

use vstd::prelude::*;

verus! {

/// Health classification of one SMART attribute row.
#[derive(Clone, Copy, Debug, PartialEq, Eq, Structural)]
pub enum AttributeStatus {
    /// The attribute is within normal operating parameters.
    Good,
    /// The attribute is within ten units of its failure threshold.
    Warning,
    /// The attribute has reached or crossed its failure threshold.
    Critical,
}

/// What the discovery step concluded about a device, from its name and the
/// rotational-flag probe.
#[derive(Clone, Copy, Debug, PartialEq, Eq, Structural)]
pub enum DeviceKind {
    Nvme,
    Sata,
    Hdd,
    /// No classification yet; the state of a freshly built record.
    Unknown,
}

/// One row of the SMART attribute table.  The six value fields keep the
/// exact text of the report; only `status` reinterprets anything.
#[derive(Clone, Debug)]
pub struct SmartAttribute {
    pub id: String,
    pub name: String,
    pub current: String,
    pub worst: String,
    pub threshold: String,
    pub raw_value: String,
    pub status: AttributeStatus,
}

/// Mathematical view of a [`SmartAttribute`].
pub ghost struct SmartAttributeV {
    pub id: Seq<char>,
    pub name: Seq<char>,
    pub current: Seq<char>,
    pub worst: Seq<char>,
    pub threshold: Seq<char>,
    pub raw_value: Seq<char>,
    pub status: AttributeStatus,
}

impl View for SmartAttribute {
    type V = SmartAttributeV;

    open spec fn view(&self) -> SmartAttributeV {
        SmartAttributeV {
            id: self.id@,
            name: self.name@,
            current: self.current@,
            worst: self.worst@,
            threshold: self.threshold@,
            raw_value: self.raw_value@,
            status: self.status,
        }
    }
}

impl DeepView for SmartAttribute {
    type V = SmartAttributeV;

    open spec fn deep_view(&self) -> SmartAttributeV {
        self.view()
    }
}

/// Usage of one mounted partition, in decimal megabytes and hundredths of
/// a percent.
#[derive(Clone, Debug)]
pub struct PartitionInfo {
    pub mount_point: String,
    pub fs_type: String,
    pub total_mb: u64,
    pub used_mb: u64,
    pub free_mb: u64,
    pub used_percent_hundredths: u64,
}

/// Mathematical view of a [`PartitionInfo`].
pub ghost struct PartitionInfoV {
    pub mount_point: Seq<char>,
    pub fs_type: Seq<char>,
    pub total_mb: u64,
    pub used_mb: u64,
    pub free_mb: u64,
    pub used_percent_hundredths: u64,
}

impl View for PartitionInfo {
    type V = PartitionInfoV;

    open spec fn view(&self) -> PartitionInfoV {
        PartitionInfoV {
            mount_point: self.mount_point@,
            fs_type: self.fs_type@,
            total_mb: self.total_mb,
            used_mb: self.used_mb,
            free_mb: self.free_mb,
            used_percent_hundredths: self.used_percent_hundredths,
        }
    }
}

impl DeepView for PartitionInfo {
    type V = PartitionInfoV;

    open spec fn deep_view(&self) -> PartitionInfoV {
        self.view()
    }
}

/// One entry of the mounted-filesystem inventory, as the platform reports
/// it: a device name, where it is mounted, and raw byte counts.
#[derive(Clone, Debug)]
pub struct MountedFsInfo {
    pub device_name: String,
    pub mount_point: String,
    pub fs_type: String,
    pub total_bytes: u64,
    pub available_bytes: u64,
}

/// Mathematical view of a [`MountedFsInfo`].
pub ghost struct MountedFsInfoV {
    pub device_name: Seq<char>,
    pub mount_point: Seq<char>,
    pub fs_type: Seq<char>,
    pub total_bytes: u64,
    pub available_bytes: u64,
}

impl View for MountedFsInfo {
    type V = MountedFsInfoV;

    open spec fn view(&self) -> MountedFsInfoV {
        MountedFsInfoV {
            device_name: self.device_name@,
            mount_point: self.mount_point@,
            fs_type: self.fs_type@,
            total_bytes: self.total_bytes,
            available_bytes: self.available_bytes,
        }
    }
}

impl DeepView for MountedFsInfo {
    type V = MountedFsInfoV;

    open spec fn deep_view(&self) -> MountedFsInfoV {
        self.view()
    }
}

/// The health record of one physical device.  Every optional field either
/// holds a completely parsed value or is absent; a garbled source field is
/// never half-copied.
#[derive(Clone, Debug)]
pub struct DiskInfo {
    /// Device path, such as `/dev/nvme0n1`; the record's key.
    pub dev: String,
    /// Classification assigned at discovery time.
    pub kind: DeviceKind,
    pub model: Option<String>,
    pub serial: Option<String>,
    pub firmware: Option<String>,
    /// Raw capacity in bytes.
    pub capacity: Option<u64>,
    /// Human-readable capacity, such as `500 GB`.
    pub capacity_str: Option<String>,
    /// Overall health, 0 to 100; higher is healthier.
    pub health_percent: Option<u8>,
    pub temp_c: Option<i32>,
    /// Lifetime data written, in decimal megabytes.
    pub data_written_mb: Option<u64>,
    /// Lifetime data read, in decimal megabytes.
    pub data_read_mb: Option<u64>,
    pub power_on_hours: Option<u64>,
    pub power_cycles: Option<u64>,
    pub unsafe_shutdowns: Option<u64>,
    pub rotation_rpm: Option<u64>,
    /// Communication protocol, `NVMe` or `ATA`.
    pub protocol: Option<String>,
    /// Device classification, `SSD` or `HDD`.
    pub device_type: Option<String>,
    pub smart_attributes: Vec<SmartAttribute>,
    pub partitions: Vec<PartitionInfo>,
}

/// Mathematical view of a [`DiskInfo`].
pub ghost struct DiskInfoV {
    pub dev: Seq<char>,
    pub kind: DeviceKind,
    pub model: Option<Seq<char>>,
    pub serial: Option<Seq<char>>,
    pub firmware: Option<Seq<char>>,
    pub capacity: Option<u64>,
    pub capacity_str: Option<Seq<char>>,
    pub health_percent: Option<u8>,
    pub temp_c: Option<i32>,
    pub data_written_mb: Option<u64>,
    pub data_read_mb: Option<u64>,
    pub power_on_hours: Option<u64>,
    pub power_cycles: Option<u64>,
    pub unsafe_shutdowns: Option<u64>,
    pub rotation_rpm: Option<u64>,
    pub protocol: Option<Seq<char>>,
    pub device_type: Option<Seq<char>>,
    pub smart_attributes: Seq<SmartAttributeV>,
    pub partitions: Seq<PartitionInfoV>,
}

impl View for DiskInfo {
    type V = DiskInfoV;

    open spec fn view(&self) -> DiskInfoV {
        DiskInfoV {
            dev: self.dev@,
            kind: self.kind,
            model: self.model.deep_view(),
            serial: self.serial.deep_view(),
            firmware: self.firmware.deep_view(),
            capacity: self.capacity,
            capacity_str: self.capacity_str.deep_view(),
            health_percent: self.health_percent,
            temp_c: self.temp_c,
            data_written_mb: self.data_written_mb,
            data_read_mb: self.data_read_mb,
            power_on_hours: self.power_on_hours,
            power_cycles: self.power_cycles,
            unsafe_shutdowns: self.unsafe_shutdowns,
            rotation_rpm: self.rotation_rpm,
            protocol: self.protocol.deep_view(),
            device_type: self.device_type.deep_view(),
            smart_attributes: self.smart_attributes.deep_view(),
            partitions: self.partitions.deep_view(),
        }
    }
}

impl DeepView for DiskInfo {
    type V = DiskInfoV;

    open spec fn deep_view(&self) -> DiskInfoV {
        self.view()
    }
}

impl DiskInfo {
    /// A record holding only the device path; every optional field absent,
    /// both collections empty, and the kind not yet classified.
    pub fn empty(dev: String) -> (r: Self)
        ensures
            r@.dev == dev@,
            r@.kind == DeviceKind::Unknown,
            r@.model is None,
            r@.serial is None,
            r@.firmware is None,
            r@.capacity is None,
            r@.capacity_str is None,
            r@.health_percent is None,
            r@.temp_c is None,
            r@.data_written_mb is None,
            r@.data_read_mb is None,
            r@.power_on_hours is None,
            r@.power_cycles is None,
            r@.unsafe_shutdowns is None,
            r@.rotation_rpm is None,
            r@.protocol is None,
            r@.device_type is None,
            r@.smart_attributes == Seq::<SmartAttributeV>::empty(),
            r@.partitions == Seq::<PartitionInfoV>::empty(),
    {
        let r = DiskInfo {
            dev,
            kind: DeviceKind::Unknown,
            model: None,
            serial: None,
            firmware: None,
            capacity: None,
            capacity_str: None,
            health_percent: None,
            temp_c: None,
            data_written_mb: None,
            data_read_mb: None,
            power_on_hours: None,
            power_cycles: None,
            unsafe_shutdowns: None,
            rotation_rpm: None,
            protocol: None,
            device_type: None,
            smart_attributes: Vec::new(),
            partitions: Vec::new(),
        };
        proof {
            assert(r@.smart_attributes =~= Seq::<SmartAttributeV>::empty());
            assert(r@.partitions =~= Seq::<PartitionInfoV>::empty());
        }
        r
    }
}

/// What the discovery step hands the library for one candidate device:
/// its `/dev` entry name, the content of the per-device rotational flag if
/// it could be read, and the diagnostic tool's output if the tool ran.
#[derive(Clone, Debug)]
pub struct DeviceSample {
    pub name: String,
    pub rotational_flag: Option<String>,
    pub report: Option<String>,
}

/// Mathematical view of a [`DeviceSample`].
pub ghost struct DeviceSampleV {
    pub name: Seq<char>,
    pub rotational_flag: Option<Seq<char>>,
    pub report: Option<Seq<char>>,
}

impl View for DeviceSample {
    type V = DeviceSampleV;

    open spec fn view(&self) -> DeviceSampleV {
        DeviceSampleV {
            name: self.name@,
            rotational_flag: self.rotational_flag.deep_view(),
            report: self.report.deep_view(),
        }
    }
}

impl DeepView for DeviceSample {
    type V = DeviceSampleV;

    open spec fn deep_view(&self) -> DeviceSampleV {
        self.view()
    }
}

} // verus!
