//! The records that a query produces.
use vstd::prelude::*;

verus! {

/// One process's use of a device.
#[derive(Debug, Clone)]
pub struct GpuProcessInfo {
    /// The id the device reported.
    pub pid: u32,
    pub username: Option<String>,
    /// The command name, `"?"` when it could not be found.
    pub command: String,
    /// Memory in MB, when the driver reports it.
    pub gpu_memory_usage: Option<u64>,
    /// True when the names were found through the namespace mapping.
    pub username_from_ngid_mapping: bool,
    /// The host pid, set exactly when the namespace mapping was used.
    pub real_pid: Option<u32>,
}

/// One device's sample.
#[derive(Debug, Clone)]
pub struct GpuStat {
    pub index: u32,
    pub name: String,
    pub uuid: String,
    pub temperature: Option<u32>,
    pub fan_speed: Option<u32>,
    pub utilization: Option<u32>,
    pub utilization_enc: Option<u32>,
    pub utilization_dec: Option<u32>,
    /// Watts.
    pub power_draw: Option<u32>,
    /// Watts.
    pub power_limit: Option<u32>,
    /// MB.
    pub memory_used: u64,
    /// MB.
    pub memory_total: u64,
    /// `None`: the device cannot list its processes.
    pub processes: Option<Vec<GpuProcessInfo>>,
    /// False for a device that could not be queried.
    pub available: bool,
}

/// A point in time, in UTC.
#[derive(Debug, Clone, Copy, PartialEq, Eq)]
pub struct Timestamp {
    pub year: u32,
    pub month: u32,
    pub day: u32,
    pub hour: u32,
    pub minute: u32,
    pub second: u32,
    /// Nanoseconds within the second.
    pub nanosecond: u32,
}

/// All devices of a host at one time.
#[derive(Debug, Clone)]
pub struct GpuStatCollection {
    pub hostname: String,
    pub query_time: Timestamp,
    pub driver_version: Option<String>,
    pub gpus: Vec<GpuStat>,
}

} // verus!
