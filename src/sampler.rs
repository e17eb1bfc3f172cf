//! Sampling devices through the NVML driver library and gathering the
//! samples of a host into a collection.
use vstd::prelude::*;
use vstd::string::*;
use crate::model::{GpuProcessInfo, GpuStat, GpuStatCollection, Timestamp};
use crate::nsmap::NamespaceMap;
use crate::resolve::{get_process_info, remap_spec, unknown_command};
use chrono::{Datelike, Timelike};
use nvml_wrapper::enum_wrappers::device::TemperatureSensor;
use nvml_wrapper::enums::device::UsedGpuMemory;
use nvml_wrapper::error::NvmlError;
use nvml_wrapper::{Device, Nvml};

verus! {

#[verifier::external_type_specification]
#[verifier::external_body]
pub struct ExNvml(nvml_wrapper::Nvml);

#[verifier::external_type_specification]
#[verifier::external_body]
pub struct ExDevice<'nvml>(nvml_wrapper::Device<'nvml>);

#[verifier::external_type_specification]
#[verifier::external_body]
pub struct ExNvmlError(nvml_wrapper::error::NvmlError);

/// Bytes in a megabyte.
pub const MB: u64 = 1048576;

/// A process as a device reports it: its pid and, when known, the bytes of
/// device memory it uses.
#[derive(Debug, Clone, Copy, PartialEq, Eq, Structural)]
pub struct RawProcess {
    pub pid: u32,
    pub used_bytes: Option<u64>,
}

/// What the driver reported for one device.
#[derive(Debug, Clone)]
pub struct DeviceReadings {
    pub name: String,
    pub uuid: String,
    pub temperature: Option<u32>,
    pub fan_speed: Option<u32>,
    pub utilization: Option<u32>,
    pub utilization_enc: Option<u32>,
    pub utilization_dec: Option<u32>,
    /// Milliwatts.
    pub power_usage: Option<u32>,
    /// Milliwatts.
    pub power_limit: Option<u32>,
    pub memory_used_bytes: u64,
    pub memory_total_bytes: u64,
}

// ---- driver calls ----

/// Relies on `Nvml::device_count`.
#[verifier::external_body]
fn device_count(nvml: &Nvml) -> Result<u32, NvmlError> {
    nvml.device_count()
}

/// Relies on `Nvml::sys_driver_version`.
#[verifier::external_body]
fn driver_version(nvml: &Nvml) -> Option<String> {
    nvml.sys_driver_version().ok()
}

/// Relies on `Nvml::device_by_index`.
#[verifier::external_body]
fn device_by_index<'a>(nvml: &'a Nvml, index: u32) -> Result<Device<'a>, NvmlError> {
    nvml.device_by_index(index)
}

/// Relies on `Device::name`.
#[verifier::external_body]
fn device_name(d: &Device) -> Result<String, NvmlError> {
    d.name()
}

/// Relies on `Device::uuid`.
#[verifier::external_body]
fn device_uuid(d: &Device) -> Result<String, NvmlError> {
    d.uuid()
}

/// Relies on `Device::temperature` for the GPU sensor, in degrees C.
#[verifier::external_body]
fn gpu_temperature(d: &Device) -> Option<u32> {
    d.temperature(TemperatureSensor::Gpu).ok()
}

/// Relies on `Device::fan_speed` for the first fan, in percent.
#[verifier::external_body]
fn fan_speed(d: &Device) -> Option<u32> {
    d.fan_speed(0).ok()
}

/// Relies on `Device::memory_info`: used and total bytes.
#[verifier::external_body]
fn memory_info(d: &Device) -> Result<(u64, u64), NvmlError> {
    d.memory_info().map(|m| (m.used, m.total))
}

/// Relies on `Device::utilization_rates`: the GPU's busy percentage.
#[verifier::external_body]
fn gpu_utilization(d: &Device) -> Option<u32> {
    d.utilization_rates().ok().map(|u| u.gpu)
}

/// Relies on `Device::encoder_utilization`, in percent.
#[verifier::external_body]
fn encoder_utilization(d: &Device) -> Option<u32> {
    d.encoder_utilization().ok().map(|u| u.utilization)
}

/// Relies on `Device::decoder_utilization`, in percent.
#[verifier::external_body]
fn decoder_utilization(d: &Device) -> Option<u32> {
    d.decoder_utilization().ok().map(|u| u.utilization)
}

/// Relies on `Device::power_usage`, in milliwatts.
#[verifier::external_body]
fn power_usage(d: &Device) -> Option<u32> {
    d.power_usage().ok()
}

/// Relies on `Device::enforced_power_limit`, in milliwatts.
#[verifier::external_body]
fn enforced_power_limit(d: &Device) -> Option<u32> {
    d.enforced_power_limit().ok()
}

/// Relies on `Device::running_compute_processes`.
#[verifier::external_body]
fn compute_processes(d: &Device) -> Option<Vec<RawProcess>> {
    d.running_compute_processes().ok().map(|ps| ps.into_iter().map(|p| RawProcess {
        pid: p.pid,
        used_bytes: match p.used_gpu_memory {
            UsedGpuMemory::Used(b) => Some(b),
            UsedGpuMemory::Unavailable => None,
        },
    }).collect())
}

/// Relies on `Device::running_graphics_processes`.
#[verifier::external_body]
fn graphics_processes(d: &Device) -> Option<Vec<RawProcess>> {
    d.running_graphics_processes().ok().map(|ps| ps.into_iter().map(|p| RawProcess {
        pid: p.pid,
        used_bytes: match p.used_gpu_memory {
            UsedGpuMemory::Used(b) => Some(b),
            UsedGpuMemory::Unavailable => None,
        },
    }).collect())
}

/// Relies on the `Display` of `NvmlError`: its message.
#[verifier::external_body]
fn error_message(e: &NvmlError) -> String {
    format!("{}", e)
}

/// Relies on `hostname::get`: the host's name, when it can be read.
#[verifier::external_body]
fn host_name() -> Option<String> {
    hostname::get().ok().map(|h| h.to_string_lossy().to_string())
}

/// Relies on `SystemTime::now` and `SystemTime::duration_since` with
/// `UNIX_EPOCH`: whole seconds and the nanoseconds within the second since
/// 1970, or `None` when the clock reads earlier.
#[verifier::external_body]
fn unix_time() -> (r: Option<(u64, u32)>)
    ensures
        r matches Some(t) ==> t.1 < 1_000_000_000,
{
    std::time::SystemTime::now()
        .duration_since(std::time::UNIX_EPOCH)
        .ok()
        .map(|d| (d.as_secs(), d.subsec_nanos()))
}

/// Relies on chrono's `DateTime::from_timestamp` (`None` out of its range)
/// and the calendar fields, which chrono documents as month 1 to 12, day 1
/// to 31, hour 0 to 23, minute and second 0 to 59.
#[verifier::external_body]
fn calendar(secs: i64, nanos: u32) -> (r: Option<Timestamp>)
    ensures
        r matches Some(t) ==> 1 <= t.month <= 12 && 1 <= t.day <= 31 && t.hour < 24 && t.minute
            < 60 && t.second < 60,
{
    chrono::DateTime::from_timestamp(secs, nanos).map(|t| Timestamp {
        year: t.year() as u32,
        month: t.month(),
        day: t.day(),
        hour: t.hour(),
        minute: t.minute(),
        second: t.second(),
        nanosecond: t.nanosecond(),
    })
}

/// Midnight, January 1, 1970 UTC.
pub open spec fn epoch_spec() -> Timestamp {
    Timestamp { year: 1970, month: 1, day: 1, hour: 0, minute: 0, second: 0, nanosecond: 0 }
}

/// A valid calendar time.
pub open spec fn valid_time(t: Timestamp) -> bool {
    1 <= t.month <= 12 && 1 <= t.day <= 31 && t.hour < 24 && t.minute < 60 && t.second < 60
}

/// The current time in UTC; the start of 1970 when the clock cannot be read
/// or lies outside the calendar's range.
pub fn now_utc() -> (r: Timestamp)
    ensures
        valid_time(r),
{
    let epoch = Timestamp { year: 1970, month: 1, day: 1, hour: 0, minute: 0, second: 0, nanosecond: 0 };
    match unix_time() {
        Some((secs, nanos)) => if secs <= 0x7fff_ffff_ffff_ffff {
            match calendar(secs as i64, nanos) {
                Some(t) => t,
                None => epoch,
            }
        } else {
            epoch
        },
        None => epoch,
    }
}

// ---- process lists ----

/// Whether a process with `pid` is in the list.
pub open spec fn has_pid(s: Seq<RawProcess>, pid: u32) -> bool {
    exists|j: int| 0 <= j < s.len() && (#[trigger] s[j]).pid == pid
}

/// The list without repeated pids, each kept where it first appears.
pub open spec fn dedup_pids(s: Seq<RawProcess>) -> Seq<RawProcess>
    decreases s.len(),
{
    if s.len() == 0 {
        Seq::empty()
    } else {
        let rest = dedup_pids(s.drop_last());
        if has_pid(rest, s.last().pid) { rest } else { rest.push(s.last()) }
    }
}

pub open spec fn list_or_empty(l: Option<Vec<RawProcess>>) -> Seq<RawProcess> {
    match l {
        Some(v) => v@,
        None => Seq::empty(),
    }
}

/// The process list of a device from its two queries: unsupported when both
/// failed, else the compute list then the graphics list, each pid once.
pub open spec fn merged_processes(
    compute: Option<Vec<RawProcess>>,
    graphics: Option<Vec<RawProcess>>,
) -> Option<Seq<RawProcess>> {
    if compute is None && graphics is None {
        None
    } else {
        Some(dedup_pids(list_or_empty(compute) + list_or_empty(graphics)))
    }
}

/// No pid appears twice.
pub open spec fn distinct_pids(s: Seq<RawProcess>) -> bool {
    forall|i: int, j: int| 0 <= i < j < s.len() ==> (#[trigger] s[i]).pid != (#[trigger] s[j]).pid
}

/// A list without repeated pids has each pid once.
pub proof fn lemma_dedup_distinct(s: Seq<RawProcess>)
    ensures
        distinct_pids(dedup_pids(s)),
    decreases s.len(),
{
    if s.len() > 0 {
        lemma_dedup_distinct(s.drop_last());
        let rest = dedup_pids(s.drop_last());
        if !has_pid(rest, s.last().pid) {
            let out = rest.push(s.last());
            assert forall|i: int, j: int| 0 <= i < j < out.len() implies (#[trigger] out[i]).pid
                != (#[trigger] out[j]).pid by {
                if j == rest.len() {
                    assert(out[i] == rest[i]);
                    assert(!(rest[i].pid == s.last().pid));
                } else {
                    assert(out[i] == rest[i] && out[j] == rest[j]);
                }
            }
        }
    }
}

fn contains_pid(v: &Vec<RawProcess>, pid: u32) -> (r: bool)
    ensures
        r == has_pid(v@, pid),
{
    let mut i: usize = 0;
    while i < v.len()
        invariant
            i <= v@.len(),
            forall|j: int| 0 <= j < i ==> (#[trigger] v@[j]).pid != pid,
        decreases v@.len() - i,
    {
        if v[i].pid == pid {
            return true;
        }
        i = i + 1;
    }
    false
}

fn push_new(out: &mut Vec<RawProcess>, items: &Vec<RawProcess>, Ghost(before): Ghost<Seq<RawProcess>>)
    requires
        old(out)@ == dedup_pids(before),
    ensures
        final(out)@ == dedup_pids(before + items@),
{
    let mut i: usize = 0;
    while i < items.len()
        invariant
            i <= items@.len(),
            out@ == dedup_pids(before + items@.take(i as int)),
        decreases items@.len() - i,
    {
        let p = items[i];
        proof {
            assert((before + items@.take(i + 1)).drop_last() =~= before + items@.take(i as int));
            assert((before + items@.take(i + 1)).last() == p);
        }
        if !contains_pid(out, p.pid) {
            out.push(p);
        }
        i = i + 1;
    }
    proof {
        assert(items@.take(i as int) =~= items@);
    }
}

/// Merges the compute and graphics process lists of a device.
pub fn merge_process_lists(
    compute: Option<Vec<RawProcess>>,
    graphics: Option<Vec<RawProcess>>,
) -> (r: Option<Vec<RawProcess>>)
    ensures
        match r {
            Some(v) => merged_processes(compute, graphics) == Some(v@),
            None => merged_processes(compute, graphics) is None,
        },
{
    if compute.is_none() && graphics.is_none() {
        return None;
    }
    let mut out: Vec<RawProcess> = Vec::new();
    let empty: Vec<RawProcess> = Vec::new();
    let c = match &compute {
        Some(v) => v,
        None => &empty,
    };
    let g = match &graphics {
        Some(v) => v,
        None => &empty,
    };
    assert(Seq::<RawProcess>::empty() + c@ =~= c@);
    push_new(&mut out, c, Ghost(Seq::empty()));
    push_new(&mut out, g, Ghost(c@));
    Some(out)
}

/// Whole megabytes in a byte count.
pub open spec fn megabytes(bytes: Option<u64>) -> Option<u64> {
    match bytes {
        Some(b) => Some(b / MB),
        None => None,
    }
}

/// Whole watts in a milliwatt reading.
pub open spec fn watts(mw: Option<u32>) -> Option<u32> {
    match mw {
        Some(p) => Some(p / 1000),
        None => None,
    }
}

/// The processes of a sample: each pid once, and the namespace mapping
/// marked as used only for a pid that it maps to another host pid, which is
/// then given.
pub open spec fn processes_ok(ps: Seq<GpuProcessInfo>, mapping: Map<u32, u32>) -> bool {
    &&& forall|i: int, j: int| 0 <= i < j < ps.len() ==> (#[trigger] ps[i]).pid != (#[trigger] ps[j]).pid
    &&& forall|i: int| 0 <= i < ps.len() ==> {
        &&& (#[trigger] ps[i]).username_from_ngid_mapping ==> mapping.contains_key(ps[i].pid)
            && ps[i].real_pid == Some(mapping[ps[i].pid]) && mapping[ps[i].pid] != ps[i].pid
        &&& !ps[i].username_from_ngid_mapping ==> ps[i].real_pid is None
    }
}

/// The processes attributed from a device's list, one for one: the pid and
/// memory in megabytes as reported, a command that is never empty, and the
/// namespace mapping marked as used exactly when the pid was remapped and
/// its command found, with the host pid then given.
pub open spec fn attributed(ps: Seq<GpuProcessInfo>, list: Seq<RawProcess>, mapping: Map<u32, u32>) -> bool {
    &&& ps.len() == list.len()
    &&& forall|i: int| 0 <= i < ps.len() ==> {
        &&& (#[trigger] ps[i]).pid == list[i].pid
        &&& ps[i].gpu_memory_usage == megabytes(list[i].used_bytes)
        &&& ps[i].command@.len() > 0
        &&& ps[i].username_from_ngid_mapping == (remap_spec(ps[i].pid, mapping) is Some
            && ps[i].command@ != unknown_command())
        &&& ps[i].real_pid == (if ps[i].username_from_ngid_mapping {
            remap_spec(ps[i].pid, mapping)
        } else {
            None
        })
    }
}

/// Attributes each process of a device's list to its owner and command.
pub fn attribute_processes(list: &Vec<RawProcess>, mapping: &NamespaceMap) -> (r: Vec<GpuProcessInfo>)
    ensures
        attributed(r@, list@, mapping@),
{
    let mut out: Vec<GpuProcessInfo> = Vec::new();
    let mut i: usize = 0;
    while i < list.len()
        invariant
            i <= list@.len(),
            attributed(out@, list@.take(i as int), mapping@),
        decreases list@.len() - i,
    {
        let p = list[i];
        let memory = match p.used_bytes {
            Some(b) => Some(b / MB),
            None => None,
        };
        let (username, command, via, real_pid) = get_process_info(p.pid, mapping);
        out.push(
            GpuProcessInfo {
                pid: p.pid,
                username,
                command,
                gpu_memory_usage: memory,
                username_from_ngid_mapping: via,
                real_pid,
            },
        );
        i = i + 1;
        assert(attributed(out@, list@.take(i as int), mapping@));
    }
    assert(list@.take(i as int) =~= list@);
    out
}

// ---- samples ----

/// The sample of an available device, from its readings: power in whole
/// watts, memory in whole megabytes.
pub open spec fn stat_ok(
    g: GpuStat,
    index: u32,
    r: DeviceReadings,
    processes: Option<Vec<GpuProcessInfo>>,
) -> bool {
    &&& g.index == index
    &&& g.name@ == r.name@
    &&& g.uuid@ == r.uuid@
    &&& g.temperature == r.temperature
    &&& g.fan_speed == r.fan_speed
    &&& g.utilization == r.utilization
    &&& g.utilization_enc == r.utilization_enc
    &&& g.utilization_dec == r.utilization_dec
    &&& g.power_draw == watts(r.power_usage)
    &&& g.power_limit == watts(r.power_limit)
    &&& g.memory_used == r.memory_used_bytes / MB
    &&& g.memory_total == r.memory_total_bytes / MB
    &&& g.processes == processes
    &&& g.available
}

/// Builds the sample of an available device.
pub fn assemble_stat(index: u32, r: DeviceReadings, processes: Option<Vec<GpuProcessInfo>>) -> (g: GpuStat)
    ensures
        stat_ok(g, index, r, processes),
{
    let power_draw = match r.power_usage {
        Some(p) => Some(p / 1000),
        None => None,
    };
    let power_limit = match r.power_limit {
        Some(p) => Some(p / 1000),
        None => None,
    };
    GpuStat {
        index,
        name: r.name,
        uuid: r.uuid,
        temperature: r.temperature,
        fan_speed: r.fan_speed,
        utilization: r.utilization,
        utilization_enc: r.utilization_enc,
        utilization_dec: r.utilization_dec,
        power_draw,
        power_limit,
        memory_used: r.memory_used_bytes / MB,
        memory_total: r.memory_total_bytes / MB,
        processes,
        available: true,
    }
}

/// A sample of a device that could not be queried: the error in double
/// parentheses as its name, nothing else known.
pub open spec fn is_unavailable(g: GpuStat, index: u32, message: Seq<char>) -> bool {
    &&& g.index == index
    &&& g.name@ == "((Error: "@ + message + "))"@
    &&& g.uuid@.len() == 0
    &&& g.temperature is None
    &&& g.fan_speed is None
    &&& g.utilization is None
    &&& g.utilization_enc is None
    &&& g.utilization_dec is None
    &&& g.power_draw is None
    &&& g.power_limit is None
    &&& g.memory_used == 0
    &&& g.memory_total == 0
    &&& g.processes is None
    &&& !g.available
}

/// The placeholder sample of a device that could not be queried.
pub fn unavailable_stat(index: u32, message: &str) -> (g: GpuStat)
    ensures
        is_unavailable(g, index, message@),
{
    let mut name = String::from_str("((Error: ");
    name.append(message);
    name.append("))");
    GpuStat {
        index,
        name,
        uuid: String::new(),
        temperature: None,
        fan_speed: None,
        utilization: None,
        utilization_enc: None,
        utilization_dec: None,
        power_draw: None,
        power_limit: None,
        memory_used: 0,
        memory_total: 0,
        processes: None,
        available: false,
    }
}

/// Samples one device. Name, uuid and memory are required: the error of
/// the first of them that fails is returned. Each other metric is left
/// unset when it fails.
pub fn get_gpu_info(nvml: &Nvml, index: u32, mapping: &NamespaceMap) -> (r: Result<GpuStat, NvmlError>)
    ensures
        r matches Ok(g) ==> {
            &&& g.index == index
            &&& g.available
            &&& exists|rd: DeviceReadings| #[trigger] stat_ok(g, index, rd, g.processes)
            &&& g.processes matches Some(ps) ==> processes_ok(ps@, mapping@)
        },
{
    let device = match device_by_index(nvml, index) {
        Ok(d) => d,
        Err(e) => return Err(e),
    };
    let name = match device_name(&device) {
        Ok(n) => n,
        Err(e) => return Err(e),
    };
    let uuid = match device_uuid(&device) {
        Ok(u) => u,
        Err(e) => return Err(e),
    };
    let temperature = gpu_temperature(&device);
    let fan = fan_speed(&device);
    let (used, total) = match memory_info(&device) {
        Ok(m) => m,
        Err(e) => return Err(e),
    };
    let readings = DeviceReadings {
        name,
        uuid,
        temperature,
        fan_speed: fan,
        utilization: gpu_utilization(&device),
        utilization_enc: encoder_utilization(&device),
        utilization_dec: decoder_utilization(&device),
        power_usage: power_usage(&device),
        power_limit: enforced_power_limit(&device),
        memory_used_bytes: used,
        memory_total_bytes: total,
    };
    let compute = compute_processes(&device);
    let graphics = graphics_processes(&device);
    let g = build_sample(index, readings, compute, graphics, mapping);
    Ok(g)
}

/// The sample of an available device from its readings and its two
/// process lists: the fields as `stat_ok` gives them, and no process list
/// exactly when both lists are missing, else the merged list attributed.
pub fn build_sample(
    index: u32,
    readings: DeviceReadings,
    compute: Option<Vec<RawProcess>>,
    graphics: Option<Vec<RawProcess>>,
    mapping: &NamespaceMap,
) -> (g: GpuStat)
    ensures
        stat_ok(g, index, readings, g.processes),
        match merged_processes(compute, graphics) {
            None => g.processes is None,
            Some(m) => g.processes matches Some(ps) && attributed(ps@, m, mapping@),
        },
        g.processes matches Some(ps) ==> processes_ok(ps@, mapping@),
{
    let ghost merged = merged_processes(compute, graphics);
    let processes = match merge_process_lists(compute, graphics) {
        Some(list) => {
            proof {
                lemma_dedup_distinct(list_or_empty(compute) + list_or_empty(graphics));
            }
            let ps = attribute_processes(&list, mapping);
            assert(processes_ok(ps@, mapping@));
            Some(ps)
        },
        None => None,
    };
    let ghost rd = readings;
    let g = assemble_stat(index, readings, processes);
    assert(stat_ok(g, index, rd, g.processes));
    g
}

/// A sample of the device at `index`: the placeholder form when it is
/// unavailable, else built from the device's readings, with a process
/// list, if any, as `processes_ok` says.
pub open spec fn sample_ok(g: GpuStat, index: u32, mapping: Map<u32, u32>) -> bool {
    &&& g.index == index
    &&& !g.available ==> exists|m: Seq<char>| is_unavailable(g, index, m)
    &&& g.available ==> exists|rd: DeviceReadings| #[trigger] stat_ok(g, index, rd, g.processes)
    &&& g.available ==> (g.processes matches Some(ps) ==> processes_ok(ps@, mapping))
}

// ---- the collection ----

/// Strictly ascending.
pub open spec fn ascending(s: Seq<u32>) -> bool {
    forall|i: int, j: int| 0 <= i < j < s.len() ==> s[i] < s[j]
}

pub open spec fn selection(gpu_ids: Option<&[u32]>) -> Option<Seq<u32>> {
    match gpu_ids {
        Some(ids) => Some(ids@),
        None => None,
    }
}

/// The device indices to query: with no selection every index below the
/// device count, else the selected indices as a set, in ascending order.
pub open spec fn indices_ok(r: Seq<u32>, gpu_ids: Option<Seq<u32>>, count: u32) -> bool {
    match gpu_ids {
        None => r.len() == count && forall|i: int| 0 <= i < count ==> r[i] == i as u32,
        Some(ids) => ascending(r) && forall|v: u32| r.contains(v) <==> ids.contains(v),
    }
}

proof fn lemma_insert_contains(s: Seq<u32>, pos: int, x: u32)
    requires
        0 <= pos <= s.len(),
    ensures
        forall|v: u32| s.insert(pos, x).contains(v) <==> (s.contains(v) || v == x),
{
    let t = s.insert(pos, x);
    assert forall|v: u32| t.contains(v) <==> (s.contains(v) || v == x) by {
        if t.contains(v) {
            let k = choose|k: int| 0 <= k < t.len() && t[k] == v;
            if k < pos {
                assert(s[k] == v);
            } else if k > pos {
                assert(s[k - 1] == v);
            }
        }
        if s.contains(v) {
            let k = choose|k: int| 0 <= k < s.len() && s[k] == v;
            if k < pos {
                assert(t[k] == v);
            } else {
                assert(t[k + 1] == v);
            }
        }
        if v == x {
            assert(t[pos] == v);
        }
    }
}

fn insert_sorted(r: &mut Vec<u32>, x: u32)
    requires
        ascending(old(r)@),
    ensures
        ascending(final(r)@),
        forall|v: u32| final(r)@.contains(v) <==> (old(r)@.contains(v) || v == x),
{
    let mut pos: usize = 0;
    while pos < r.len() && r[pos] < x
        invariant
            pos <= r@.len(),
            forall|k: int| 0 <= k < pos ==> r@[k] < x,
        decreases r@.len() - pos,
    {
        pos = pos + 1;
    }
    if pos < r.len() && r[pos] == x {
        assert(r@[pos as int] == x);
        assert(r@.contains(x));
        assert(forall|v: u32| r@.contains(v) <==> (old(r)@.contains(v) || v == x));
        return;
    }
    let ghost before = r@;
    assert(before == old(r)@);
    r.insert(pos, x);
    proof {
        assert forall|k: int| 0 <= k < r@.len() implies r@[k] == (if k < pos {
            before[k]
        } else if k == pos {
            x
        } else {
            before[k - 1]
        }) by {}
        assert forall|i: int, j: int| 0 <= i < j < r@.len() implies r@[i] < r@[j] by {
            if j > pos && i >= pos && i != pos {
                assert(before[i - 1] < before[j - 1]);
            } else if j > pos && i == pos {
                assert(before[pos as int] > x);
                if j - 1 > pos {
                    assert(before[pos as int] < before[j - 1]);
                }
            } else if j > pos {
                assert(before[i] < x);
                assert(before[pos as int] > x);
                if j - 1 > pos {
                    assert(before[pos as int] < before[j - 1]);
                }
            }
        }
        lemma_insert_contains(before, pos as int, x);
        assert(forall|v: u32| r@.contains(v) <==> (old(r)@.contains(v) || v == x));
    }
}

/// The device indices to query.
pub fn device_indices(gpu_ids: Option<&[u32]>, count: u32) -> (r: Vec<u32>)
    ensures
        indices_ok(r@, selection(gpu_ids), count),
{
    let mut r: Vec<u32> = Vec::new();
    match gpu_ids {
        Some(sel) => {
            let mut k: usize = 0;
            while k < sel.len()
                invariant
                    k <= sel@.len(),
                    ascending(r@),
                    forall|v: u32| r@.contains(v) <==> (exists|j: int| 0 <= j < k && sel@[j] == v),
                decreases sel@.len() - k,
            {
                insert_sorted(&mut r, sel[k]);
                proof {
                    assert forall|v: u32| r@.contains(v) <==> (exists|j: int| 0 <= j < k + 1 && sel@[j] == v) by {
                        if v == sel@[k as int] {
                            assert(sel@[k as int] == v);
                        }
                        if exists|j: int| 0 <= j < k + 1 && sel@[j] == v {
                            let j = choose|j: int| 0 <= j < k + 1 && sel@[j] == v;
                            if j < k {
                                assert(exists|j2: int| 0 <= j2 < k && sel@[j2] == v);
                            }
                        }
                    }
                }
                k = k + 1;
            }
        },
        None => {
            let mut k: u32 = 0;
            while k < count
                invariant
                    k <= count,
                    r@.len() == k,
                    forall|i: int| 0 <= i < k ==> r@[i] == i as u32,
                decreases count - k,
            {
                r.push(k);
                k = k + 1;
            }
        },
    }
    r
}

/// The host name, or `"unknown"` when it could not be read.
pub fn host_or_unknown(h: Option<String>) -> (r: String)
    ensures
        r@ == match h {
            Some(s) => s@,
            None => "unknown"@,
        },
{
    match h {
        Some(s) => s,
        None => String::from_str("unknown"),
    }
}

/// One sample per index, in order.
pub open spec fn samples_ok(gpus: Seq<GpuStat>, idx: Seq<u32>, mapping: Map<u32, u32>) -> bool {
    &&& gpus.len() == idx.len()
    &&& forall|i: int| 0 <= i < idx.len() ==> sample_ok(#[trigger] gpus[i], idx[i], mapping)
}

/// The collection of a query of `count` devices: one sample for each index
/// to query, in order, each available or in placeholder form.
pub open spec fn collection_ok(
    c: GpuStatCollection,
    gpu_ids: Option<Seq<u32>>,
    count: u32,
    mapping: Map<u32, u32>,
) -> bool {
    exists|idx: Seq<u32>| #[trigger] indices_ok(idx, gpu_ids, count) && samples_ok(c.gpus@, idx, mapping)
}

/// A device's sample when it could be queried, else the placeholder that
/// carries the error's message.
pub fn sample_or_placeholder(index: u32, outcome: Result<GpuStat, String>) -> (g: GpuStat)
    ensures
        match outcome {
            Ok(s) => g == s,
            Err(m) => is_unavailable(g, index, m@),
        },
{
    match outcome {
        Ok(s) => s,
        Err(m) => unavailable_stat(index, m.as_str()),
    }
}

/// The host name shown: the one read, else `"unknown"`.
pub open spec fn host_text(h: Option<String>) -> Seq<char> {
    match h {
        Some(s) => s@,
        None => "unknown"@,
    }
}

impl GpuStatCollection {
    /// Samples the devices to query on a host with `count` devices, with the
    /// host name and driver version as read. Never fails: a device that
    /// fails is kept as an unavailable sample.
    pub fn query_devices(
        nvml: &Nvml,
        count: u32,
        gpu_ids: Option<&[u32]>,
        mapping: &NamespaceMap,
        hostname: Option<String>,
        driver_version: Option<String>,
    ) -> (c: Self)
        ensures
            collection_ok(c, selection(gpu_ids), count, mapping@),
            c.hostname@ == host_text(hostname),
            c.driver_version == driver_version,
            valid_time(c.query_time),
    {
        let host = host_or_unknown(hostname);
        let ids = device_indices(gpu_ids, count);
        let mut gpus: Vec<GpuStat> = Vec::new();
        let mut i: usize = 0;
        while i < ids.len()
            invariant
                i <= ids@.len(),
                gpus@.len() == i,
                forall|k: int| 0 <= k < i ==> sample_ok(#[trigger] gpus@[k], ids@[k], mapping@),
            decreases ids@.len() - i,
        {
            let index = ids[i];
            let outcome = match get_gpu_info(nvml, index, mapping) {
                Ok(g) => Ok(g),
                Err(e) => Err(error_message(&e)),
            };
            gpus.push(sample_or_placeholder(index, outcome));
            i = i + 1;
        }
        let query_time = now_utc();
        let c = GpuStatCollection { hostname: host, query_time, driver_version, gpus };
        assert(indices_ok(ids@, selection(gpu_ids), count) && samples_ok(c.gpus@, ids@, mapping@));
        c
    }

    /// Counts the devices and samples those to query (all of them when
    /// `gpu_ids` is `None`, else the selected indices in ascending order,
    /// each once), with the host name (`"unknown"` when it cannot be read)
    /// and the driver version. Only a failure to count the devices fails the
    /// query.
    pub fn new_query(nvml: &Nvml, gpu_ids: Option<&[u32]>, mapping: &NamespaceMap) -> (r: Result<
        Self,
        NvmlError,
    >)
        ensures
            r matches Ok(c) ==> exists|n: u32| #[trigger] collection_ok(c, selection(gpu_ids), n, mapping@),
    {
        match device_count(nvml) {
            Ok(n) => {
                let hostname = host_name();
                let driver = driver_version(nvml);
                Ok(Self::query_devices(nvml, n, gpu_ids, mapping, hostname, driver))
            },
            Err(e) => Err(e),
        }
    }
}

// ---- laws ----

/// Memory used never exceeds memory total in a sample whose readings report
/// no more used bytes than total bytes.
pub proof fn lemma_memory_within_total(
    g: GpuStat,
    index: u32,
    r: DeviceReadings,
    processes: Option<Vec<GpuProcessInfo>>,
)
    requires
        stat_ok(g, index, r, processes),
        r.memory_used_bytes <= r.memory_total_bytes,
    ensures
        g.memory_used <= g.memory_total,
{
    vstd::arithmetic::div_mod::lemma_div_is_ordered(
        r.memory_used_bytes as int,
        r.memory_total_bytes as int,
        MB as int,
    );
}

} // verus!
