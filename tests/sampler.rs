use gpustat::nsmap::NamespaceMap;
use gpustat::sampler::{
    assemble_stat, attribute_processes, build_sample, device_indices, host_or_unknown,
    merge_process_lists, now_utc, sample_or_placeholder, unavailable_stat, DeviceReadings,
    RawProcess,
};

fn raw(pid: u32, used_bytes: Option<u64>) -> RawProcess {
    RawProcess { pid, used_bytes }
}

fn readings(used: u64, total: u64) -> DeviceReadings {
    DeviceReadings {
        name: "Tesla T4".to_string(),
        uuid: "GPU-1".to_string(),
        temperature: Some(72),
        fan_speed: None,
        utilization: Some(85),
        utilization_enc: Some(0),
        utilization_dec: None,
        power_usage: Some(70_512),
        power_limit: Some(250_000),
        memory_used_bytes: used,
        memory_total_bytes: total,
    }
}

#[test]
fn both_queries_failed_is_unsupported() {
    assert_eq!(merge_process_lists(None, None), None);
}

#[test]
fn one_query_succeeding_is_supported() {
    assert_eq!(merge_process_lists(Some(vec![]), None), Some(vec![]));
    assert_eq!(merge_process_lists(None, Some(vec![raw(7, None)])), Some(vec![raw(7, None)]));
}

#[test]
fn merged_lists_keep_first_seen() {
    let compute = vec![raw(10, Some(1)), raw(11, None), raw(10, Some(2))];
    let graphics = vec![raw(12, Some(3)), raw(11, Some(4))];
    assert_eq!(
        merge_process_lists(Some(compute), Some(graphics)),
        Some(vec![raw(10, Some(1)), raw(11, None), raw(12, Some(3))])
    );
}

#[test]
fn sample_converts_units() {
    let g = assemble_stat(2, readings(4096 * 1048576 + 5, 8192 * 1048576), Some(vec![]));
    assert_eq!(g.index, 2);
    assert_eq!(g.memory_used, 4096);
    assert_eq!(g.memory_total, 8192);
    assert_eq!(g.power_draw, Some(70));
    assert_eq!(g.power_limit, Some(250));
    assert_eq!(g.temperature, Some(72));
    assert!(g.available);
    assert!(g.memory_used <= g.memory_total);
}

#[test]
fn memory_used_within_total_on_fixtures() {
    for (used, total) in [(0u64, 0u64), (1048575, 1048576), (5 << 30, 8 << 30), (8 << 30, 8 << 30)] {
        let g = assemble_stat(0, readings(used, total), None);
        assert!(g.memory_used <= g.memory_total);
    }
}

#[test]
fn unavailable_sample() {
    let g = unavailable_stat(2, "GPU is lost");
    assert_eq!(g.index, 2);
    assert_eq!(g.name, "((Error: GPU is lost))");
    assert!(g.uuid.is_empty());
    assert!(!g.available);
    assert_eq!(g.memory_used, 0);
    assert!(g.processes.is_none());
    assert!(g.temperature.is_none() && g.fan_speed.is_none() && g.power_draw.is_none());
}

#[test]
fn processes_get_megabytes() {
    let list = vec![raw(4_000_000_000, Some(2048 * 1048576)), raw(4_000_000_001, None)];
    let ps = attribute_processes(&list, &NamespaceMap::empty());
    assert_eq!(ps.len(), 2);
    assert_eq!(ps[0].pid, 4_000_000_000);
    assert_eq!(ps[0].gpu_memory_usage, Some(2048));
    assert_eq!(ps[1].gpu_memory_usage, None);
    assert_eq!(ps[0].command, "?");
    assert!(!ps[0].username_from_ngid_mapping);
}

#[test]
fn all_devices_without_selection() {
    assert_eq!(device_indices(None, 4), vec![0, 1, 2, 3]);
    assert!(device_indices(None, 0).is_empty());
}

#[test]
fn selection_is_ascending_set() {
    assert_eq!(device_indices(Some(&[1, 0]), 4), vec![0, 1]);
    assert_eq!(device_indices(Some(&[3, 1, 3, 2, 1]), 4), vec![1, 2, 3]);
    assert_eq!(device_indices(Some(&[7]), 2), vec![7]);
    assert!(device_indices(Some(&[]), 4).is_empty());
}

#[test]
fn host_name_falls_back_to_unknown() {
    assert_eq!(host_or_unknown(None), "unknown");
    assert_eq!(host_or_unknown(Some("node1".to_string())), "node1");
}

#[test]
fn sample_without_process_queries() {
    let g = build_sample(1, readings(5, 10), None, None, &NamespaceMap::empty());
    assert!(g.available);
    assert_eq!(g.index, 1);
    assert!(g.processes.is_none());
}

#[test]
fn sample_with_merged_processes() {
    let compute = Some(vec![raw(4_000_000_000, Some(2048 * 1048576)), raw(4_000_000_001, None)]);
    let graphics = Some(vec![raw(4_000_000_000, Some(1))]);
    let g = build_sample(0, readings(4096 * 1048576, 8192 * 1048576), compute, graphics, &NamespaceMap::empty());
    let ps = g.processes.expect("supported");
    assert_eq!(ps.len(), 2);
    assert_eq!(ps[0].pid, 4_000_000_000);
    assert_eq!(ps[0].gpu_memory_usage, Some(2048));
    assert_eq!(ps[1].pid, 4_000_000_001);
    assert_eq!(g.memory_used, 4096);
    assert_eq!(g.temperature, Some(72));
    let empty = build_sample(0, readings(0, 0), None, Some(vec![]), &NamespaceMap::empty());
    assert_eq!(empty.processes.map(|p| p.len()), Some(0));
}

#[test]
fn failed_device_becomes_placeholder() {
    let ok = assemble_stat(0, readings(1, 2), None);
    let kept = sample_or_placeholder(0, Ok(ok));
    assert!(kept.available);
    let failed = sample_or_placeholder(2, Err("Unknown Error".to_string()));
    assert!(!failed.available);
    assert_eq!(failed.index, 2);
    assert_eq!(failed.name, "((Error: Unknown Error))");
    assert!(failed.processes.is_none());
}

#[test]
fn clock_gives_a_calendar_time() {
    let t = now_utc();
    assert!(t.year >= 2020);
    assert!((1..=12).contains(&t.month));
    assert!((1..=31).contains(&t.day));
    assert!(t.hour < 24 && t.minute < 60 && t.second < 60);
}
