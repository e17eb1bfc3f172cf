use gpustat::nsmap::{parse_status, parse_u32, NamespaceMap, ProcEntry};

fn entry(name: &str, status: &str) -> ProcEntry {
    ProcEntry { name: name.to_string(), status: status.to_string() }
}

#[test]
fn parse_u32_reads_numbers() {
    assert_eq!(parse_u32("0"), Some(0));
    assert_eq!(parse_u32("12345"), Some(12345));
    assert_eq!(parse_u32("+42"), Some(42));
    assert_eq!(parse_u32("4294967295"), Some(u32::MAX));
}

#[test]
fn parse_u32_rejects_other_text() {
    assert_eq!(parse_u32(""), None);
    assert_eq!(parse_u32("+"), None);
    assert_eq!(parse_u32("-1"), None);
    assert_eq!(parse_u32("12a"), None);
    assert_eq!(parse_u32(" 1"), None);
    assert_eq!(parse_u32("4294967296"), None);
    assert_eq!(parse_u32("self"), None);
}

#[test]
fn parse_status_reads_both_fields() {
    let status = "Name:\tpython\nTgid:\t12345\nNgid:\t0\nPid:\t12345\nNStgid:\t12345\t500\n";
    let (ngid, ids) = parse_status(status);
    assert_eq!(ngid, Some(0));
    assert_eq!(ids, vec![12345, 500]);
}

#[test]
fn parse_status_without_fields() {
    let (ngid, ids) = parse_status("Name:\tbash\nPid:\t1\n");
    assert_eq!(ngid, None);
    assert!(ids.is_empty());
}

#[test]
fn mapping_maps_namespace_ids_to_host_pid() {
    let entries = vec![
        entry("12345", "Name:\tpython\nNgid:\t0\nNStgid:\t12345\t500\n"),
        entry("777", "Name:\tx\nNgid:\t31\nNStgid:\t777\n"),
        entry("self", "Ngid:\t9\n"),
    ];
    let m = NamespaceMap::build(&entries);
    assert_eq!(m.get(500), Some(12345));
    assert_eq!(m.get(12345), Some(12345));
    assert_eq!(m.get(31), Some(777));
    assert_eq!(m.get(0), None);
    assert_eq!(m.get(9), None);
}

#[test]
fn mapping_build_is_idempotent() {
    let entries = vec![
        entry("12345", "Ngid:\t0\nNStgid:\t12345\t500\n"),
        entry("600", "Ngid:\t500\nNStgid:\t600\n"),
    ];
    let a = NamespaceMap::build(&entries);
    let b = NamespaceMap::build(&entries);
    for pid in [0u32, 500, 600, 12345, 1] {
        assert_eq!(a.get(pid), b.get(pid));
    }
    assert_eq!(a.get(500), Some(600));
    assert_eq!(a.get(12345), Some(12345));
}

#[test]
fn empty_mapping_has_nothing() {
    let m = NamespaceMap::empty();
    assert_eq!(m.get(1), None);
}
