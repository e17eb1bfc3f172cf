use gpustat::nsmap::{NamespaceMap, ProcEntry};
use gpustat::resolve::{command_of, finish_attribution, get_process_info, remap_of};

#[test]
fn remapped_pid_is_marked() {
    let r = finish_attribution(Some(12345), (Some("alice".to_string()), "train.py".to_string()));
    assert_eq!(r, (Some("alice".to_string()), "train.py".to_string(), true, Some(12345)));
}

#[test]
fn remap_without_command_is_not_marked() {
    let r = finish_attribution(Some(12345), (None, "?".to_string()));
    assert_eq!(r, (None, "?".to_string(), false, None));
}

#[test]
fn direct_lookup_is_not_marked() {
    let r = finish_attribution(None, (Some("alice".to_string()), "train.py".to_string()));
    assert_eq!(r, (Some("alice".to_string()), "train.py".to_string(), false, None));
}

#[test]
fn resolver_handles_any_pid() {
    let m = NamespaceMap::empty();
    for pid in [0u32, 1, u32::MAX, 4_000_000_000] {
        let (_, command, via, real) = get_process_info(pid, &m);
        assert!(!via);
        assert_eq!(real, None);
        assert!(!command.is_empty());
    }
}

#[test]
fn resolver_with_mapping_never_fails() {
    let m = NamespaceMap::build(&vec![ProcEntry {
        name: "4000000000".to_string(),
        status: "Ngid:\t0\nNStgid:\t4000000000\t500\n".to_string(),
    }]);
    let (_, command, via, real) = get_process_info(500, &m);
    assert_eq!(command, "?");
    assert!(!via);
    assert_eq!(real, None);
}

#[test]
fn command_is_a_base_name() {
    let m = NamespaceMap::empty();
    let (_, command, via, _) = get_process_info(1, &m);
    assert!(!via);
    assert!(!command.is_empty());
    assert!(!command.contains('/'));
}

#[test]
fn command_is_base_name_of_first_argument() {
    let args = Some(vec!["/usr/bin/python3".to_string(), "train.py".to_string()]);
    assert_eq!(command_of(&args, None), "python3");
    let args = Some(vec!["train.py".to_string()]);
    assert_eq!(command_of(&args, Some("ignored".to_string())), "train.py");
}

#[test]
fn command_falls_back_to_short_name() {
    assert_eq!(command_of(&Some(vec![]), Some("kworker".to_string())), "kworker");
    assert_eq!(command_of(&Some(vec![]), None), "?");
    assert_eq!(command_of(&None, Some("x".to_string())), "?");
    assert_eq!(command_of(&Some(vec!["/".to_string()]), None), "?");
}

#[test]
fn remap_only_to_another_pid() {
    let m = NamespaceMap::build(&vec![ProcEntry {
        name: "12345".to_string(),
        status: "Ngid:\t0\nNStgid:\t12345\t500\n".to_string(),
    }]);
    assert_eq!(remap_of(500, &m), Some(12345));
    assert_eq!(remap_of(12345, &m), None);
    assert_eq!(remap_of(1, &m), None);
}

#[test]
fn empty_short_name_is_unknown() {
    assert_eq!(command_of(&Some(vec![]), Some(String::new())), "?");
}
