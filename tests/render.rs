use gpustat::display::{use_color, DisplayOptions};
use gpustat::model::{GpuProcessInfo, GpuStat, GpuStatCollection, Timestamp};
use gpustat::display::format_process;
use gpustat::sampler::unavailable_stat;

fn alice() -> GpuProcessInfo {
    GpuProcessInfo {
        pid: 500,
        username: Some("alice".to_string()),
        command: "train.py".to_string(),
        gpu_memory_usage: Some(2048),
        username_from_ngid_mapping: false,
        real_pid: None,
    }
}

fn device(index: u32, processes: Option<Vec<GpuProcessInfo>>) -> GpuStat {
    GpuStat {
        index,
        name: "Tesla T4".to_string(),
        uuid: "GPU-0000".to_string(),
        temperature: Some(72),
        fan_speed: None,
        utilization: Some(85),
        utilization_enc: None,
        utilization_dec: None,
        power_draw: Some(70),
        power_limit: Some(250),
        memory_used: 4096,
        memory_total: 8192,
        processes,
        available: true,
    }
}

fn collection(gpus: Vec<GpuStat>) -> GpuStatCollection {
    GpuStatCollection {
        hostname: "node1".to_string(),
        query_time: Timestamp { year: 2024, month: 3, day: 7, hour: 9, minute: 5, second: 1, nanosecond: 0 },
        driver_version: Some("550.54".to_string()),
        gpus,
    }
}

#[test]
fn process_with_user_and_command() {
    let opts = DisplayOptions { show_cmd: true, show_user: true, ..Default::default() };
    assert_eq!(format_process(&alice(), &opts, false), " alice:train.py(2048M)");
}

#[test]
fn process_with_defaults_ends_with_memory() {
    let opts = DisplayOptions::default();
    let s = format_process(&alice(), &opts, false);
    assert_eq!(s, " alice(2048M)");
    assert!(s.ends_with("(2048M)"));
}

#[test]
fn process_with_command_only() {
    let opts = DisplayOptions { show_cmd: true, ..Default::default() };
    assert_eq!(format_process(&alice(), &opts, false), " train.py(2048M)");
}

#[test]
fn process_without_user_or_memory() {
    let mut p = alice();
    p.username = None;
    p.gpu_memory_usage = None;
    let opts = DisplayOptions { show_pid: true, ..Default::default() };
    assert_eq!(format_process(&p, &opts, false), " --/500(?M)");
}

#[test]
fn remapped_pid_shows_host_pid() {
    let mut p = alice();
    p.username_from_ngid_mapping = true;
    p.real_pid = Some(12345);
    let opts = DisplayOptions { show_pid: true, show_cmd: true, show_user: true, ..Default::default() };
    let s = format_process(&p, &opts, false);
    assert_eq!(s, " alice:train.py/500->12345(2048M)");
    assert!(s.contains("500->12345"));
}

#[test]
fn device_line_with_one_process() {
    let g = device(0, Some(vec![alice()]));
    let line = g.format_line(&DisplayOptions::default(), false);
    assert_eq!(line, "[0]         Tesla T4 |  72\u{b0}C,  85 % |  4096 /  8192 MB | alice(2048M)");
}

#[test]
fn device_line_with_empty_process_list() {
    let g = device(1, Some(vec![]));
    let line = g.format_line(&DisplayOptions::default(), false);
    assert_eq!(line, "[1]         Tesla T4 |  72\u{b0}C,  85 % |  4096 /  8192 MB |");
}

#[test]
fn unsupported_process_list() {
    let g = device(0, None);
    let line = g.format_line(&DisplayOptions::default(), false);
    assert!(line.ends_with(" | (Not Supported)"));
    let bare = g.format_line(&DisplayOptions { no_processes: true, ..Default::default() }, false);
    assert_eq!(line, format!("{} | (Not Supported)", bare.trim_end_matches(" |")));
    assert!(!bare.contains("Not Supported"));
}

#[test]
fn device_line_with_all_fields() {
    let mut g = device(3, Some(vec![]));
    g.fan_speed = Some(40);
    g.utilization_enc = Some(5);
    let opts = DisplayOptions {
        show_fan_speed: true,
        show_codec: true,
        show_power: true,
        show_power_limit: true,
        gpuname_width: Some(0),
        no_processes: true,
        ..Default::default()
    };
    assert_eq!(
        g.format_line(&opts, false),
        "[3]  72\u{b0}C,  40 %,  85 % (E:   5 %, D:  ?? %),   70 / 250 W |  4096 /  8192 MB"
    );
}

#[test]
fn device_line_with_unknown_metrics() {
    let mut g = device(0, Some(vec![]));
    g.temperature = None;
    g.utilization = None;
    g.name = "NVIDIA GeForce RTX 3090".to_string();
    let opts = DisplayOptions { gpuname_width: Some(10), show_power: true, ..Default::default() };
    assert_eq!(
        g.format_line(&opts, false),
        "[0] \u{2026} RTX 3090 |  ??\u{b0}C,  ?? %,   70  |  4096 /  8192 MB |"
    );
}

#[test]
fn failed_device_among_four() {
    let mut gpus = Vec::new();
    for i in 0..4u32 {
        if i == 2 {
            gpus.push(unavailable_stat(i, "Unknown Error"));
        } else {
            gpus.push(device(i, Some(vec![])));
        }
    }
    let c = collection(gpus);
    assert!(!c.gpus[2].available);
    assert!(c.gpus[2].name.starts_with("((Error:"));
    assert_eq!(c.gpus[2].temperature, None);
    assert_eq!(c.gpus[2].processes.is_none(), true);
    let opts = DisplayOptions { no_header: true, ..Default::default() };
    let lines = c.format_lines(&opts, false);
    assert_eq!(lines.len(), 4);
    assert_eq!(lines[2], "[2] ((Error: Unknown Error)) |  ??\u{b0}C,  ?? % |     0 /     0 MB | (Not Supported)");
    assert_eq!(lines[0], "[0]                 Tesla T4 |  72\u{b0}C,  85 % |  4096 /  8192 MB |");
    assert!(lines[3].starts_with("[3] "));
}

#[test]
fn no_devices_gives_one_notice() {
    let c = collection(vec![]);
    let opts = DisplayOptions { no_header: true, ..Default::default() };
    assert_eq!(c.format_lines(&opts, false), vec!["(No GPUs are available)".to_string()]);
}

#[test]
fn header_line() {
    let c = collection(vec![device(0, None)]);
    let lines = c.format_lines(&DisplayOptions::default(), false);
    assert_eq!(lines.len(), 2);
    assert_eq!(lines[0], "node1  2024-03-07 09:05:01  550.54");
    let mut c2 = collection(vec![]);
    c2.driver_version = None;
    assert_eq!(c2.format_header(false), "node1  2024-03-07 09:05:01  N/A");
}

#[test]
fn name_column_grows_to_longest_name() {
    let mut g = device(0, None);
    g.name = "A".repeat(20);
    let c = collection(vec![g, device(1, None)]);
    assert_eq!(c.name_column_width(&DisplayOptions::default()), 20);
    assert_eq!(collection(vec![device(0, None)]).name_column_width(&DisplayOptions::default()), 16);
    let opts = DisplayOptions { gpuname_width: Some(5), ..Default::default() };
    assert_eq!(c.name_column_width(&opts), 5);
}

#[test]
fn rendering_is_deterministic() {
    let c = collection(vec![device(0, Some(vec![alice()])), device(1, None)]);
    let opts = DisplayOptions { show_cmd: true, show_pid: true, ..Default::default() };
    assert_eq!(c.format_lines(&opts, false), c.format_lines(&opts, false));
}

#[test]
fn color_choice() {
    let mut o = DisplayOptions::default();
    assert!(use_color(&o, true));
    assert!(!use_color(&o, false));
    o.force_color = true;
    assert!(use_color(&o, false));
    o.no_color = true;
    assert!(!use_color(&o, true));
}
