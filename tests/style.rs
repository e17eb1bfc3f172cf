use gpustat::display::{
    emit, has_escape,
    power_style_of, temperature_style_of, threshold_style_of, user_style_of, DisplayOptions, Style,
    Tint,
};
use gpustat::model::GpuStat;

fn st(tint: Tint, bold: bool) -> Style {
    Style { tint, bold }
}

#[test]
fn temperature_threshold() {
    assert_eq!(temperature_style_of(Some(49)), st(Tint::Red, false));
    assert_eq!(temperature_style_of(Some(50)), st(Tint::Red, true));
    assert_eq!(temperature_style_of(None), st(Tint::Plain, false));
}

#[test]
fn utilization_threshold() {
    assert_eq!(threshold_style_of(Some(29), 30, Tint::Green), st(Tint::Green, false));
    assert_eq!(threshold_style_of(Some(30), 30, Tint::Green), st(Tint::Green, true));
    assert_eq!(threshold_style_of(None, 30, Tint::Green), st(Tint::Green, true));
}

#[test]
fn power_ratio_threshold() {
    assert_eq!(power_style_of(Some(99), Some(250)), st(Tint::Magenta, false));
    assert_eq!(power_style_of(Some(100), Some(250)), st(Tint::Magenta, true));
    assert_eq!(power_style_of(Some(0), Some(0)), st(Tint::Magenta, true));
    assert_eq!(power_style_of(None, Some(250)), st(Tint::Magenta, true));
}

#[test]
fn mapped_user_is_green() {
    assert_eq!(user_style_of(true), st(Tint::Green, false));
    assert_eq!(user_style_of(false), st(Tint::BrightBlack, false));
}

#[test]
fn colored_line_keeps_the_text() {
    let g = GpuStat {
        index: 0,
        name: "Tesla T4".to_string(),
        uuid: String::new(),
        temperature: Some(72),
        fan_speed: Some(10),
        utilization: Some(5),
        utilization_enc: None,
        utilization_dec: None,
        power_draw: Some(10),
        power_limit: Some(100),
        memory_used: 1,
        memory_total: 2,
        processes: None,
        available: true,
    };
    let opts = DisplayOptions { show_fan_speed: true, show_power: true, ..Default::default() };
    let line = g.format_line(&opts, true);
    assert!(line.contains("Tesla T4"));
    assert!(line.contains("Not Supported"));
}

#[test]
fn emit_without_color_appends_text() {
    let mut out = "x".to_string();
    emit(&mut out, "abc", st(Tint::Red, true), false);
    assert_eq!(out, "xabc");
}

#[test]
fn emit_with_color_wraps_or_keeps_text() {
    let mut out = String::new();
    emit(&mut out, "abc", st(Tint::Red, true), true);
    assert!(out == "abc" || out == "\u{1b}[1;31mabc\u{1b}[0m", "{:?}", out);
    let mut plain = String::new();
    emit(&mut plain, "abc", st(Tint::Plain, false), true);
    assert_eq!(plain, "abc");
    let mut escaped = String::new();
    emit(&mut escaped, "a\u{1b}b", st(Tint::Green, false), true);
    assert_eq!(escaped, "a\u{1b}b");
}

#[test]
fn escape_detection() {
    assert!(has_escape("a\u{1b}[0m"));
    assert!(!has_escape("plain"));
}

fn strip_escapes(s: &str) -> String {
    let mut out = String::new();
    let mut in_escape = false;
    for c in s.chars() {
        if in_escape {
            if c == 'm' {
                in_escape = false;
            }
        } else if c == '\u{1b}' {
            in_escape = true;
        } else {
            out.push(c);
        }
    }
    out
}

#[test]
fn colored_line_shows_the_plain_line() {
    let g = GpuStat {
        index: 1,
        name: "Tesla T4".to_string(),
        uuid: String::new(),
        temperature: Some(60),
        fan_speed: Some(10),
        utilization: Some(90),
        utilization_enc: Some(3),
        utilization_dec: None,
        power_draw: Some(200),
        power_limit: Some(250),
        memory_used: 100,
        memory_total: 200,
        processes: Some(vec![]),
        available: false,
    };
    let opts = DisplayOptions {
        show_fan_speed: true,
        show_codec: true,
        show_power: true,
        show_power_limit: true,
        ..Default::default()
    };
    let colored = g.format_line(&opts, true);
    assert_eq!(strip_escapes(&colored), g.format_line(&opts, false));
}
