use webp_converter::video::{clock_fields, duration_text, out_time_text, OutTime};

fn fields(s: &str) -> Option<(String, String, String)> {
    clock_fields(s)
}

#[test]
fn duration_line_text() {
    let line = "  Duration: 00:01:23.45, start: 0.000000, bitrate: 1234 kb/s";
    assert_eq!(duration_text(line).as_deref(), Some("00:01:23.45"));
    let (h, m, s) = fields("00:01:23.45").unwrap();
    assert_eq!((h.as_str(), m.as_str(), s.as_str()), ("00", "01", "23.45"));
}

#[test]
fn non_duration_lines_have_no_duration() {
    assert!(duration_text("frame= 10 fps=0.0").is_none());
    assert!(duration_text("duration: 00:00:01").is_none());
}

#[test]
fn duration_text_edge_cases() {
    assert_eq!(duration_text("Duration:").as_deref(), Some(""));
    assert_eq!(duration_text("x Duration:\t 1:2:3 ").as_deref(), Some("1:2:3"));
    assert_eq!(duration_text("Duration: N/A, bitrate").as_deref(), Some("N/A"));
    assert_eq!(duration_text("Duration: a Duration: b").as_deref(), Some("a Duration: b"));
}

#[test]
fn clock_fields_need_exactly_three() {
    assert!(fields("1:2").is_none());
    assert!(fields("1:2:3:4").is_none());
    assert!(fields("12").is_none());
    let (h, m, s) = fields(" 1 : 2 :3.5 ").unwrap();
    assert_eq!((h.as_str(), m.as_str(), s.as_str()), ("1", "2", "3.5"));
    let (h, m, s) = fields("::").unwrap();
    assert_eq!((h.as_str(), m.as_str(), s.as_str()), ("", "", ""));
}

#[test]
fn out_time_fields() {
    match out_time_text("out_time_us=12340000") {
        Some(OutTime::Microseconds(t)) => assert_eq!(t, "12340000"),
        _ => panic!("expected microseconds"),
    }
    match out_time_text("  out_time_ms=500 \n") {
        Some(OutTime::Microseconds(t)) => assert_eq!(t, "500"),
        _ => panic!("expected microseconds"),
    }
    match out_time_text("out_time=00:00:12.340000") {
        Some(OutTime::Clock(t)) => assert_eq!(t, "00:00:12.340000"),
        _ => panic!("expected a clock time"),
    }
    match out_time_text("out_time_us=N/A") {
        Some(OutTime::Microseconds(t)) => assert_eq!(t, "N/A"),
        _ => panic!("expected microseconds"),
    }
    assert!(out_time_text("frame=10").is_none());
    assert!(out_time_text("progress=end").is_none());
    assert!(out_time_text("xout_time=1").is_none());
}
