use hilen::settings::{msaa_sample_count_from, MsaaError};
use hilen::wsl::{scale_to_set, windows_scale};

const LOG: &str = "
[10:28:54.567] \trdpMonitor[0]: desktopScaleFactor:150, deviceScaleFactor:140
[10:28:54.567] \trdpMonitor[0]: scale:1, client scale :1.00
[10:28:54.567] \trdpMonitor[1]: desktopScaleFactor:100, deviceScaleFactor:100
";

#[test]
fn first_monitor_scale() {
    assert_eq!(windows_scale(LOG), Some(150));
}

#[test]
fn last_report_wins() {
    let log = format!("{LOG}[11:00:00.000] \trdpMonitor[0]: desktopScaleFactor:125, deviceScaleFactor:120\n");
    assert_eq!(windows_scale(&log), Some(125));
}

#[test]
fn no_scale_line() {
    assert_eq!(windows_scale("[10:05:41.456] launching weston-desktop-shell\n"), None);
}

#[test]
fn preset_wins() {
    assert_eq!(scale_to_set(Some("2"), Some(LOG)), None);
    assert_eq!(scale_to_set(None, Some(LOG)), Some(150));
    assert_eq!(scale_to_set(None, None), None);
}

#[test]
fn scale_without_comma_is_read_to_the_line_end() {
    assert_eq!(windows_scale("rdpMonitor[0]: desktopScaleFactor: 175 \r\n"), Some(175));
}

#[test]
fn unreadable_scale_is_skipped_for_an_earlier_one() {
    let log = "rdpMonitor[0]: desktopScaleFactor:150,\nrdpMonitor[0]: desktopScaleFactor:abc,\n";
    assert_eq!(windows_scale(log), Some(150));
}

#[test]
fn scale_past_u32_is_not_a_scale() {
    assert_eq!(windows_scale("rdpMonitor[0]: desktopScaleFactor:4294967296,"), None);
    assert_eq!(windows_scale("rdpMonitor[0]: desktopScaleFactor:+4294967295,"), Some(4294967295));
}

#[test]
fn other_monitor_lines_do_not_count() {
    assert_eq!(windows_scale("rdpMonitor[1]: desktopScaleFactor:200,"), None);
    assert_eq!(windows_scale(""), None);
}

#[test]
fn msaa_defaults_to_four() {
    assert_eq!(msaa_sample_count_from(None), Ok(4));
    assert_eq!(msaa_sample_count_from(Some("1")), Ok(1));
    assert_eq!(msaa_sample_count_from(Some("2")), Ok(2));
}

#[test]
fn msaa_rejects_other_values() {
    assert_eq!(msaa_sample_count_from(Some("3")), Err(MsaaError::Unsupported(3)));
    assert_eq!(msaa_sample_count_from(Some("four")), Err(MsaaError::Unparsable));
    assert_eq!(msaa_sample_count_from(Some("")), Err(MsaaError::Unparsable));
}
