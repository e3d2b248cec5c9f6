use tbwidget::logging::{
    format_log_date, format_log_line, format_log_timestamp, plugin_log_message,
    sanitize_log_field, should_write_log,
};

#[test]
fn release_logging_keeps_persistent_categories() {
    assert!(should_write_log(false, false, "FLOW"));
    assert!(should_write_log(false, false, "ACTION"));
    assert!(should_write_log(false, false, "ERROR"));
    assert!(!should_write_log(false, false, "DEBUG"));
    assert!(!should_write_log(false, false, "INFO"));
    assert!(should_write_log(false, false, "PLUGIN"));
}

#[test]
fn runtime_debug_enables_all_log_categories() {
    assert!(should_write_log(false, true, "DEBUG"));
    assert!(should_write_log(false, true, "INFO"));
}

#[test]
fn debug_build_enables_all_log_categories() {
    assert!(should_write_log(true, false, "DEBUG"));
    assert!(should_write_log(true, false, "INFO"));
}

#[test]
fn log_timestamp_is_zero_padded() {
    assert_eq!(format_log_timestamp(2026, 8, 5, 7, 3, 9, 42), "2026-08-05 07:03:09.042");
    assert_eq!(format_log_timestamp(999, 12, 31, 23, 59, 59, 999), "0999-12-31 23:59:59.999");
}

#[test]
fn log_date_names_the_daily_file() {
    assert_eq!(format_log_date(2026, 1, 9), "20260109");
}

#[test]
fn log_line_pads_level_to_five_characters() {
    assert_eq!(
        format_log_line("2026-08-05 07:03:09.042", "FLOW", "startup", "ok"),
        "[2026-08-05 07:03:09.042] FLOW  [startup] ok"
    );
    assert_eq!(
        format_log_line("t", "ACTION", "plugins", "done"),
        "[t] ACTION [plugins] done"
    );
    assert_eq!(format_log_line("t", "ERROR", "m", ""), "[t] ERROR [m] ");
}

#[test]
fn log_fields_stay_on_one_line() {
    assert_eq!(sanitize_log_field("a\r\nb\nc"), "a  b c");
    assert_eq!(sanitize_log_field("plain"), "plain");
}

#[test]
fn plugin_log_message_is_cut_to_8192_characters() {
    let long = "x".repeat(9000);
    let text = plugin_log_message("demo", "panel", "info", &long);
    let prefix = "plugin=demo surface=panel level=info ";
    assert!(text.starts_with(prefix));
    assert_eq!(text.chars().count(), prefix.chars().count() + 8192);
    assert_eq!(
        plugin_log_message("a\nb", "popup", "warn\r", "line1\nline2"),
        "plugin=a b surface=popup level=warn  line1 line2"
    );
}
