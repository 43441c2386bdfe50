use linear_map::LinearMap;
use tracing_profile::{bool_setting, bool_word, max_rss_mib, timing, LogRow, RssUnit, TraceFilenameBuilder};

#[test]
fn boolean_settings_in_any_case() {
    assert_eq!(bool_setting("ON"), Some(true));
    assert_eq!(bool_setting("True"), Some(true));
    assert_eq!(bool_setting("1"), Some(true));
    assert_eq!(bool_setting("Off"), Some(false));
    assert_eq!(bool_setting("FALSE"), Some(false));
    assert_eq!(bool_setting("0"), Some(false));
    assert_eq!(bool_setting("yes"), None);
    assert_eq!(bool_word("TRUE"), None);
    assert_eq!(bool_word("true"), Some(true));
}

#[test]
fn peak_rss_in_mebibytes() {
    assert_eq!(max_rss_mib(2048, RssUnit::Kilobytes), 2);
    assert_eq!(max_rss_mib(3 * 1024 * 1024 + 5, RssUnit::Bytes), 3);
    assert_eq!(max_rss_mib(99999, RssUnit::Unknown), 0);
    assert_eq!(max_rss_mib(-5, RssUnit::Kilobytes), 0);
}

#[test]
fn csv_row_text() {
    let mut fields = LinearMap::new();
    fields.insert("field1".to_string(), "value1".to_string());
    fields.insert("n".to_string(), "2".to_string());
    let row = LogRow { span_name: "child span1".to_string(), start_ns: 202586, elapsed_ns: 31562, cpu_ns: 7, fields };
    assert_eq!(row.line(), "child span1,202586,31562,7,{\"field1\":\"value1\"; \"n\":\"2\"}");
    assert_eq!(LogRow::header(), "span_name,start_ns,elapsed_ns,cpu_ns,metadata\n");
    let empty = LogRow { span_name: "root".to_string(), start_ns: 0, elapsed_ns: 1, cpu_ns: 0, fields: LinearMap::new() };
    assert_eq!(empty.line(), "root,0,1,0,{}");
}

#[test]
fn csv_row_timing() {
    assert_eq!(timing(Some(10), 25, 7, 3), (10, 15, 10));
    assert_eq!(timing(None, 25, -4, 3), (25, 0, 3));
    assert_eq!(timing(Some(30), 25, 0, u64::MAX), (30, 0, u64::MAX));
}

#[test]
fn hostname_is_detected() {
    let b = TraceFilenameBuilder::new().hostname();
    assert!(b.hostname.map(|h| !h.is_empty()).unwrap_or(true));
}
