use anseo_api::comparisons::{parse_window, resolve_trace_id, split_csv, Window};

#[test]
fn split_csv_drops_empties_and_trims() {
    assert_eq!(split_csv("a, b ,, c "), vec!["a".to_string(), "b".to_string(), "c".to_string()]);
    assert!(split_csv("").is_empty());
    assert!(split_csv(",, ,").is_empty());
}

#[test]
fn parse_window_defaults_to_7d() {
    let (days, w) = parse_window(None).unwrap();
    assert_eq!(days, 7);
    assert!(matches!(w, Window::SevenDays));
}

#[test]
fn parse_window_accepts_1d_7d_30d() {
    assert_eq!(parse_window(Some("1d")).unwrap().0, 1);
    assert_eq!(parse_window(Some("7d")).unwrap().0, 7);
    assert_eq!(parse_window(Some("30d")).unwrap().0, 30);
    assert!(matches!(parse_window(Some("30d")).unwrap().1, Window::ThirtyDays));
}

#[test]
fn parse_window_rejects_bogus() {
    let err = parse_window(Some("90d")).unwrap_err();
    assert_eq!(err.status, 400);
    assert_eq!(err.error, "invalid_window");
    assert_eq!(err.message, "`window` must be one of 1d|7d|30d (got `90d`)");
}

#[test]
fn resolve_trace_id_prefers_header() {
    assert_eq!(resolve_trace_id(Some("abc-123")), "abc-123");
}

#[test]
fn resolve_trace_id_mints_when_missing() {
    let t = resolve_trace_id(None);
    assert!(!t.is_empty());
    assert_eq!(t.len(), 26);
}
