use usestakly::mcp_metrics::MetricsWindow;

#[test]
fn parse_window_defaults_to_week() {
    assert_eq!(MetricsWindow::parse(None).unwrap(), MetricsWindow::Week);
    assert_eq!(MetricsWindow::parse(Some("")).unwrap(), MetricsWindow::Week);
    assert_eq!(MetricsWindow::parse(Some("7d")).unwrap(), MetricsWindow::Week);
    assert_eq!(MetricsWindow::parse(Some("week")).unwrap(), MetricsWindow::Week);
}

#[test]
fn parse_window_accepts_24h_and_month() {
    assert_eq!(MetricsWindow::parse(Some("24h")).unwrap(), MetricsWindow::Day);
    assert_eq!(MetricsWindow::parse(Some("1d")).unwrap(), MetricsWindow::Day);
    assert_eq!(MetricsWindow::parse(Some("DAY")).unwrap(), MetricsWindow::Day);
    assert_eq!(MetricsWindow::parse(Some("30d")).unwrap(), MetricsWindow::Month);
    assert_eq!(MetricsWindow::parse(Some("month")).unwrap(), MetricsWindow::Month);
}

#[test]
fn parse_window_rejects_unknown() {
    let err = MetricsWindow::parse(Some("6h")).expect_err("'6h' should not be a recognized window");
    assert!(err.message.contains("invalid window"));
    assert!(err.message.contains("6h"));
}

#[test]
fn window_maps_to_sql_interval_and_label() {
    assert_eq!(MetricsWindow::Day.as_interval(), "24 hours");
    assert_eq!(MetricsWindow::Week.as_interval(), "7 days");
    assert_eq!(MetricsWindow::Month.as_interval(), "30 days");
    assert_eq!(MetricsWindow::Day.as_str(), "24h");
    assert_eq!(MetricsWindow::Week.as_str(), "7d");
    assert_eq!(MetricsWindow::Month.as_str(), "30d");
}

#[test]
fn parse_window_error_quotes_the_normalized_input() {
    let err = MetricsWindow::parse(Some("  Hour ")).unwrap_err();
    assert_eq!(err.status, 400);
    assert_eq!(err.message, "invalid window 'hour' (expected 24h, 7d or 30d)");
    assert_eq!(MetricsWindow::parse(Some("   ")).unwrap(), MetricsWindow::Week);
}
