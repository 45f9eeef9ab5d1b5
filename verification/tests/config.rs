use trade_analyst::config::{profile_candidate, profile_file_name, ColumnMapping, CsvConfig, GeneralConfig, OutputConfig, SessionsConfig, VaultConfig};
use trade_analyst::exchange::{history_path, join_path};
use trade_analyst::shared::Session;

fn t(h: u32, m: u32) -> (u32, u32) {
    (h * 3600 + m * 60, 0)
}

#[test]
fn session_windows() {
    let s = SessionsConfig::default();
    assert_eq!(s.session_for(t(3, 0)), Session::Asia);
    assert_eq!(s.session_for(t(8, 30)), Session::London);
    assert_eq!(s.session_for(t(14, 0)), Session::Overlap);
    assert_eq!(s.session_for(t(18, 0)), Session::NewYork);
    assert_eq!(s.session_for(t(23, 0)), Session::Other);
}

#[test]
fn session_window_wraps_midnight() {
    let mut s = SessionsConfig::default();
    s.asia = "23:00-07:00".to_string();
    assert_eq!(s.session_for(t(23, 30)), Session::Asia);
    assert_eq!(s.session_for(t(2, 0)), Session::Asia);
}

#[test]
fn malformed_window_matches_nothing() {
    let mut s = SessionsConfig::default();
    s.asia = "soon".to_string();
    assert_eq!(s.session_for(t(3, 0)), Session::Other);
    assert_eq!(trade_analyst::config::parse_window("08:00-12:00"), Some((t(8, 0), t(12, 0))));
    assert_eq!(trade_analyst::config::parse_window(" 08:00 - 12:00 "), Some((t(8, 0), t(12, 0))));
    assert_eq!(trade_analyst::config::parse_window("8"), None);
}

fn mapping(pairs: &[(&str, &str)]) -> ColumnMapping {
    let mut m = ColumnMapping::new();
    for (k, v) in pairs {
        m.insert(k, v);
    }
    m
}

#[test]
fn mapping_file_merge() {
    let mut base = CsvConfig::default();
    base.delimiter = Some(";".to_string());
    base.mapping = mapping(&[("pnl", "Winst"), ("symbol", "Instrument")]);
    let mut overlay = CsvConfig::default();
    overlay.date_format = Some("%Y-%m-%d %H:%M:%S".to_string());
    overlay.mapping = mapping(&[("pnl", "Profit"), ("date", "col:1")]);
    let merged = base.merged_with(&overlay);
    assert_eq!(merged.delimiter.as_deref(), Some(";"));
    assert_eq!(merged.date_format.as_deref(), Some("%Y-%m-%d %H:%M:%S"));
    assert_eq!(merged.mapping.get("pnl").as_deref(), Some("Profit")); // overlay wins
    assert_eq!(merged.mapping.get("symbol").as_deref(), Some("Instrument")); // base kept
    assert_eq!(merged.mapping.get("date").as_deref(), Some("col:1"));
}

#[test]
fn merged_prefer_day_first_only_when_set() {
    let base = CsvConfig::default();
    let mut overlay = CsvConfig::default();
    overlay.prefer_day_first = Some(false);
    let merged = base.merged_with(&overlay);
    assert_eq!(merged.prefer_day_first, Some(false));
    assert!(!merged.prefers_day_first());
    // an overlay that leaves the setting unset keeps the base's
    let back = overlay.merged_with(&base);
    assert_eq!(back.prefer_day_first, Some(false));
    assert!(!back.prefers_day_first());
}

#[test]
fn mapping_file_without_day_first_keeps_base() {
    let mut base = CsvConfig::default();
    base.prefer_day_first = Some(false);
    let mut overlay = CsvConfig::default();
    overlay.mapping = mapping(&[("pnl", "Profit")]);
    let m = base.merged_with(&overlay);
    assert!(!m.prefers_day_first());
    assert_eq!(m.mapping.get("pnl").as_deref(), Some("Profit"));
}

#[test]
fn mapping_insert_replaces() {
    let mut m = ColumnMapping::new();
    m.insert("pnl", "A");
    m.insert("pnl", "B");
    assert_eq!(m.get("pnl").as_deref(), Some("B"));
    assert_eq!(m.entries().len(), 1);
    assert_eq!(m.get("date"), None);
}

#[test]
fn defaults() {
    assert_eq!(GeneralConfig::default().timezone, "UTC");
    assert!(OutputConfig::default().write_exchange_json);
    let v = VaultConfig::default();
    assert_eq!(v.path, "./TradingVault");
    assert_eq!(v.assets_dir, "Assets");
    let c = CsvConfig::default();
    assert_eq!(c.prefer_day_first, None);
    assert!(c.prefers_day_first());
    assert!(c.delimiter.is_none());
}

#[test]
fn profile_names() {
    assert_eq!(profile_file_name("mybroker"), "mybroker.toml");
    assert_eq!(profile_file_name("mybroker.toml"), "mybroker.toml");
    assert_eq!(profile_file_name("x.toml.toml"), "x.toml");
    assert_eq!(profile_file_name("a.tom"), "a.tom.toml");
}

#[test]
fn history_file_location() {
    assert_eq!(history_path("/vault", "Assets"), "/vault/Assets/history.json");
    assert_eq!(history_path("/vault/", "Assets"), "/vault/Assets/history.json");
    assert_eq!(join_path("/vault", "/abs"), "/abs");
    assert_eq!(join_path("", "x"), "x");
}

#[test]
fn overlaying_twice_changes_nothing_more() {
    let mut base = CsvConfig::default();
    base.mapping = mapping(&[("pnl", "Winst"), ("symbol", "Instrument")]);
    let mut overlay = CsvConfig::default();
    overlay.mapping = mapping(&[("pnl", "Profit")]);
    let once = base.merged_with(&overlay);
    let twice = once.merged_with(&overlay);
    let mut a = once.mapping.entries();
    let mut b = twice.mapping.entries();
    a.sort();
    b.sort();
    assert_eq!(a, b);
}

#[test]
fn profile_lookup_path() {
    assert_eq!(profile_candidate("profiles", "mybroker"), "profiles/mybroker.toml");
    assert_eq!(profile_candidate("profiles/", "mybroker.toml"), "profiles/mybroker.toml");
}
