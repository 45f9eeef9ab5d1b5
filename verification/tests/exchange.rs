use trade_analyst::config::{mapping_source, MappingSource};
use trade_analyst::exchange::{detected_behaviors, exchange_metadata, ExchangeError};

#[test]
fn metadata_counts_every_row_once() {
    let m = exchange_metadata("1.1.0", "0.1.0", "2026-01-06T10:00:00".into(), "t.csv".into(), "local".into(), 6, 2)
        .ok()
        .unwrap();
    assert_eq!(m.total_rows, 8);
    assert_eq!(m.parsed_trades, 6);
    assert_eq!(m.skipped_rows, 2);
    assert_eq!(m.schema_version, "1.1.0");
    assert_eq!(m.engine_version, "0.1.0");
    assert_eq!(m.source_file, "t.csv");
}

#[test]
fn journal_without_trades_has_no_exchange() {
    let r = exchange_metadata("1.1.0", "0.1.0", "x".into(), "t.csv".into(), "local".into(), 0, 5);
    assert!(matches!(r, Err(ExchangeError::NoTrades)));
}

#[test]
fn detected_behaviors_keep_flag_order() {
    let names: Vec<String> = ["revenge_trading", "overtrading", "tilt"].iter().map(|s| s.to_string()).collect();
    let found = detected_behaviors(&names, &vec![true, false, true]);
    assert_eq!(found, vec!["revenge_trading".to_string(), "tilt".to_string()]);
    assert!(detected_behaviors(&names, &vec![false, false, false]).is_empty());
}

#[test]
fn mapping_reference_resolution() {
    assert!(matches!(mapping_source(true, true, true), MappingSource::Given));
    assert!(matches!(mapping_source(true, false, false), MappingSource::Given));
    assert!(matches!(mapping_source(false, true, true), MappingSource::Profile));
    assert!(matches!(mapping_source(false, true, false), MappingSource::Missing));
    assert!(matches!(mapping_source(false, false, true), MappingSource::Missing));
}
