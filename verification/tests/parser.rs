use trade_analyst::config::{ColumnMapping, CsvConfig};
use trade_analyst::parser::columns::{content_compatible, map_headers, ratio_ok, MapError, MappingProblem};
use trade_analyst::parser::dates::{date_format_candidates, detect_date_format, looks_like_date, parse_date_with, parse_time};
use trade_analyst::parser::header::normalize_header;
use trade_analyst::parser::ingest::{parse_table, ParseError, ParsedTable};
use trade_analyst::parser::numbers::looks_numeric;
use trade_analyst::parser::rows::number_of;
use trade_analyst::parser::table::{decode, detect_delimiter, read_table, Encoding, TableError};
use trade_analyst::parser::Field;
use trade_analyst::shared::{Direction, Session};

fn parse(content: &str, cfg: &CsvConfig) -> Result<ParsedTable, ParseError> {
    let table = read_table(content.as_bytes(), None).expect("table");
    parse_table(&table, cfg)
}

fn num(t: &Option<String>) -> Option<f64> {
    t.as_ref().map(|s| s.parse::<f64>().unwrap())
}

fn hms(h: u32, m: u32, s: u32) -> (u32, u32) {
    (h * 3600 + m * 60 + s, 0)
}

#[test]
fn ambiguous_dates_prefer_day_first() {
    let samples = vec!["03/02/2026", "04/02/2026"];
    assert_eq!(detect_date_format(&samples, true).unwrap(), "%d/%m/%Y");
    assert_eq!(detect_date_format(&samples, false).unwrap(), "%m/%d/%Y");
    // 13 in first position rules out month-first regardless of preference
    let samples = vec!["13/02/2026"];
    assert_eq!(detect_date_format(&samples, false).unwrap(), "%d/%m/%Y");
}

#[test]
fn date_detection_needs_a_majority() {
    assert_eq!(detect_date_format(&[], true), None);
    assert_eq!(detect_date_format(&["junk", "more junk"], true), None);
    // 2 of 3 parse as ISO: a strict majority wins
    assert_eq!(detect_date_format(&["2026-01-05", "2026-01-06", "x"], true).unwrap(), "%Y-%m-%d");
    // 1 of 2 is not a strict majority
    assert_eq!(detect_date_format(&["2026-01-05", "x"], true), None);
    assert_eq!(date_format_candidates(true).len(), 26);
    assert_eq!(date_format_candidates(false)[10], "%m-%d-%Y");
    assert_eq!(date_format_candidates(true)[10], "%d-%m-%Y");
}

#[test]
fn date_and_time_cells() {
    assert_eq!(parse_date_with("2026-01-05", "%Y-%m-%d"), Some(((2026, 1, 5), None)));
    assert_eq!(
        parse_date_with("2026-01-05 08:30:00", "%Y-%m-%d %H:%M:%S"),
        Some(((2026, 1, 5), Some(hms(8, 30, 0))))
    );
    assert_eq!(parse_date_with("2026-13-05", "%Y-%m-%d"), None);
    assert_eq!(parse_time("08:30"), Some(hms(8, 30, 0)));
    assert_eq!(parse_time("02:15 PM"), Some(hms(14, 15, 0)));
    assert_eq!(parse_time("later"), None);
    assert!(looks_like_date("05.01.2026"));
    assert!(!looks_like_date("1.2345"));
}

#[test]
fn number_parsing_handles_currency_symbols() {
    let n = |raw: &str, sep: char| num(&number_of(&Some(raw.to_string()), sep));
    assert_eq!(n("$1,250.75", '.'), Some(1250.75));
    assert_eq!(n("€ -12,50", ','), Some(-12.50));
    assert_eq!(n("+150", '.'), Some(150.0));
    assert_eq!(n("", '.'), None);
    assert_eq!(n("-", '.'), None);
    assert_eq!(n("abc", '.'), None);
    assert!(looks_numeric("1.234,56"));
    assert!(!looks_numeric("EURUSD"));
}

#[test]
fn header_normalization() {
    assert_eq!(normalize_header(" Open Time "), "opentime");
    assert_eq!(normalize_header("Risk ($)"), "risk$");
    assert_eq!(normalize_header("P/L"), "pl");
    assert_eq!(normalize_header(&normalize_header("Net_P&L")), normalize_header("Net_P&L"));
}

#[test]
fn content_ratio_rules() {
    assert!(ratio_ok(1, 2, 1, 2));
    assert!(!ratio_ok(1, 3, 1, 2));
    assert!(!ratio_ok(0, 0, 1, 2));
    assert!(ratio_ok(4, 5, 4, 5));
    let s = |v: &[&str]| v.iter().map(|x| x.to_string()).collect::<Vec<String>>();
    assert!(content_compatible(Field::Pnl, &s(&["1", "x"]), 1, 2));
    assert!(!content_compatible(Field::Pnl, &s(&["1", "x", "y"]), 1, 2));
    assert!(content_compatible(Field::Notes, &s(&[]), 1, 2));
    assert!(!content_compatible(Field::Date, &s(&[]), 1, 2));
}

#[test]
fn delimiter_detection() {
    assert_eq!(detect_delimiter("a;b;c\n1;2;3\n"), ';');
    assert_eq!(detect_delimiter("a\tb\n1\t2\n"), '\t');
    assert_eq!(detect_delimiter("a|b\n1|2\n"), '|');
    assert_eq!(detect_delimiter("a,b\n1,2\n"), ',');
    // a candidate missing from one line does not count
    assert_eq!(detect_delimiter("a;b\n1,2\n"), ',');
    assert_eq!(detect_delimiter(""), ',');
    // blank lines are ignored
    assert_eq!(detect_delimiter("a;b\n\n   \n1;2\r\n"), ';');
}

#[test]
fn decoding() {
    let (s, e) = decode(b"\xEF\xBB\xBFDate,PnL");
    assert_eq!(s, "Date,PnL");
    assert_eq!(e, Encoding::Utf8);
    let (s, e) = decode(b"Caf\xE9");
    assert_eq!(s, "Café");
    assert_eq!(e, Encoding::Latin1);
    assert_eq!(Encoding::Latin1.name(), "latin-1");
}

#[test]
fn empty_file_is_refused() {
    assert!(matches!(read_table(b"  \n ", None), Err(TableError::Empty)));
}

#[test]
fn parses_standard_csv() {
    let report = parse(
        "Date,Time,Pair,Direction,Entry,Exit,Size,Risk,RR,PnL,Strategy,Session\n\
         2026-01-05,08:30,EURUSD,Long,1.0450,1.0480,1.0,100,2.0,200,Breakout,London\n\
         2026-01-06,14:15,GBPUSD,Short,1.2700,1.2750,0.5,50,1.5,-50,Reversal,New York\n",
        &CsvConfig::default(),
    )
    .unwrap();
    assert_eq!(report.rows.len(), 2);
    assert_eq!(report.skipped_rows, 0);
    assert_eq!(report.detected.delimiter, ',');
    let t = &report.rows[0];
    assert_eq!(t.symbol, "EURUSD");
    assert_eq!(t.direction, Some(Direction::Long));
    assert_eq!(t.pnl.parse::<f64>().unwrap(), 200.0);
    assert_eq!(t.session, Some(Session::London));
    assert_eq!(t.time, Some(hms(8, 30, 0)));
}

#[test]
fn parses_mt_style_export_without_config() {
    // MetaTrader-style: "Open"/"Close" are datetimes, duplicate "Price"
    // columns (entry & exit), Type=buy/sell, Volume, Swap + Commissions.
    let report = parse(
        "Ticket,Open,Type,Volume,Symbol,Price,SL,TP,Close,Price,Swap,Commissions,Profit,Pips\n\
         35785874,\"2024-09-06 14:12:23\",buy,50,USDJPY,142.885,142.885,142.959,\"2024-09-06 14:23:46\",142.958,0,-150,2553.20,0\n\
         35785377,\"2024-09-06 14:08:05\",sell,38.29,USDJPY,142.856,142.946,142.058,\"2024-09-06 14:12:07\",142.893,0,-114.88,-991.46,0\n\
         35773413,\"2024-09-06 12:48:31\",buy,22.51,GBPUSD,1.31709,1.31701,1.31929,\"2024-09-06 13:08:36\",1.31714,0,-67.54,112.55,0\n",
        &CsvConfig::default(),
    )
    .unwrap();
    assert_eq!(report.rows.len(), 3);
    assert_eq!(report.skipped_rows, 0);
    assert_eq!(report.detected.date_format, "%Y-%m-%d %H:%M:%S");
    let t = &report.rows[0];
    assert_eq!(t.date, (2024, 9, 6));
    assert_eq!(t.time, Some(hms(14, 12, 23)));
    assert_eq!(t.symbol, "USDJPY");
    assert_eq!(t.direction, Some(Direction::Long));
    assert_eq!(num(&t.position_size), Some(50.0));
    assert_eq!(num(&t.entry), Some(142.885)); // first Price column
    assert_eq!(num(&t.exit), Some(142.958)); // second Price column
    assert_eq!(num(&t.fees).map(f64::abs), Some(150.0)); // Commissions, sign dropped
    assert_eq!(t.pnl.parse::<f64>().unwrap(), 2553.20);
    assert_eq!(report.rows[1].direction, Some(Direction::Short));
}

#[test]
fn content_beats_header_names() {
    // A column literally named "Date" holding prices must not win over
    // a datetime column named "Executed".
    let report = parse(
        "Date,Executed,Symbol,PnL\n\
         1.2345,2026-01-05 09:00:00,EURUSD,100\n\
         1.2350,2026-01-06 10:30:00,EURUSD,-40\n",
        &CsvConfig::default(),
    )
    .unwrap();
    assert_eq!(report.rows.len(), 2);
    assert_eq!(report.rows[0].date, (2026, 1, 5));
    assert_eq!(report.rows[0].time, Some(hms(9, 0, 0)));
}

#[test]
fn column_index_mapping() {
    let mut cfg = CsvConfig::default();
    cfg.mapping.insert("date", "col:0");
    cfg.mapping.insert("symbol", "col:1");
    cfg.mapping.insert("pnl", "col:3");
    let report = parse(
        "A,B,C,D\n\
         2026-01-05,EURUSD,x,100\n\
         2026-01-06,GBPUSD,x,-50\n",
        &cfg,
    )
    .unwrap();
    assert_eq!(report.rows.len(), 2);
    assert_eq!(report.rows[0].symbol, "EURUSD");
    assert_eq!(report.rows[1].pnl.parse::<f64>().unwrap(), -50.0);
}

#[test]
fn bad_explicit_mapping_fails_loudly() {
    let mut cfg = CsvConfig::default();
    cfg.mapping.insert("pnl", "Nonexistent");
    let err = parse("Date,Symbol,PnL\n2026-01-05,EURUSD,100\n", &cfg).err().unwrap();
    match err {
        ParseError::Mapping(MapError::BadMapping { field, problem, wanted }) => {
            assert_eq!(field, Field::Pnl);
            assert_eq!(problem, MappingProblem::UnknownHeader);
            assert_eq!(wanted, "Nonexistent");
        }
        _ => panic!("expected a bad mapping"),
    }
}

#[test]
fn explicit_index_errors() {
    let mut cfg = CsvConfig::default();
    cfg.mapping.insert("date", "col:9");
    match parse("Date,Symbol,PnL\n2026-01-05,EURUSD,100\n", &cfg).err().unwrap() {
        ParseError::Mapping(MapError::BadMapping { problem, .. }) => assert_eq!(problem, MappingProblem::OutOfRange),
        _ => panic!("expected out of range"),
    }
    let mut cfg = CsvConfig::default();
    cfg.mapping.insert("date", "col:x");
    match parse("Date,Symbol,PnL\n2026-01-05,EURUSD,100\n", &cfg).err().unwrap() {
        ParseError::Mapping(MapError::BadMapping { problem, .. }) => assert_eq!(problem, MappingProblem::InvalidIndex),
        _ => panic!("expected invalid index"),
    }
}

#[test]
fn missing_required_columns() {
    match parse("Weird1,Weird2,Weird3\na,b,c\nd,e,f\n", &CsvConfig::default()).err().unwrap() {
        ParseError::Mapping(MapError::MissingColumn { field }) => assert_eq!(field, Field::Date),
        _ => panic!("expected a missing date column"),
    }
    match parse("Date,PnL\n2026-01-05,1\n", &CsvConfig::default()).err().unwrap() {
        ParseError::Mapping(MapError::MissingColumn { field }) => assert_eq!(field, Field::Symbol),
        _ => panic!("expected a missing symbol column"),
    }
}

#[test]
fn detects_semicolon_and_comma_decimals() {
    let mut cfg = CsvConfig::default();
    cfg.mapping.insert("date", "Datum");
    cfg.mapping.insert("pnl", "Winst");
    let report = parse(
        "Datum;Pair;Winst\n\
         05-01-2026;EURUSD;1.234,50\n\
         06-01-2026;GBPUSD;-12,25\n",
        &cfg,
    )
    .unwrap();
    assert_eq!(report.detected.delimiter, ';');
    assert_eq!(report.detected.decimal_separator, ',');
    assert_eq!(report.rows[0].pnl.parse::<f64>().unwrap(), 1234.50);
    assert_eq!(report.rows[1].pnl.parse::<f64>().unwrap(), -12.25);
    assert_eq!(report.detected.date_format, "%d-%m-%Y");
}

#[test]
fn skips_malformed_rows() {
    let report = parse(
        "Date,Pair,PnL\n\
         2026-01-05,EURUSD,100\n\
         not-a-date,EURUSD,50\n\
         2026-01-07,GBPUSD,\n\
         2026-01-08,USDJPY,-30\n",
        &CsvConfig::default(),
    )
    .unwrap();
    assert_eq!(report.rows.len(), 2);
    assert_eq!(report.skipped_rows, 2);
    assert_eq!(report.problems.len(), 2);
    assert_eq!(report.problems[0].0, 1);
    assert_eq!(report.problems[1].0, 2);
}

#[test]
fn at_most_fifty_problems_are_kept() {
    let mut content = String::from("Date,Pair,PnL\n2026-01-05,EURUSD,100\n");
    for _ in 0..60 {
        content.push_str("2026-01-05,EURUSD,abc\n");
    }
    // the content check rejects a mostly non-numeric PnL column by name,
    // so the column is pinned explicitly
    let mut cfg = CsvConfig::default();
    cfg.mapping.insert("pnl", "PnL");
    let report = parse(&content, &cfg).unwrap();
    assert_eq!(report.rows.len(), 1);
    assert_eq!(report.skipped_rows, 60);
    assert_eq!(report.problems.len(), 50);
    assert_eq!(report.unlisted_skipped(), Some(10));
}

#[test]
fn all_skipped_rows_listed_when_few() {
    let report = parse(
        "Date,Pair,PnL\n\
         2026-01-05,EURUSD,100\n\
         not-a-date,EURUSD,50\n\
         2026-01-07,GBPUSD,\n\
         2026-01-08,USDJPY,-30\n",
        &CsvConfig::default(),
    )
    .unwrap();
    assert_eq!(report.skipped_rows, 2);
    assert_eq!(report.unlisted_skipped(), None);
}

#[test]
fn datetime_in_date_column() {
    let report = parse(
        "Open Time,Symbol,Profit\n\
         2026-01-05 08:30:00,EURUSD,100\n\
         2026-01-05 15:45:00,EURUSD,-40\n",
        &CsvConfig::default(),
    )
    .unwrap();
    assert_eq!(report.rows.len(), 2);
    assert_eq!(report.rows[0].time, Some(hms(8, 30, 0)));
}

#[test]
fn detected_format_lists_headers() {
    let report = parse("Date,Extra,Symbol,PnL\n2026-01-05,z,EURUSD,100\n", &CsvConfig::default()).unwrap();
    let mapped: Vec<(String, &str)> = report.detected.mapped_headers.clone();
    assert_eq!(
        mapped,
        vec![("Date".to_string(), "date"), ("Symbol".to_string(), "symbol"), ("PnL".to_string(), "pnl")]
    );
    assert_eq!(report.detected.unmapped_headers, vec!["Extra".to_string()]);
    assert_eq!(report.detected.encoding, "utf-8");
}

#[test]
fn mapped_columns_exist() {
    let headers: Vec<String> = ["Date", "Symbol", "PnL"].iter().map(|s| s.to_string()).collect();
    let records = vec![vec!["2026-01-05".to_string(), "EURUSD".to_string(), "1".to_string()]];
    let map = map_headers(&headers, &records, &ColumnMapping::new()).ok().unwrap();
    assert_eq!(map.width(), 3);
    assert_eq!(map.column(Field::Date), Some(0));
    assert_eq!(map.column(Field::Symbol), Some(1));
    assert_eq!(map.column(Field::Pnl), Some(2));
    assert_eq!(map.column(Field::Notes), None);
}

#[test]
fn symbols_are_upper_cased() {
    let report = parse("Date,Symbol,PnL\n2026-01-05,eurusd,100\n2026-01-06,Gbp/Usd,5\n", &CsvConfig::default()).unwrap();
    assert_eq!(report.rows[0].symbol, "EURUSD");
    assert_eq!(report.rows[1].symbol, "GBP/USD");
}

#[test]
fn comma_delimited_files_keep_dot_decimals() {
    // quoted comma values would vote for a comma separator, but the
    // delimiter is a comma, so the decimal separator stays a dot
    let report = parse(
        "Date,Symbol,PnL\n2026-01-05,EURUSD,\"12,5\"\n2026-01-06,EURUSD,\"3,25\"\n",
        &CsvConfig::default(),
    )
    .unwrap();
    assert_eq!(report.detected.decimal_separator, '.');
    assert_eq!(report.rows[0].pnl.parse::<f64>().unwrap(), 125.0);
}

#[test]
fn configured_settings_override_detection() {
    let mut cfg = CsvConfig::default();
    cfg.date_format = Some("%d/%m/%Y".to_string());
    cfg.decimal_separator = Some(",".to_string());
    let table = read_table(b"Date|Symbol|PnL\n05/01/2026|EURUSD|1,5\n", Some('|')).unwrap();
    assert_eq!(table.delimiter, '|');
    let report = parse_table(&table, &cfg).ok().unwrap();
    assert_eq!(report.detected.date_format, "%d/%m/%Y");
    assert_eq!(report.detected.decimal_separator, ',');
    assert_eq!(report.rows[0].date, (2026, 1, 5));
    assert_eq!(report.rows[0].pnl.parse::<f64>().unwrap(), 1.5);
}

#[test]
fn unknown_date_format_is_an_error() {
    let mut cfg = CsvConfig::default();
    cfg.mapping.insert("date", "When");
    match parse("When,Symbol,PnL\nsoon,EURUSD,1\nlater,EURUSD,2\n", &cfg).err().unwrap() {
        ParseError::NoDateFormat => {}
        _ => panic!("expected no date format"),
    }
}

#[test]
fn separate_time_column_wins_and_bad_time_skips() {
    let report = parse(
        "Date,Time,Symbol,PnL\n2026-01-05 09:00:00,10:15,EURUSD,1\n2026-01-06 09:00:00,noon,EURUSD,2\n",
        &CsvConfig::default(),
    )
    .unwrap();
    assert_eq!(report.rows.len(), 1);
    assert_eq!(report.rows[0].time, Some(hms(10, 15, 0)));
    assert_eq!(report.skipped_rows, 1);
}

#[test]
fn date_rescue_prefers_hinted_headers() {
    // no header names the date; both A and "Created At" hold dates, the
    // hinted one wins even though it comes later
    let report = parse(
        "A,Created At,Symbol,PnL\n2026-01-01,2026-02-01,EURUSD,1\n2026-01-02,2026-02-02,EURUSD,2\n",
        &CsvConfig::default(),
    )
    .unwrap();
    assert_eq!(report.rows[0].date, (2026, 2, 1));
}

#[test]
fn duplicate_aliases_take_distinct_columns() {
    let report = parse("Date,Symbol,Price,Price,PnL\n2026-01-05,EURUSD,1.1,1.2,5\n", &CsvConfig::default()).unwrap();
    assert_eq!(num(&report.rows[0].entry), Some(1.1));
    assert_eq!(num(&report.rows[0].exit), Some(1.2));
}

#[test]
fn month_first_preference_reaches_detection() {
    let mut cfg = CsvConfig::default();
    cfg.prefer_day_first = Some(false);
    let report = parse("Date,Symbol,PnL\n03/02/2026,EURUSD,1\n04/02/2026,EURUSD,2\n", &cfg).unwrap();
    assert_eq!(report.detected.date_format, "%m/%d/%Y");
    assert_eq!(report.rows[0].date, (2026, 3, 2));
    let report = parse("Date,Symbol,PnL\n03/02/2026,EURUSD,1\n", &CsvConfig::default()).unwrap();
    assert_eq!(report.detected.date_format, "%d/%m/%Y");
    assert_eq!(report.rows[0].index, 0);
}
