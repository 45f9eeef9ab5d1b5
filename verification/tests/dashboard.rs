use trade_analyst::behavior::Severity;
use trade_analyst::charts::{snapshot_charts, snapshot_label, SnapshotCharts, SnapshotColumns};
use trade_analyst::dashboard::{render, ComparisonFigures, DeltaFigures, FlagRow, Points, ReportFigures};

fn texts(v: &[&str]) -> Vec<String> {
    v.iter().map(|s| s.to_string()).collect()
}

fn pts(labels: &[&str], values: &[&str]) -> Points {
    Points { labels: texts(labels), values: texts(values) }
}

fn no_history() -> SnapshotCharts {
    SnapshotCharts {
        scores: None,
        win_rate: None,
        profit_factor: None,
        average_rr: None,
        weekly_pnl: None,
        monthly_pnl: None,
        max_drawdown: None,
        total_pnl: None,
    }
}

fn columns(discipline: &[&str], win_rate: &[&str], profit_factor: Vec<Option<String>>) -> SnapshotColumns {
    SnapshotColumns {
        discipline: texts(discipline),
        consistency: texts(discipline),
        emotional_control: texts(discipline),
        win_rate: texts(win_rate),
        profit_factor,
        average_rr: vec![Some("1".to_string()); win_rate.len()],
        average_weekly_pnl: texts(win_rate),
        average_monthly_pnl: texts(win_rate),
        max_daily_drawdown: texts(win_rate),
        total_pnl: texts(win_rate),
    }
}

/// Six trades on 2026-01-01..06, alternating EURUSD +200 (RR 2) and
/// GBPUSD -100 (RR -1), risk 100 each, all "Breakout", no session data.
fn sample() -> ReportFigures {
    let labels = ["1", "2", "3", "4", "5", "6"];
    ReportFigures {
        first_trade_date: "2026-01-01".into(),
        last_trade_date: "2026-01-06".into(),
        calendar_days: "6".into(),
        trading_days: "6".into(),
        total_trades: "6".into(),
        generated_at: "2026-01-06T10:00:00".into(),
        source_file: "t.csv".into(),
        engine_version: "1.1.0".into(),
        schema_version: "1.1.0".into(),
        skipped_rows: "0".into(),
        total_pnl: "300.00".into(),
        win_rate: "50.0%".into(),
        profit_factor: "2.00".into(),
        average_rr: "0.50".into(),
        discipline: "80".into(),
        consistency: "60".into(),
        emotional_control: "70".into(),
        max_daily_drawdown: "100.00".into(),
        detected_behaviors: vec![],
        downsampled: false,
        max_points: "500".into(),
        trade_labels: texts(&labels),
        cumulative_pnl: texts(&["200", "100", "300", "200", "400", "300"]),
        daily: pts(
            &["2026-01-01", "2026-01-02", "2026-01-03", "2026-01-04", "2026-01-05", "2026-01-06"],
            &["200", "-100", "200", "-100", "200", "-100"],
        ),
        weekly: pts(&["2026-W01", "2026-W02"], &["300", "0"]),
        monthly: pts(&["2026-01"], &["300"]),
        day_counts: texts(&["3", "3", "0"]),
        drawdown: texts(&["0", "100", "0", "100", "0", "100"]),
        max_drawdown: texts(&["100", "100", "100", "100", "100", "100"]),
        risk: pts(&labels, &["100", "100", "100", "100", "100", "100"]),
        rolling_rr: pts(&labels, &["2", "0.5", "1", "0.5", "0.8", "0.5"]),
        flags: vec![FlagRow {
            name: "revenge_trading".into(),
            data_available: true,
            detected: false,
            severity: Severity::Absent,
            confidence: "100".into(),
        }],
        streak: texts(&["1", "-1", "1", "-1", "1", "-1"]),
        history: no_history(),
        pair_pnl: pts(&["EURUSD", "GBPUSD"], &["600", "-300"]),
        pair_win_rate: pts(&["EURUSD", "GBPUSD"], &["100", "0"]),
        pair_rr: pts(&["EURUSD", "GBPUSD"], &["2", "-1"]),
        pair_trades: pts(&["EURUSD", "GBPUSD"], &["3", "3"]),
        sessions_available: false,
        session_keys: vec![],
        session_pnl: vec![],
        session_win_rate: vec![],
        session_rr: pts(&[], &[]),
        strategies_available: true,
        strategy_pnl: pts(&["Breakout"], &["300"]),
        strategy_win_rate: pts(&["Breakout"], &["50"]),
        strategy_rr: pts(&["Breakout"], &["0.5"]),
        strategy_trades: pts(&["Breakout"], &["6"]),
        previous_analyses: 0,
        comparisons: vec![],
        deltas: None,
    }
}

#[test]
fn snapshot_charts_need_two_points() {
    let one = snapshot_charts(&vec![snapshot_label("2026-07-01T10:00:00")], &columns(&["50"], &["50"], vec![Some("1".into())]));
    assert!(one.scores.is_none());
    assert!(one.win_rate.is_none());

    let labels = vec![snapshot_label("2026-07-01T10:00:00"), snapshot_label("2026-07-05T11:00:00")];
    let two = snapshot_charts(&labels, &columns(&["50", "60"], &["50", "60"], vec![Some("1".into()), Some("2".into())]));
    let win_rate = two.win_rate.unwrap().render();
    assert!(win_rate.contains("labels: [\"07-01 10:00\", \"07-05 11:00\"]"));
    assert!(win_rate.contains("data: [50, 60]"));
    let scores = two.scores.unwrap().render();
    assert!(scores.contains("Discipline"));
    assert!(scores.contains("Emotional Control"));
}

#[test]
fn snapshot_charts_skip_gappy_columns() {
    let labels = texts(&["a", "b"]);
    let charts = snapshot_charts(&labels, &columns(&["50", "60"], &["50", "60"], vec![Some("1.2".into()), None]));
    assert!(charts.profit_factor.is_none());
    assert!(charts.average_rr.is_some());
    let full = snapshot_charts(&labels, &columns(&["50", "60"], &["50", "60"], vec![Some("1.2".into()), Some("1.5".into())]));
    let pf = full.profit_factor.unwrap().render();
    assert!(pf.contains("data: [1.2, 1.5]"));
    assert!(pf.contains("yTitle: \"Profit factor\""));
    assert!(pf.contains("xTitle: \"Analysis\""));
}

#[test]
fn dashboard_section_order_is_fixed() {
    let md = render(&sample(), "2026-01-06_10-00");
    let sections = [
        "# Trading Dashboard",
        "## Trading Period",
        "## Executive Summary",
        "## Performance",
        "## Risk",
        "## Behavior",
        "## Pair Performance",
        "## Session Performance",
        "## Strategy Performance",
        "## Historical Comparison",
        "## AI Coaching",
        "## Action Plan",
    ];
    let mut last = 0;
    for section in sections {
        let pos = md.find(section).unwrap_or_else(|| panic!("missing section {section}"));
        assert!(pos >= last, "section {section} out of order");
        last = pos;
    }
}

#[test]
fn charts_are_generated_by_rust() {
    let md = render(&sample(), "stamp");
    for heading in [
        "### Equity Curve",
        "### Daily PnL",
        "### Weekly PnL",
        "### Monthly PnL",
        "### Winning vs Losing Days",
        "### Drawdown",
        "### Risk per Trade",
        "### Average RR Over Time",
        "### Streaks",
        "### PnL per Pair",
        "### Win Rate per Pair",
        "### Trades per Pair",
        "### PnL per Strategy",
    ] {
        assert!(md.contains(heading), "missing chart heading {heading}");
    }
    assert!(md.matches("```chart").count() >= 12, "expected at least 12 chart blocks");
    assert_eq!(md.matches("```chart").count() * 2, md.matches("```").count());
}

#[test]
fn weekly_and_monthly_pnl_are_bar_charts() {
    let md = render(&sample(), "stamp");
    let chart_type_of = |heading: &str| {
        let start = md.find(heading).unwrap_or_else(|| panic!("missing {heading}"));
        let block = &md[start..md[start..].find("```\n").map(|e| start + e).unwrap()];
        block.lines().find(|l| l.starts_with("type: ")).unwrap().to_string()
    };
    assert_eq!(chart_type_of("### Weekly PnL"), "type: bar");
    assert_eq!(chart_type_of("### Monthly PnL"), "type: bar");
    assert_eq!(chart_type_of("### Daily PnL"), "type: line");
    assert_eq!(chart_type_of("### Equity Curve"), "type: line");
}

#[test]
fn equity_curve_uses_time_series_values() {
    let md = render(&sample(), "stamp");
    assert!(md.contains("data: [200, 100, 300, 200, 400, 300]"));
}

#[test]
fn ai_placeholders_are_concise_interpretation_blocks() {
    let md = render(&sample(), "stamp");
    for name in [
        "executive_summary",
        "performance",
        "risk",
        "behavior",
        "pairs",
        "strategies",
        "historical",
        "coaching",
        "action_plan",
    ] {
        assert!(md.contains(&format!("<!-- ai:begin:{name} -->")), "missing placeholder {name}");
        assert!(md.contains(&format!("<!-- ai:end:{name} -->")), "missing end marker {name}");
    }
}

#[test]
fn history_charts_appear_with_series() {
    let mut x = sample();
    let labels = vec![snapshot_label("2026-01-01T09:00:00"), snapshot_label("2026-01-06T10:00:00")];
    x.history = snapshot_charts(&labels, &columns(&["55", "80"], &["40", "50"], vec![Some("1.2".into()), Some("2".into())]));
    x.previous_analyses = 1;
    x.comparisons = vec![ComparisonFigures { metric: "Win Rate %".into(), values: texts(&["50", "40", "40", "40"]) }];
    x.deltas = Some(DeltaFigures {
        total_pnl: "+200.00".into(),
        win_rate: "+10.00".into(),
        profit_factor: Some("+0.80".into()),
        average_rr: None,
        max_daily_drawdown: "-150.00".into(),
        discipline: "+25.00".into(),
        consistency: "+10.00".into(),
        emotional_control: "+10.00".into(),
    });
    let md = render(&x, "stamp");
    assert!(md.contains("### Score Development"));
    assert!(md.contains("### Win Rate History"));
    assert!(md.contains("### Profit Factor History"));
    assert!(md.contains("### Win Rate %: Current vs History"));
    assert!(md.contains("Hist. Average"));
    assert!(md.contains("| Win rate | +10.00 pp |"));
    assert!(md.contains("| Profit factor | +0.80 |"));
    assert!(!md.contains("\n| Average RR |"));
    assert!(!md.contains("_Development charts appear"));
}

#[test]
fn first_analysis_skips_history_charts() {
    let md = render(&sample(), "stamp");
    assert!(!md.contains("### Score Development"));
    assert!(md.contains("_Development charts appear from the second analysis onward._"));
    assert!(md.contains("_First analysis on record"));
}

#[test]
fn report_without_strategies_or_sessions_shows_notices() {
    let mut x = sample();
    x.strategies_available = false;
    let md = render(&x, "stamp");
    assert!(md.contains("## Strategy Performance\n\n_No strategy data in this journal._\n\n"));
    assert!(md.contains("## Session Performance\n\n_No session or trade-time data in this journal._\n\n"));
    assert!(!md.contains("ai:begin:strategies"));
    assert!(!md.contains("ai:begin:sessions"));
}

#[test]
fn sessions_show_display_names() {
    let mut x = sample();
    x.sessions_available = true;
    x.session_keys = texts(&["london", "new_york"]);
    x.session_pnl = texts(&["250", "-50"]);
    x.session_win_rate = texts(&["75", "25"]);
    x.session_rr = pts(&["new_york"], &["1.5"]);
    let md = render(&x, "stamp");
    assert!(md.contains("### PnL per Session"));
    assert!(md.contains("labels: [\"London\", \"New York\"]"));
    assert!(md.contains("### Average RR per Session"));
    assert!(md.contains("labels: [\"New York\"]"));
    assert!(md.contains("<!-- ai:begin:sessions -->"));
}

#[test]
fn behavior_table_and_kpis() {
    let mut x = sample();
    x.detected_behaviors = texts(&["revenge_trading", "overtrading"]);
    x.flags.push(FlagRow {
        name: "size_escalation".into(),
        data_available: false,
        detected: false,
        severity: Severity::Absent,
        confidence: "0".into(),
    });
    x.flags.push(FlagRow {
        name: "overtrading".into(),
        data_available: true,
        detected: true,
        severity: Severity::High,
        confidence: "85".into(),
    });
    x.downsampled = true;
    let md = render(&x, "2026-01-06_10-00");
    assert!(md.contains("| revenge trading | no | — | 100% |"));
    assert!(md.contains("| size escalation | no data | — | 0% |"));
    assert!(md.contains("| overtrading | **yes** | High | 85% |"));
    assert!(md.contains("> [!warning] Detected behaviors: revenge trading, overtrading\n"));
    assert!(md.contains("| **300.00** | **50.0%** | **2.00** | **0.50** |"));
    assert!(md.contains("| **80 / 100** | **60 / 100** | **70 / 100** | **100.00** |"));
    assert!(md.contains("**2026-01-01 → 2026-01-06** · 6 calendar days · 6 trading days · 6 trades"));
    assert!(md.contains("[[2026-01-06_10-00]] · generated 2026-01-06T10:00:00 · `t.csv` · engine v1.1.0 (schema v1.1.0) · 0 rows skipped"));
    assert!(md.contains("_Curves downsampled to at most 500 points for rendering; totals are exact._"));
    assert!(md.starts_with("# Trading Dashboard\n\n## Trading Period\n\n"));
}

#[test]
fn rankings_are_horizontal_bars() {
    let md = render(&sample(), "stamp");
    let start = md.find("### PnL per Pair").unwrap();
    let block = &md[start..];
    let block = &block[..block.find("```\n").unwrap()];
    assert!(block.contains("indexAxis: y"));
    assert!(block.contains("labels: [\"EURUSD\", \"GBPUSD\"]"));
    assert!(block.contains("data: [600, -300]"));
}

#[test]
fn report_has_fixed_sections_and_ai_markers() {
    // a journal with sessions and strategies: their chart groups render
    let mut x = sample();
    x.sessions_available = true;
    x.session_keys = texts(&["asia", "london", "new_york"]);
    x.session_pnl = texts(&["-100", "300", "100"]);
    x.session_win_rate = texts(&["0", "100", "50"]);
    x.session_rr = pts(&["london", "new_york"], &["2", "0.5"]);
    let md = render(&x, "stamp");
    for section in [
        "# Trading Dashboard",
        "## Trading Period",
        "## Executive Summary",
        "## Performance",
        "## Risk",
        "## Behavior",
        "## Pair Performance",
        "## Session Performance",
        "## Strategy Performance",
        "## Historical Comparison",
        "## AI Coaching",
        "## Action Plan",
    ] {
        assert!(md.contains(section), "missing section: {section}");
    }
    assert!(md.contains("<!-- ai:begin:executive_summary -->"));
    assert!(md.contains("### PnL per Session"));
    assert!(md.contains("### PnL per Strategy"));
    assert!(md.contains("### Average RR per Session"));
}
