use trade_analyst::behavior::Severity;
use trade_analyst::charts::{snapshot_label, yaml_quote, ChartSpec, ChartType, Series};
use trade_analyst::parser::Field;
use trade_analyst::reports::{ai_placeholder, session_display, severity_label, Doc};

fn texts(v: &[&str]) -> Vec<String> {
    v.iter().map(|s| s.to_string()).collect()
}

#[test]
fn renders_valid_chart_block() {
    let spec = ChartSpec::line(texts(&["1", "2", "3"]), vec![Series::new("Equity", texts(&["100", "250.5", "200"]))])
        .y_title("Cumulative PnL")
        .x_title("Trade #");
    let md = spec.render();
    assert!(md.starts_with("```chart\n"));
    assert!(md.ends_with("```\n"));
    assert!(md.contains("type: line"));
    assert!(md.contains("labels: [\"1\", \"2\", \"3\"]"));
    assert!(md.contains("  - title: \"Equity\""));
    assert!(md.contains("    data: [100, 250.5, 200]"));
    assert!(md.contains("yTitle: \"Cumulative PnL\""));
    assert!(md.contains("xTitle: \"Trade #\""));
}

#[test]
fn horizontal_bar_sets_index_axis() {
    let spec = ChartSpec::horizontal_bar(texts(&["EURUSD"]), vec![Series::new("PnL", texts(&["500"]))]);
    let md = spec.render();
    assert!(md.contains("type: bar"));
    assert!(md.contains("indexAxis: y"));
    assert!(md.contains("beginAtZero: true"));
}

#[test]
fn quotes_are_escaped() {
    let spec = ChartSpec::bar(texts(&["a\"b"]), vec![Series::new("s", texts(&["1"]))]);
    assert!(spec.render().contains("\"a\\\"b\""));
}

#[test]
fn full_chart_block_text() {
    let spec = ChartSpec::bar(texts(&["W1", "W2"]), vec![Series::new("PnL", texts(&["1", "-2"])), Series::new("Trades", texts(&["3", "4"]))])
        .fill(true)
        .begin_at_zero(false)
        .width("60%");
    assert_eq!(
        spec.render(),
        "```chart\ntype: bar\nlabels: [\"W1\", \"W2\"]\nseries:\n  - title: \"PnL\"\n    data: [1, -2]\n  - title: \"Trades\"\n    data: [3, 4]\ntension: 0\nfill: true\nbeginAtZero: false\nlegend: true\nlabelColors: false\nwidth: \"60%\"\n```\n"
    );
}

#[test]
fn yaml_quoting() {
    assert_eq!(yaml_quote("plain"), "\"plain\"");
    assert_eq!(yaml_quote("a\\b"), "\"a\\\\b\"");
    assert_eq!(yaml_quote("say \"hi\""), "\"say \\\"hi\\\"\"");
    assert_eq!(ChartType::Line.label(), "line");
}

#[test]
fn snapshot_labels() {
    assert_eq!(snapshot_label("2026-07-05T11:08:55"), "07-05 11:08");
    assert_eq!(snapshot_label("2026-07-05"), "2026-07-05");
}

#[test]
fn ai_placeholder_block_text() {
    let p = ai_placeholder("risk", "Interpret the drawdown chart.");
    assert_eq!(
        p,
        "<!-- ai:begin:risk -->\n> [!quote] Coach\n> _Interpret the drawdown chart._\n<!-- ai:end:risk -->\n"
    );
}

#[test]
fn labels() {
    assert_eq!(severity_label(&Severity::Absent), "—");
    assert_eq!(severity_label(&Severity::High), "High");
    assert_eq!(session_display("new_york"), "New York");
    assert_eq!(session_display("asia"), "Asia");
    assert_eq!(session_display("mars"), "Other");
    assert_eq!(Field::PositionSize.canonical_name(), "position_size");
    assert!(Field::Pnl.required());
    assert!(!Field::Notes.required());
    assert_eq!(Field::all().len(), 15);
}

#[test]
fn document_building() {
    let mut doc = Doc::new();
    doc.line("# Title");
    doc.blank();
    doc.ai("summary", "Summarize.");
    let spec = ChartSpec::line(texts(&["a"]), vec![Series::new("s", texts(&["1"]))]);
    doc.chart("Equity", &spec);
    let text = doc.finish();
    assert!(text.starts_with("# Title\n\n<!-- ai:begin:summary -->"));
    assert!(text.contains("### Equity\n\n```chart\n"));
    assert!(text.ends_with("```\n\n"));
}
