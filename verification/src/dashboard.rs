//! The analysis dashboard note. Every analysis is a chart-first Obsidian
//! note: KPI cards up top, then Obsidian Charts blocks, each group followed
//! by a concise AI interpretation placeholder.
//!
//! The top-level section order is fixed and never changes:
//! Trading Period, Executive Summary, Performance, Risk, Behavior, Pair
//! Performance, Session Performance, Strategy Performance, Historical
//! Comparison, AI Coaching, Action Plan.
//!
//! All figures arrive already formatted; the decisions here are on plain
//! values (empty lists, flags, counts).

use vstd::prelude::*;
use crate::behavior::Severity;
use crate::charts::{
    base_view, chart_block, chart_of, chart_opt, one_series, series_views, ChartSpec, ChartType,
    ChartView, Series, SnapshotCharts,
};
use crate::reports::{placeholder_text, session_display, session_key_display, severity_label, severity_text, Doc};
use crate::text::{chars_of, push_text, string_of, string_views};

verus! {

/// The document with a line appended.
pub open spec fn add_line(d: Seq<char>, s: Seq<char>) -> Seq<char> {
    d + s + seq!['\n']
}

/// The document with an empty line appended.
pub open spec fn add_blank(d: Seq<char>) -> Seq<char> {
    d.push('\n')
}

/// The document with a chart under a `###` heading appended.
#[verifier::opaque]
pub open spec fn add_chart(d: Seq<char>, heading: Seq<char>, c: ChartView) -> Seq<char> {
    d + "### "@ + heading + seq!['\n'] + seq!['\n'] + chart_block(c) + seq!['\n']
}

/// The document with an AI placeholder block appended.
pub open spec fn add_ai(d: Seq<char>, name: Seq<char>, instruction: Seq<char>) -> Seq<char> {
    d + placeholder_text(name, instruction) + seq!['\n']
}

pub const AI_SUMMARY: &'static str = "2-3 sentences: overall state, the most important pattern on this dashboard, the #1 priority. Cite only numbers from the exchange JSON.";
pub const AI_PERFORMANCE: &'static str = "2-3 sentences on the equity curve shape and PnL rhythm (daily/weekly/monthly trend, best vs worst periods). Reference what the charts show.";
pub const AI_RISK: &'static str = "2-3 sentences on drawdown depth/recovery, risk sizing stability and RR development visible in these charts.";
pub const AI_BEHAVIOR: &'static str = "2-3 sentences interpreting the detected flags (use behavioral_flags metrics) and the streak/score-development charts. Hedge on low-confidence flags; skip flags without data.";
pub const AI_PAIRS: &'static str = "2-3 sentences: strongest and weakest markets across PnL, win rate and RR, and what to focus on. Only rankings visible in these charts.";
pub const AI_SESSIONS: &'static str = "1-2 sentences: which session performs best/worst and whether trading hours should shift.";
pub const AI_STRATEGIES: &'static str = "1-2 sentences: which setup earns its place and which is costing money, based on these rankings.";
pub const AI_HISTORICAL: &'static str = "2-3 sentences on development across analyses: what is trending up, what is regressing, streaks of improvement (e.g. 'third consecutive analysis with a higher discipline score'). Use historical_comparison only; skip if this is the first analysis.";
pub const AI_COACHING: &'static str = "Max 5 short bullets: evidence-backed strengths and weaknesses, most impactful first. Each bullet cites a number or chart from this dashboard. Focus on trends over isolated stats.";
pub const AI_ACTION_PLAN: &'static str = "Max 3 concrete actions targeting the biggest weakness/behavior, each with a measurable success metric from the exchange JSON to check next analysis.";

/// Labels and formatted values of one chart.
pub struct Points {
    pub labels: Vec<String>,
    pub values: Vec<String>,
}

/// One row of the behavior table.
pub struct FlagRow {
    /// Machine name of the flag (underscores become spaces in the table).
    pub name: String,
    pub data_available: bool,
    pub detected: bool,
    pub severity: Severity,
    /// Confidence in percent, formatted.
    pub confidence: String,
}

/// A "current vs historical average / best / worst" comparison, formatted.
pub struct ComparisonFigures {
    pub metric: String,
    /// Current, historical average, best and worst.
    pub values: Vec<String>,
}

/// Changes against the previous analysis, formatted with their sign.
pub struct DeltaFigures {
    pub total_pnl: String,
    pub win_rate: String,
    pub profit_factor: Option<String>,
    pub average_rr: Option<String>,
    pub max_daily_drawdown: String,
    pub discipline: String,
    pub consistency: String,
    pub emotional_control: String,
}

/// Everything the dashboard shows, figures already formatted. Pair and
/// strategy points come ranked (highest value first).
pub struct ReportFigures {
    pub first_trade_date: String,
    pub last_trade_date: String,
    pub calendar_days: String,
    pub trading_days: String,
    pub total_trades: String,
    pub generated_at: String,
    pub source_file: String,
    pub engine_version: String,
    pub schema_version: String,
    pub skipped_rows: String,
    pub total_pnl: String,
    pub win_rate: String,
    pub profit_factor: String,
    pub average_rr: String,
    pub discipline: String,
    pub consistency: String,
    pub emotional_control: String,
    pub max_daily_drawdown: String,
    pub detected_behaviors: Vec<String>,
    pub downsampled: bool,
    pub max_points: String,
    pub trade_labels: Vec<String>,
    pub cumulative_pnl: Vec<String>,
    pub daily: Points,
    pub weekly: Points,
    pub monthly: Points,
    /// Winning, losing and break-even days.
    pub day_counts: Vec<String>,
    pub drawdown: Vec<String>,
    pub max_drawdown: Vec<String>,
    pub risk: Points,
    pub rolling_rr: Points,
    pub flags: Vec<FlagRow>,
    pub streak: Vec<String>,
    pub history: SnapshotCharts,
    pub pair_pnl: Points,
    pub pair_win_rate: Points,
    pub pair_rr: Points,
    pub pair_trades: Points,
    pub sessions_available: bool,
    /// Session keys of the sessions with trades, with their PnL and win rate.
    pub session_keys: Vec<String>,
    pub session_pnl: Vec<String>,
    pub session_win_rate: Vec<String>,
    /// Session keys and average RR of the sessions that report one.
    pub session_rr: Points,
    pub strategies_available: bool,
    pub strategy_pnl: Points,
    pub strategy_win_rate: Points,
    pub strategy_rr: Points,
    pub strategy_trades: Points,
    pub previous_analyses: usize,
    pub comparisons: Vec<ComparisonFigures>,
    pub deltas: Option<DeltaFigures>,
}

/// Short for the views of a list of strings.
pub open spec fn sv(v: Vec<String>) -> Seq<Seq<char>> {
    string_views(v@)
}

// --- lines ---------------------------------------------------------------

/// `_` made a space.
pub open spec fn spaced(s: Seq<char>) -> Seq<char> {
    s.map_values(|c: char| if c == '_' { ' ' } else { c })
}

/// The items joined with a separator.
pub open spec fn joined_with(items: Seq<Seq<char>>, sep: Seq<char>) -> Seq<char>
    decreases items.len(),
{
    if items.len() == 0 {
        Seq::empty()
    } else if items.len() == 1 {
        items[0]
    } else {
        joined_with(items.drop_last(), sep) + sep + items.last()
    }
}

pub open spec fn period_line(x: ReportFigures) -> Seq<char> {
    "**"@ + x.first_trade_date@ + " → "@ + x.last_trade_date@ + "** · "@ + x.calendar_days@
        + " calendar days · "@ + x.trading_days@ + " trading days · "@ + x.total_trades@ + " trades"@
}

pub open spec fn stamp_line(x: ReportFigures, stamp: Seq<char>) -> Seq<char> {
    "[["@ + stamp + "]] · generated "@ + x.generated_at@ + " · `"@ + x.source_file@ + "` · engine v"@
        + x.engine_version@ + " (schema v"@ + x.schema_version@ + ") · "@ + x.skipped_rows@
        + " rows skipped"@
}

pub open spec fn kpi_line(x: ReportFigures) -> Seq<char> {
    "| **"@ + x.total_pnl@ + "** | **"@ + x.win_rate@ + "** | **"@ + x.profit_factor@ + "** | **"@
        + x.average_rr@ + "** |"@
}

pub open spec fn score_line(x: ReportFigures) -> Seq<char> {
    "| **"@ + x.discipline@ + " / 100** | **"@ + x.consistency@ + " / 100** | **"@
        + x.emotional_control@ + " / 100** | **"@ + x.max_daily_drawdown@ + "** |"@
}

pub open spec fn behaviors_line(x: ReportFigures) -> Seq<char> {
    "> [!warning] Detected behaviors: "@ + joined_with(
        sv(x.detected_behaviors).map_values(|b: Seq<char>| spaced(b)),
        ", "@,
    )
}

pub open spec fn downsample_line(x: ReportFigures) -> Seq<char> {
    "_Curves downsampled to at most "@ + x.max_points@ + " points for rendering; totals are exact._"@
}

pub open spec fn detected_word(f: FlagRow) -> Seq<char> {
    if !f.data_available {
        "no data"@
    } else if f.detected {
        "**yes**"@
    } else {
        "no"@
    }
}

pub open spec fn flag_line(f: FlagRow) -> Seq<char> {
    "| "@ + spaced(f.name@) + " | "@ + detected_word(f) + " | "@ + severity_text(f.severity) + " | "@
        + f.confidence@ + "% |"@
}

fn spaced_text(s: &str) -> (r: String)
    ensures
        r@ == spaced(s@),
{
    let v = chars_of(s);
    let mut out: Vec<char> = Vec::new();
    let mut i: usize = 0;
    while i < v.len()
        invariant
            i <= v@.len(),
            out@ =~= spaced(v@.take(i as int)),
        decreases v@.len() - i,
    {
        let c = v[i];
        out.push(if c == '_' {
            ' '
        } else {
            c
        });
        i = i + 1;
        assert(out@ =~= spaced(v@.take(i as int)));
    }
    assert(v@.take(i as int) =~= v@);
    string_of(out.as_slice())
}

/// A string holding `s`.
fn text(s: &str) -> (r: String)
    ensures
        r@ == s@,
{
    string_of(chars_of(s).as_slice())
}

fn push_joined_spaced(out: &mut String, items: &Vec<String>)
    ensures
        final(out)@ == old(out)@ + joined_with(sv(*items).map_values(|b: Seq<char>| spaced(b)), ", "@),
{
    let ghost start = out@;
    let ghost qv = sv(*items).map_values(|b: Seq<char>| spaced(b));
    let mut i: usize = 0;
    while i < items.len()
        invariant
            i <= items@.len(),
            qv == sv(*items).map_values(|b: Seq<char>| spaced(b)),
            out@ == start + joined_with(qv.take(i as int), ", "@),
        decreases items@.len() - i,
    {
        assert(qv.take(i + 1).drop_last() =~= qv.take(i as int));
        assert(qv.take(i + 1).last() == spaced(items@[i as int]@));
        let q = spaced_text(items[i].as_str());
        if i > 0 {
            push_text(out, ", ");
        }
        push_text(out, q.as_str());
        if i == 0 {
            assert(qv.take(1) =~= seq![qv[0]]);
        }
        assert(out@ =~= start + joined_with(qv.take(i + 1), ", "@));
        i = i + 1;
    }
    assert(qv.take(i as int) =~= qv);
}

// --- sections ------------------------------------------------------------

/// The title of the note.
pub open spec fn title_text() -> Seq<char> {
    add_blank(add_line(Seq::empty(), "# Trading Dashboard"@))
}

pub open spec fn sec_period(d: Seq<char>, x: ReportFigures, stamp: Seq<char>) -> Seq<char> {
    add_blank(add_line(add_blank(add_line(add_blank(add_line(d, "## Trading Period"@)), period_line(x))), stamp_line(x, stamp)))
}

pub open spec fn sec_summary(d: Seq<char>, x: ReportFigures) -> Seq<char> {
    let d1 = add_blank(add_line(d, "## Executive Summary"@));
    let d2 = add_line(add_line(d1, "| Total PnL | Win Rate | Profit Factor | Average RR |"@), "| :---: | :---: | :---: | :---: |"@);
    let d3 = add_blank(add_line(d2, kpi_line(x)));
    let d4 = add_line(add_line(d3, "| Discipline | Consistency | Emotional Control | Max Daily Drawdown |"@), "| :---: | :---: | :---: | :---: |"@);
    let d5 = add_blank(add_line(d4, score_line(x)));
    let d6 = if x.detected_behaviors@.len() > 0 {
        add_blank(add_line(d5, behaviors_line(x)))
    } else {
        d5
    };
    add_ai(d6, "executive_summary"@, AI_SUMMARY@)
}

fn write_period(doc: &mut Doc, x: &ReportFigures, stamp: &str)
    ensures
        final(doc)@ == sec_period(old(doc)@, *x, stamp@),
{
    doc.line("## Trading Period");
    doc.blank();
    let mut s = text("**");
    push_text(&mut s, x.first_trade_date.as_str());
    push_text(&mut s, " → ");
    push_text(&mut s, x.last_trade_date.as_str());
    push_text(&mut s, "** · ");
    push_text(&mut s, x.calendar_days.as_str());
    push_text(&mut s, " calendar days · ");
    push_text(&mut s, x.trading_days.as_str());
    push_text(&mut s, " trading days · ");
    push_text(&mut s, x.total_trades.as_str());
    push_text(&mut s, " trades");
    doc.line(s.as_str());
    doc.blank();
    let mut t = text("[[");
    push_text(&mut t, stamp);
    push_text(&mut t, "]] · generated ");
    push_text(&mut t, x.generated_at.as_str());
    push_text(&mut t, " · `");
    push_text(&mut t, x.source_file.as_str());
    push_text(&mut t, "` · engine v");
    push_text(&mut t, x.engine_version.as_str());
    push_text(&mut t, " (schema v");
    push_text(&mut t, x.schema_version.as_str());
    push_text(&mut t, ") · ");
    push_text(&mut t, x.skipped_rows.as_str());
    push_text(&mut t, " rows skipped");
    doc.line(t.as_str());
    doc.blank();
}

fn write_summary(doc: &mut Doc, x: &ReportFigures)
    ensures
        final(doc)@ == sec_summary(old(doc)@, *x),
{
    doc.line("## Executive Summary");
    doc.blank();
    doc.line("| Total PnL | Win Rate | Profit Factor | Average RR |");
    doc.line("| :---: | :---: | :---: | :---: |");
    let mut s = text("| **");
    push_text(&mut s, x.total_pnl.as_str());
    push_text(&mut s, "** | **");
    push_text(&mut s, x.win_rate.as_str());
    push_text(&mut s, "** | **");
    push_text(&mut s, x.profit_factor.as_str());
    push_text(&mut s, "** | **");
    push_text(&mut s, x.average_rr.as_str());
    push_text(&mut s, "** |");
    doc.line(s.as_str());
    doc.blank();
    doc.line("| Discipline | Consistency | Emotional Control | Max Daily Drawdown |");
    doc.line("| :---: | :---: | :---: | :---: |");
    let mut t = text("| **");
    push_text(&mut t, x.discipline.as_str());
    push_text(&mut t, " / 100** | **");
    push_text(&mut t, x.consistency.as_str());
    push_text(&mut t, " / 100** | **");
    push_text(&mut t, x.emotional_control.as_str());
    push_text(&mut t, " / 100** | **");
    push_text(&mut t, x.max_daily_drawdown.as_str());
    push_text(&mut t, "** |");
    doc.line(t.as_str());
    doc.blank();
    if x.detected_behaviors.len() > 0 {
        let mut b = text("> [!warning] Detected behaviors: ");
        push_joined_spaced(&mut b, &x.detected_behaviors);
        doc.line(b.as_str());
        doc.blank();
    }
    doc.ai("executive_summary", AI_SUMMARY);
}

/// A chart view with axis titles set.
pub open spec fn with_titles(v: ChartView, y: Seq<char>, xt: Option<Seq<char>>) -> ChartView {
    ChartView { y_title: Some(y), x_title: xt, ..v }
}

/// One-series line chart over labels.
pub open spec fn line_view(labels: Seq<Seq<char>>, title: Seq<char>, data: Seq<Seq<char>>) -> ChartView {
    base_view(ChartType::Line, false, labels, seq![(title, data)])
}

/// One-series vertical bar chart over labels.
pub open spec fn bar_view(labels: Seq<Seq<char>>, title: Seq<char>, data: Seq<Seq<char>>) -> ChartView {
    base_view(ChartType::Bar, false, labels, seq![(title, data)])
}

/// One-series horizontal bar chart (a ranking).
pub open spec fn ranking_view(p: Points, title: Seq<char>) -> ChartView {
    base_view(ChartType::Bar, true, sv(p.labels), seq![(title, sv(p.values))])
}

pub open spec fn equity_view(x: ReportFigures) -> ChartView {
    with_titles(ChartView { fill: true, ..line_view(sv(x.trade_labels), "Cumulative PnL"@, sv(x.cumulative_pnl)) }, "Cumulative PnL"@, Some("Trade #"@))
}

pub open spec fn day_labels() -> Seq<Seq<char>> {
    seq!["Winning"@, "Losing"@, "Break-even"@]
}

pub open spec fn sec_performance(d: Seq<char>, x: ReportFigures) -> Seq<char> {
    let d1 = add_blank(add_line(d, "## Performance"@));
    let d2 = if x.downsampled {
        add_blank(add_line(d1, downsample_line(x)))
    } else {
        d1
    };
    let d3 = add_chart(d2, "Equity Curve"@, equity_view(x));
    let d4 = add_chart(d3, "Daily PnL"@, with_titles(line_view(sv(x.daily.labels), "Daily PnL"@, sv(x.daily.values)), "PnL"@, Some("Date"@)));
    let d5 = add_chart(d4, "Weekly PnL"@, with_titles(bar_view(sv(x.weekly.labels), "Weekly PnL"@, sv(x.weekly.values)), "PnL"@, Some("Week"@)));
    let d6 = add_chart(d5, "Monthly PnL"@, with_titles(bar_view(sv(x.monthly.labels), "Monthly PnL"@, sv(x.monthly.values)), "PnL"@, Some("Month"@)));
    let d7 = add_chart(d6, "Winning vs Losing Days"@, with_titles(bar_view(day_labels(), "Days"@, sv(x.day_counts)), "Days"@, None));
    add_ai(d7, "performance"@, AI_PERFORMANCE@)
}

pub open spec fn drawdown_view(x: ReportFigures) -> ChartView {
    with_titles(
        ChartView {
            begin_at_zero: true,
            ..base_view(ChartType::Line, false, sv(x.trade_labels), seq![("Drawdown"@, sv(x.drawdown)), ("Maximum"@, sv(x.max_drawdown))])
        },
        "Distance below equity peak"@,
        Some("Trade #"@),
    )
}

pub open spec fn sec_risk(d: Seq<char>, x: ReportFigures) -> Seq<char> {
    let d1 = add_blank(add_line(d, "## Risk"@));
    let d2 = add_chart(d1, "Drawdown"@, drawdown_view(x));
    let d3 = if x.risk.labels@.len() == 0 {
        add_blank(add_line(add_blank(add_line(d2, "### Risk per Trade"@)), "_No risk data in this journal._"@))
    } else {
        add_chart(d2, "Risk per Trade"@, with_titles(ChartView { begin_at_zero: true, ..line_view(sv(x.risk.labels), "Risk"@, sv(x.risk.values)) }, "Risk"@, Some("Trade #"@)))
    };
    let d4 = if x.rolling_rr.labels@.len() == 0 {
        add_blank(add_line(add_blank(add_line(d3, "### Average RR Over Time"@)), "_No RR data in this journal._"@))
    } else {
        add_chart(d3, "Average RR Over Time"@, with_titles(line_view(sv(x.rolling_rr.labels), "Rolling RR (10 trades)"@, sv(x.rolling_rr.values)), "Realized RR"@, Some("Trade #"@)))
    };
    add_ai(d4, "risk"@, AI_RISK@)
}

#[verifier::rlimit(50)]
#[verifier::spinoff_prover]
fn write_performance(doc: &mut Doc, x: &ReportFigures)
    ensures
        final(doc)@ == sec_performance(old(doc)@, *x),
{
    proof {
        reveal(add_chart);
    }
    doc.line("## Performance");
    doc.blank();
    if x.downsampled {
        let mut s = text("_Curves downsampled to at most ");
        push_text(&mut s, x.max_points.as_str());
        push_text(&mut s, " points for rendering; totals are exact._");
        doc.line(s.as_str());
        doc.blank();
    }
    let equity = chart_of(ChartType::Line, false, &x.trade_labels, one_series("Cumulative PnL", &x.cumulative_pnl)).fill(true).y_title("Cumulative PnL").x_title("Trade #");
    doc.chart("Equity Curve", &equity);
    let daily = chart_of(ChartType::Line, false, &x.daily.labels, one_series("Daily PnL", &x.daily.values)).y_title("PnL").x_title("Date");
    doc.chart("Daily PnL", &daily);
    let weekly = chart_of(ChartType::Bar, false, &x.weekly.labels, one_series("Weekly PnL", &x.weekly.values)).y_title("PnL").x_title("Week");
    doc.chart("Weekly PnL", &weekly);
    let monthly = chart_of(ChartType::Bar, false, &x.monthly.labels, one_series("Monthly PnL", &x.monthly.values)).y_title("PnL").x_title("Month");
    doc.chart("Monthly PnL", &monthly);
    let mut labels: Vec<String> = Vec::new();
    labels.push(text("Winning"));
    labels.push(text("Losing"));
    labels.push(text("Break-even"));
    assert(sv(labels) =~= day_labels());
    let days = chart_of(ChartType::Bar, false, &labels, one_series("Days", &x.day_counts)).y_title("Days");
    doc.chart("Winning vs Losing Days", &days);
    doc.ai("performance", AI_PERFORMANCE);
}

fn write_risk(doc: &mut Doc, x: &ReportFigures)
    ensures
        final(doc)@ == sec_risk(old(doc)@, *x),
{
    proof {
        reveal(add_chart);
    }
    doc.line("## Risk");
    doc.blank();
    let mut series: Vec<Series> = Vec::new();
    series.push(Series::new("Drawdown", crate::parser::table::copy_strings(&x.drawdown)));
    series.push(Series::new("Maximum", crate::parser::table::copy_strings(&x.max_drawdown)));
    assert(series_views(series@) =~= seq![("Drawdown"@, sv(x.drawdown)), ("Maximum"@, sv(x.max_drawdown))]);
    let dd = chart_of(ChartType::Line, false, &x.trade_labels, series).begin_at_zero(true).y_title("Distance below equity peak").x_title("Trade #");
    doc.chart("Drawdown", &dd);
    if x.risk.labels.len() == 0 {
        doc.line("### Risk per Trade");
        doc.blank();
        doc.line("_No risk data in this journal._");
        doc.blank();
    } else {
        let c = chart_of(ChartType::Line, false, &x.risk.labels, one_series("Risk", &x.risk.values)).begin_at_zero(true).y_title("Risk").x_title("Trade #");
        doc.chart("Risk per Trade", &c);
    }
    if x.rolling_rr.labels.len() == 0 {
        doc.line("### Average RR Over Time");
        doc.blank();
        doc.line("_No RR data in this journal._");
        doc.blank();
    } else {
        let c = chart_of(ChartType::Line, false, &x.rolling_rr.labels, one_series("Rolling RR (10 trades)", &x.rolling_rr.values)).y_title("Realized RR").x_title("Trade #");
        doc.chart("Average RR Over Time", &c);
    }
    doc.ai("risk", AI_RISK);
}

/// The behavior table rows.
pub open spec fn flag_rows(d: Seq<char>, flags: Seq<FlagRow>) -> Seq<char>
    decreases flags.len(),
{
    if flags.len() == 0 {
        d
    } else {
        add_line(flag_rows(d, flags.drop_last()), flag_line(flags.last()))
    }
}

/// The document with a chart appended when there is one.
pub open spec fn opt_chart(d: Seq<char>, heading: Seq<char>, c: Option<ChartView>) -> Seq<char> {
    match c {
        Some(v) => add_chart(d, heading, v),
        None => d,
    }
}

pub open spec fn streak_view(x: ReportFigures) -> ChartView {
    with_titles(line_view(sv(x.trade_labels), "Streak (+wins / -losses)"@, sv(x.streak)), "Consecutive wins / losses"@, Some("Trade #"@))
}

pub open spec fn sec_behavior(d: Seq<char>, x: ReportFigures) -> Seq<char> {
    let d1 = add_line(add_line(add_blank(add_line(d, "## Behavior"@)), "| Pattern | Detected | Severity | Confidence |"@), "| --- | --- | --- | --- |"@);
    let d2 = add_blank(flag_rows(d1, x.flags@));
    let d3 = add_chart(d2, "Streaks"@, streak_view(x));
    let h = x.history;
    let d4 = opt_chart(
        opt_chart(opt_chart(opt_chart(d3, "Score Development"@, chart_opt(h.scores)), "Win Rate History"@, chart_opt(h.win_rate)), "Profit Factor History"@, chart_opt(h.profit_factor)),
        "Average RR History"@,
        chart_opt(h.average_rr),
    );
    let d5 = if h.scores is None {
        add_blank(add_line(d4, "_Development charts appear from the second analysis onward._"@))
    } else {
        d4
    };
    add_ai(d5, "behavior"@, AI_BEHAVIOR@)
}

fn write_flag(doc: &mut Doc, f: &FlagRow)
    ensures
        final(doc)@ == add_line(old(doc)@, flag_line(*f)),
{
    let mut s = text("| ");
    let name = spaced_text(f.name.as_str());
    push_text(&mut s, name.as_str());
    push_text(&mut s, " | ");
    if !f.data_available {
        push_text(&mut s, "no data");
    } else if f.detected {
        push_text(&mut s, "**yes**");
    } else {
        push_text(&mut s, "no");
    }
    push_text(&mut s, " | ");
    push_text(&mut s, severity_label(&f.severity));
    push_text(&mut s, " | ");
    push_text(&mut s, f.confidence.as_str());
    push_text(&mut s, "% |");
    assert(s@ =~= flag_line(*f));
    doc.line(s.as_str());
}

fn write_opt_chart(doc: &mut Doc, heading: &str, c: &Option<ChartSpec>)
    ensures
        final(doc)@ == opt_chart(old(doc)@, heading@, chart_opt(*c)),
{
    proof {
        reveal(add_chart);
    }
    if let Some(spec) = c {
        doc.chart(heading, spec);
    }
}

fn write_behavior(doc: &mut Doc, x: &ReportFigures)
    ensures
        final(doc)@ == sec_behavior(old(doc)@, *x),
{
    proof {
        reveal(add_chart);
    }
    doc.line("## Behavior");
    doc.blank();
    doc.line("| Pattern | Detected | Severity | Confidence |");
    doc.line("| --- | --- | --- | --- |");
    let ghost d1 = doc@;
    let mut i: usize = 0;
    while i < x.flags.len()
        invariant
            i <= x.flags@.len(),
            doc@ == flag_rows(d1, x.flags@.take(i as int)),
        decreases x.flags@.len() - i,
    {
        assert(x.flags@.take(i + 1).drop_last() =~= x.flags@.take(i as int));
        write_flag(doc, &x.flags[i]);
        i = i + 1;
    }
    assert(x.flags@.take(i as int) =~= x.flags@);
    doc.blank();
    let streak = chart_of(ChartType::Line, false, &x.trade_labels, one_series("Streak (+wins / -losses)", &x.streak)).y_title("Consecutive wins / losses").x_title("Trade #");
    doc.chart("Streaks", &streak);
    write_opt_chart(doc, "Score Development", &x.history.scores);
    write_opt_chart(doc, "Win Rate History", &x.history.win_rate);
    write_opt_chart(doc, "Profit Factor History", &x.history.profit_factor);
    write_opt_chart(doc, "Average RR History", &x.history.average_rr);
    if x.history.scores.is_none() {
        doc.line("_Development charts appear from the second analysis onward._");
        doc.blank();
    }
    doc.ai("behavior", AI_BEHAVIOR);
}

/// The rankings of one dimension (pairs or strategies): PnL, win rate,
/// average RR when any entry reports one, and trade count.
pub open spec fn rankings(d: Seq<char>, pnl: Points, win_rate: Points, rr: Points, trades: Points, per: Seq<char>) -> Seq<char> {
    let d1 = add_chart(d, "PnL per "@ + per, ranking_view(pnl, "PnL"@));
    let d2 = add_chart(d1, "Win Rate per "@ + per, ranking_view(win_rate, "Win Rate %"@));
    let d3 = if rr.labels@.len() > 0 {
        add_chart(d2, "Average RR per "@ + per, ranking_view(rr, "Average RR"@))
    } else {
        d2
    };
    add_chart(d3, "Trades per "@ + per, ranking_view(trades, "Trades"@))
}

pub open spec fn sec_pairs(d: Seq<char>, x: ReportFigures) -> Seq<char> {
    let d1 = add_blank(add_line(d, "## Pair Performance"@));
    add_ai(rankings(d1, x.pair_pnl, x.pair_win_rate, x.pair_rr, x.pair_trades, "Pair"@), "pairs"@, AI_PAIRS@)
}

/// Display names of session keys.
pub open spec fn session_labels(keys: Seq<Seq<char>>) -> Seq<Seq<char>> {
    keys.map_values(|k: Seq<char>| session_key_display(k))
}

pub open spec fn sec_sessions(d: Seq<char>, x: ReportFigures) -> Seq<char> {
    let d1 = add_blank(add_line(d, "## Session Performance"@));
    if x.sessions_available && x.session_keys@.len() > 0 {
        let l = session_labels(sv(x.session_keys));
        let d2 = add_chart(d1, "PnL per Session"@, with_titles(bar_view(l, "PnL"@, sv(x.session_pnl)), "PnL"@, None));
        let d3 = add_chart(d2, "Win Rate per Session"@, with_titles(bar_view(l, "Win Rate %"@, sv(x.session_win_rate)), "Win rate %"@, None));
        let d4 = if x.session_rr.labels@.len() > 0 {
            add_chart(d3, "Average RR per Session"@, with_titles(bar_view(session_labels(sv(x.session_rr.labels)), "Average RR"@, sv(x.session_rr.values)), "Average RR"@, None))
        } else {
            d3
        };
        add_ai(d4, "sessions"@, AI_SESSIONS@)
    } else {
        add_blank(add_line(d1, "_No session or trade-time data in this journal._"@))
    }
}

pub open spec fn sec_strategies(d: Seq<char>, x: ReportFigures) -> Seq<char> {
    let d1 = add_blank(add_line(d, "## Strategy Performance"@));
    if x.strategies_available {
        add_ai(rankings(d1, x.strategy_pnl, x.strategy_win_rate, x.strategy_rr, x.strategy_trades, "Strategy"@), "strategies"@, AI_STRATEGIES@)
    } else {
        add_blank(add_line(d1, "_No strategy data in this journal._"@))
    }
}

fn ranking_chart(p: &Points, title: &str) -> (r: ChartSpec)
    ensures
        r@ == ranking_view(*p, title@),
{
    chart_of(ChartType::Bar, true, &p.labels, one_series(title, &p.values))
}

/// `a` followed by `b`.
fn concat(a: &str, b: &str) -> (r: String)
    ensures
        r@ == a@ + b@,
{
    let mut s = text(a);
    push_text(&mut s, b);
    s
}

fn write_rankings(doc: &mut Doc, pnl: &Points, win_rate: &Points, rr: &Points, trades: &Points, per: &str)
    ensures
        final(doc)@ == rankings(old(doc)@, *pnl, *win_rate, *rr, *trades, per@),
{
    proof {
        reveal(add_chart);
    }
    let h = concat("PnL per ", per);
    doc.chart(h.as_str(), &ranking_chart(pnl, "PnL"));
    let h = concat("Win Rate per ", per);
    doc.chart(h.as_str(), &ranking_chart(win_rate, "Win Rate %"));
    if rr.labels.len() > 0 {
        let h = concat("Average RR per ", per);
        doc.chart(h.as_str(), &ranking_chart(rr, "Average RR"));
    }
    let h = concat("Trades per ", per);
    doc.chart(h.as_str(), &ranking_chart(trades, "Trades"));
}

fn write_pairs(doc: &mut Doc, x: &ReportFigures)
    ensures
        final(doc)@ == sec_pairs(old(doc)@, *x),
{
    doc.line("## Pair Performance");
    doc.blank();
    write_rankings(doc, &x.pair_pnl, &x.pair_win_rate, &x.pair_rr, &x.pair_trades, "Pair");
    doc.ai("pairs", AI_PAIRS);
}

fn display_names(keys: &Vec<String>) -> (r: Vec<String>)
    ensures
        sv(r) == session_labels(sv(*keys)),
{
    let mut out: Vec<String> = Vec::new();
    let mut i: usize = 0;
    while i < keys.len()
        invariant
            i <= keys@.len(),
            sv(out) =~= session_labels(sv(*keys)).take(i as int),
        decreases keys@.len() - i,
    {
        let ghost before = sv(out);
        out.push(text(session_display(keys[i].as_str())));
        assert(sv(out) =~= before.push(session_key_display(keys@[i as int]@)));
        i = i + 1;
    }
    assert(session_labels(sv(*keys)).take(i as int) =~= session_labels(sv(*keys)));
    out
}

fn write_sessions(doc: &mut Doc, x: &ReportFigures)
    ensures
        final(doc)@ == sec_sessions(old(doc)@, *x),
{
    proof {
        reveal(add_chart);
    }
    doc.line("## Session Performance");
    doc.blank();
    if x.sessions_available && x.session_keys.len() > 0 {
        let labels = display_names(&x.session_keys);
        let c = chart_of(ChartType::Bar, false, &labels, one_series("PnL", &x.session_pnl)).y_title("PnL");
        doc.chart("PnL per Session", &c);
        let c = chart_of(ChartType::Bar, false, &labels, one_series("Win Rate %", &x.session_win_rate)).y_title("Win rate %");
        doc.chart("Win Rate per Session", &c);
        if x.session_rr.labels.len() > 0 {
            let rr_labels = display_names(&x.session_rr.labels);
            let c = chart_of(ChartType::Bar, false, &rr_labels, one_series("Average RR", &x.session_rr.values)).y_title("Average RR");
            doc.chart("Average RR per Session", &c);
        }
        doc.ai("sessions", AI_SESSIONS);
    } else {
        doc.line("_No session or trade-time data in this journal._");
        doc.blank();
    }
}

fn write_strategies(doc: &mut Doc, x: &ReportFigures)
    ensures
        final(doc)@ == sec_strategies(old(doc)@, *x),
{
    doc.line("## Strategy Performance");
    doc.blank();
    if x.strategies_available {
        write_rankings(doc, &x.strategy_pnl, &x.strategy_win_rate, &x.strategy_rr, &x.strategy_trades, "Strategy");
        doc.ai("strategies", AI_STRATEGIES);
    } else {
        doc.line("_No strategy data in this journal._");
        doc.blank();
    }
}

/// Labels of a comparison bar.
pub open spec fn comparison_labels() -> Seq<Seq<char>> {
    seq!["Current"@, "Hist. Average"@, "Hist. Best"@, "Hist. Worst"@]
}

pub open spec fn comparison_view(c: ComparisonFigures) -> ChartView {
    with_titles(bar_view(comparison_labels(), c.metric@, sv(c.values)), c.metric@, None)
}

/// One comparison chart per metric.
pub open spec fn comparison_charts(d: Seq<char>, cs: Seq<ComparisonFigures>) -> Seq<char>
    decreases cs.len(),
{
    if cs.len() == 0 {
        d
    } else {
        add_chart(comparison_charts(d, cs.drop_last()), cs.last().metric@ + ": Current vs History"@, comparison_view(cs.last()))
    }
}

/// A row of the change table.
pub open spec fn delta_line(name: Seq<char>, v: Seq<char>, unit: Seq<char>) -> Seq<char> {
    "| "@ + name + " | "@ + v + unit + " |"@
}

/// A row of the change table, when there is a value.
pub open spec fn opt_delta(d: Seq<char>, name: Seq<char>, v: Option<String>) -> Seq<char> {
    match v {
        Some(s) => add_line(d, delta_line(name, s@, ""@)),
        None => d,
    }
}

pub open spec fn delta_table(d: Seq<char>, t: DeltaFigures) -> Seq<char> {
    let d1 = add_line(add_line(d, "| Metric | Change vs previous |"@), "| --- | --- |"@);
    let d2 = add_line(add_line(d1, delta_line("Total PnL"@, t.total_pnl@, ""@)), delta_line("Win rate"@, t.win_rate@, " pp"@));
    let d3 = opt_delta(opt_delta(d2, "Profit factor"@, t.profit_factor), "Average RR"@, t.average_rr);
    let d4 = add_line(add_line(d3, delta_line("Max daily drawdown"@, t.max_daily_drawdown@, ""@)), delta_line("Discipline"@, t.discipline@, ""@));
    add_blank(add_line(add_line(d4, delta_line("Consistency"@, t.consistency@, ""@)), delta_line("Emotional control"@, t.emotional_control@, ""@)))
}

pub open spec fn sec_historical(d: Seq<char>, x: ReportFigures) -> Seq<char> {
    let d1 = add_blank(add_line(d, "## Historical Comparison"@));
    let d2 = if x.previous_analyses == 0 {
        add_blank(add_line(d1, "_First analysis on record — comparisons appear from the next analysis onward._"@))
    } else {
        let d3 = comparison_charts(d1, x.comparisons@);
        match x.deltas {
            Some(t) => delta_table(d3, t),
            None => d3,
        }
    };
    add_ai(d2, "historical"@, AI_HISTORICAL@)
}

pub open spec fn sec_coaching(d: Seq<char>) -> Seq<char> {
    add_ai(add_blank(add_line(d, "## AI Coaching"@)), "coaching"@, AI_COACHING@)
}

pub open spec fn sec_action(d: Seq<char>) -> Seq<char> {
    add_ai(add_blank(add_line(d, "## Action Plan"@)), "action_plan"@, AI_ACTION_PLAN@)
}

/// The whole dashboard note: the title, then the sections in their fixed
/// order.
pub open spec fn report_text(x: ReportFigures, stamp: Seq<char>) -> Seq<char> {
    let d1 = sec_period(title_text(), x, stamp);
    let d2 = sec_summary(d1, x);
    let d3 = sec_performance(d2, x);
    let d4 = sec_risk(d3, x);
    let d5 = sec_behavior(d4, x);
    let d6 = sec_pairs(d5, x);
    let d7 = sec_sessions(d6, x);
    let d8 = sec_strategies(d7, x);
    let d9 = sec_historical(d8, x);
    sec_action(sec_coaching(d9))
}

fn write_delta(doc: &mut Doc, name: &str, v: &str, unit: &str)
    ensures
        final(doc)@ == add_line(old(doc)@, delta_line(name@, v@, unit@)),
{
    let mut s = text("| ");
    push_text(&mut s, name);
    push_text(&mut s, " | ");
    push_text(&mut s, v);
    push_text(&mut s, unit);
    push_text(&mut s, " |");
    assert(s@ =~= delta_line(name@, v@, unit@));
    doc.line(s.as_str());
}

fn write_opt_delta(doc: &mut Doc, name: &str, v: &Option<String>)
    ensures
        final(doc)@ == opt_delta(old(doc)@, name@, *v),
{
    if let Some(s) = v {
        write_delta(doc, name, s.as_str(), "");
    }
}

fn write_historical(doc: &mut Doc, x: &ReportFigures)
    ensures
        final(doc)@ == sec_historical(old(doc)@, *x),
{
    proof {
        reveal(add_chart);
    }
    doc.line("## Historical Comparison");
    doc.blank();
    if x.previous_analyses == 0 {
        doc.line("_First analysis on record — comparisons appear from the next analysis onward._");
        doc.blank();
    } else {
        let ghost d1 = doc@;
        let mut labels: Vec<String> = Vec::new();
        labels.push(text("Current"));
        labels.push(text("Hist. Average"));
        labels.push(text("Hist. Best"));
        labels.push(text("Hist. Worst"));
        assert(sv(labels) =~= comparison_labels());
        let mut i: usize = 0;
        while i < x.comparisons.len()
            invariant
                i <= x.comparisons@.len(),
                sv(labels) == comparison_labels(),
                doc@ == comparison_charts(d1, x.comparisons@.take(i as int)),
            decreases x.comparisons@.len() - i,
        {
            proof {
                reveal(add_chart);
            }
            assert(x.comparisons@.take(i + 1).drop_last() =~= x.comparisons@.take(i as int));
            let c = &x.comparisons[i];
            let spec = chart_of(ChartType::Bar, false, &labels, one_series(c.metric.as_str(), &c.values)).y_title(c.metric.as_str());
            let h = concat(c.metric.as_str(), ": Current vs History");
            doc.chart(h.as_str(), &spec);
            i = i + 1;
        }
        assert(x.comparisons@.take(i as int) =~= x.comparisons@);
        if let Some(t) = &x.deltas {
            doc.line("| Metric | Change vs previous |");
            doc.line("| --- | --- |");
            write_delta(doc, "Total PnL", t.total_pnl.as_str(), "");
            write_delta(doc, "Win rate", t.win_rate.as_str(), " pp");
            write_opt_delta(doc, "Profit factor", &t.profit_factor);
            write_opt_delta(doc, "Average RR", &t.average_rr);
            write_delta(doc, "Max daily drawdown", t.max_daily_drawdown.as_str(), "");
            write_delta(doc, "Discipline", t.discipline.as_str(), "");
            write_delta(doc, "Consistency", t.consistency.as_str(), "");
            write_delta(doc, "Emotional control", t.emotional_control.as_str(), "");
            doc.blank();
        }
    }
    doc.ai("historical", AI_HISTORICAL);
}

/// Render the full dashboard note. `stamp` is the vault filename stem the
/// note links back to.
pub fn render(x: &ReportFigures, stamp: &str) -> (r: String)
    ensures
        r@ == report_text(*x, stamp@),
{
    let mut doc = Doc::new();
    doc.line("# Trading Dashboard");
    doc.blank();
    write_period(&mut doc, x, stamp);
    write_summary(&mut doc, x);
    write_performance(&mut doc, x);
    write_risk(&mut doc, x);
    write_behavior(&mut doc, x);
    write_pairs(&mut doc, x);
    write_sessions(&mut doc, x);
    write_strategies(&mut doc, x);
    write_historical(&mut doc, x);
    doc.line("## AI Coaching");
    doc.blank();
    doc.ai("coaching", AI_COACHING);
    doc.line("## Action Plan");
    doc.blank();
    doc.ai("action_plan", AI_ACTION_PLAN);
    doc.finish()
}

// --- laws ------------------------------------------------------------------

/// `a` is a prefix of `b`.
#[verifier::opaque]
pub open spec fn is_prefix(a: Seq<char>, b: Seq<char>) -> bool {
    a.len() <= b.len() && forall|i: int| 0 <= i < a.len() ==> #[trigger] b[i] == a[i]
}

/// `sub` occurs in `s` starting at index `i`.
pub open spec fn occurs_at(s: Seq<char>, sub: Seq<char>, i: int) -> bool {
    0 <= i && i + sub.len() <= s.len() && s.subrange(i, i + sub.len()) == sub
}

/// `sub` occurs somewhere in `s`.
pub open spec fn contains_text(s: Seq<char>, sub: Seq<char>) -> bool {
    exists|i: int| occurs_at(s, sub, i)
}

/// A heading standing on a line of its own.
pub open spec fn heading_line(h: Seq<char>) -> Seq<char> {
    seq!['\n'] + h + seq!['\n']
}

/// The text ends a line.
pub open spec fn ends_nl(s: Seq<char>) -> bool {
    s.len() > 0 && s.last() == '\n'
}

/// The section headings in their documented order.
pub open spec fn section_headings() -> Seq<Seq<char>> {
    seq![
        "## Trading Period"@,
        "## Executive Summary"@,
        "## Performance"@,
        "## Risk"@,
        "## Behavior"@,
        "## Pair Performance"@,
        "## Session Performance"@,
        "## Strategy Performance"@,
        "## Historical Comparison"@,
        "## AI Coaching"@,
        "## Action Plan"@,
    ]
}

/// `s` extends `d` with a section under heading `h` on a line of its own,
/// and ends a line.
pub open spec fn section_ok(d: Seq<char>, s: Seq<char>, h: Seq<char>) -> bool {
    &&& is_prefix(d, s)
    &&& ends_nl(s)
    &&& occurs_at(s, heading_line(h), d.len() - 1)
}

proof fn lemma_refl(a: Seq<char>)
    ensures
        is_prefix(a, a),
{
    reveal(is_prefix);
}

proof fn lemma_trans(a: Seq<char>, b: Seq<char>, c: Seq<char>)
    requires
        is_prefix(a, b),
        is_prefix(b, c),
    ensures
        is_prefix(a, c),
{
    reveal(is_prefix);
    assert forall|i: int| 0 <= i < a.len() implies #[trigger] c[i] == a[i] by {
        assert(b[i] == a[i]);
        assert(c[i] == b[i]);
    }
}

proof fn lemma_occurs_prefix(a: Seq<char>, b: Seq<char>, sub: Seq<char>, i: int)
    requires
        occurs_at(a, sub, i),
        is_prefix(a, b),
    ensures
        occurs_at(b, sub, i),
{
    reveal(is_prefix);
    assert forall|k: int| 0 <= k < sub.len() implies #[trigger] b.subrange(i, i + sub.len())[k] == sub[k] by {
        assert(a.subrange(i, i + sub.len())[k] == a[i + k]);
        assert(b[i + k] == a[i + k]);
    }
    assert(b.subrange(i, i + sub.len()) =~= sub);
}

proof fn lemma_contains_prefix(a: Seq<char>, b: Seq<char>, sub: Seq<char>)
    requires
        contains_text(a, sub),
        is_prefix(a, b),
    ensures
        contains_text(b, sub),
{
    let i = choose|i: int| occurs_at(a, sub, i);
    lemma_occurs_prefix(a, b, sub, i);
}

proof fn step_line(a: Seq<char>, d: Seq<char>, s: Seq<char>)
    requires
        is_prefix(a, d),
    ensures
        is_prefix(a, add_line(d, s)),
        ends_nl(add_line(d, s)),
{
    reveal(is_prefix);
    assert forall|i: int| 0 <= i < a.len() implies #[trigger] add_line(d, s)[i] == a[i] by {
        assert(d[i] == a[i]);
    }
}

proof fn step_blank(a: Seq<char>, d: Seq<char>)
    requires
        is_prefix(a, d),
    ensures
        is_prefix(a, add_blank(d)),
        ends_nl(add_blank(d)),
{
    reveal(is_prefix);
    assert forall|i: int| 0 <= i < a.len() implies #[trigger] add_blank(d)[i] == a[i] by {
        assert(d[i] == a[i]);
    }
}

proof fn step_chart(a: Seq<char>, d: Seq<char>, h: Seq<char>, c: ChartView)
    requires
        is_prefix(a, d),
    ensures
        is_prefix(a, add_chart(d, h, c)),
        ends_nl(add_chart(d, h, c)),
{
    reveal(add_chart);
    reveal(is_prefix);
    assert forall|i: int| 0 <= i < a.len() implies #[trigger] add_chart(d, h, c)[i] == a[i] by {
        assert(d[i] == a[i]);
    }
}

proof fn step_ai(a: Seq<char>, d: Seq<char>, n: Seq<char>, ins: Seq<char>)
    requires
        is_prefix(a, d),
    ensures
        is_prefix(a, add_ai(d, n, ins)),
        ends_nl(add_ai(d, n, ins)),
        occurs_at(add_ai(d, n, ins), placeholder_text(n, ins), d.len() as int),
        contains_text(add_ai(d, n, ins), placeholder_text(n, ins)),
{
    reveal(is_prefix);
    assert forall|i: int| 0 <= i < a.len() implies #[trigger] add_ai(d, n, ins)[i] == a[i] by {
        assert(d[i] == a[i]);
    }
    let p = placeholder_text(n, ins);
    assert(add_ai(d, n, ins).subrange(d.len() as int, (d.len() + p.len()) as int) =~= p);
    assert(occurs_at(add_ai(d, n, ins), p, d.len() as int));
}

proof fn step_opt_chart(a: Seq<char>, d: Seq<char>, h: Seq<char>, c: Option<ChartView>)
    requires
        is_prefix(a, d),
    ensures
        is_prefix(a, opt_chart(d, h, c)),
        ends_nl(d) ==> ends_nl(opt_chart(d, h, c)),
{
    if let Some(v) = c {
        step_chart(a, d, h, v);
    }
}

proof fn step_flag_rows(a: Seq<char>, d: Seq<char>, flags: Seq<FlagRow>)
    requires
        is_prefix(a, d),
    ensures
        is_prefix(a, flag_rows(d, flags)),
        ends_nl(d) ==> ends_nl(flag_rows(d, flags)),
    decreases flags.len(),
{
    if flags.len() > 0 {
        step_flag_rows(a, d, flags.drop_last());
        step_line(a, flag_rows(d, flags.drop_last()), flag_line(flags.last()));
    }
}

proof fn step_comparisons(a: Seq<char>, d: Seq<char>, cs: Seq<ComparisonFigures>)
    requires
        is_prefix(a, d),
    ensures
        is_prefix(a, comparison_charts(d, cs)),
        ends_nl(d) ==> ends_nl(comparison_charts(d, cs)),
    decreases cs.len(),
{
    if cs.len() > 0 {
        step_comparisons(a, d, cs.drop_last());
        step_chart(a, comparison_charts(d, cs.drop_last()), cs.last().metric@ + ": Current vs History"@, comparison_view(cs.last()));
    }
}

proof fn step_rankings(a: Seq<char>, d: Seq<char>, pnl: Points, win_rate: Points, rr: Points, trades: Points, per: Seq<char>)
    requires
        is_prefix(a, d),
    ensures
        is_prefix(a, rankings(d, pnl, win_rate, rr, trades, per)),
        ends_nl(rankings(d, pnl, win_rate, rr, trades, per)),
{
    let d1 = add_chart(d, "PnL per "@ + per, ranking_view(pnl, "PnL"@));
    step_chart(a, d, "PnL per "@ + per, ranking_view(pnl, "PnL"@));
    let d2 = add_chart(d1, "Win Rate per "@ + per, ranking_view(win_rate, "Win Rate %"@));
    step_chart(a, d1, "Win Rate per "@ + per, ranking_view(win_rate, "Win Rate %"@));
    let d3 = if rr.labels@.len() > 0 {
        add_chart(d2, "Average RR per "@ + per, ranking_view(rr, "Average RR"@))
    } else {
        d2
    };
    if rr.labels@.len() > 0 {
        step_chart(a, d2, "Average RR per "@ + per, ranking_view(rr, "Average RR"@));
    }
    step_chart(a, d3, "Trades per "@ + per, ranking_view(trades, "Trades"@));
}

proof fn step_opt_delta(a: Seq<char>, d: Seq<char>, name: Seq<char>, v: Option<String>)
    requires
        is_prefix(a, d),
    ensures
        is_prefix(a, opt_delta(d, name, v)),
        ends_nl(d) ==> ends_nl(opt_delta(d, name, v)),
{
    if let Some(s) = v {
        step_line(a, d, delta_line(name, s@, ""@));
    }
}

proof fn step_delta_table(a: Seq<char>, d: Seq<char>, t: DeltaFigures)
    requires
        is_prefix(a, d),
    ensures
        is_prefix(a, delta_table(d, t)),
        ends_nl(delta_table(d, t)),
{
    let e1 = add_line(d, "| Metric | Change vs previous |"@);
    step_line(a, d, "| Metric | Change vs previous |"@);
    let d1 = add_line(e1, "| --- | --- |"@);
    step_line(a, e1, "| --- | --- |"@);
    let e2 = add_line(d1, delta_line("Total PnL"@, t.total_pnl@, ""@));
    step_line(a, d1, delta_line("Total PnL"@, t.total_pnl@, ""@));
    let d2 = add_line(e2, delta_line("Win rate"@, t.win_rate@, " pp"@));
    step_line(a, e2, delta_line("Win rate"@, t.win_rate@, " pp"@));
    let e3 = opt_delta(d2, "Profit factor"@, t.profit_factor);
    step_opt_delta(a, d2, "Profit factor"@, t.profit_factor);
    let d3 = opt_delta(e3, "Average RR"@, t.average_rr);
    step_opt_delta(a, e3, "Average RR"@, t.average_rr);
    let e4 = add_line(d3, delta_line("Max daily drawdown"@, t.max_daily_drawdown@, ""@));
    step_line(a, d3, delta_line("Max daily drawdown"@, t.max_daily_drawdown@, ""@));
    let d4 = add_line(e4, delta_line("Discipline"@, t.discipline@, ""@));
    step_line(a, e4, delta_line("Discipline"@, t.discipline@, ""@));
    let e5 = add_line(d4, delta_line("Consistency"@, t.consistency@, ""@));
    step_line(a, d4, delta_line("Consistency"@, t.consistency@, ""@));
    let e6 = add_line(e5, delta_line("Emotional control"@, t.emotional_control@, ""@));
    step_line(a, e5, delta_line("Emotional control"@, t.emotional_control@, ""@));
    step_blank(a, e6);
}

/// The heading line opens the section: it stands on a line of its own
/// right after `d`.
proof fn lemma_heading(d: Seq<char>, h: Seq<char>)
    requires
        ends_nl(d),
    ensures
        is_prefix(d, add_line(d, h)),
        is_prefix(add_line(d, h), add_line(d, h)),
        occurs_at(add_line(d, h), heading_line(h), d.len() - 1),
{
    lemma_refl(d);
    step_line(d, d, h);
    let l = add_line(d, h);
    lemma_refl(l);
    assert(l.subrange(d.len() - 1, d.len() - 1 + heading_line(h).len()) =~= heading_line(h));
}

/// From the heading line to the end of the section, text is only appended.
proof fn lemma_close(d: Seq<char>, h: Seq<char>, s: Seq<char>)
    requires
        ends_nl(d),
        is_prefix(add_line(d, h), s),
        ends_nl(s),
    ensures
        section_ok(d, s, h),
{
    lemma_heading(d, h);
    lemma_trans(d, add_line(d, h), s);
    lemma_occurs_prefix(add_line(d, h), s, heading_line(h), d.len() - 1);
}

proof fn lemma_title()
    ensures
        ends_nl(title_text()),
{
    lemma_refl(add_line(Seq::empty(), "# Trading Dashboard"@));
    step_blank(add_line(Seq::empty(), "# Trading Dashboard"@), add_line(Seq::empty(), "# Trading Dashboard"@));
}

proof fn lemma_sec_period(d: Seq<char>, x: ReportFigures, stamp: Seq<char>)
    requires
        ends_nl(d),
    ensures
        section_ok(d, sec_period(d, x, stamp), "## Trading Period"@),
{
    let h = "## Trading Period"@;
    let l = add_line(d, h);
    lemma_heading(d, h);
    let d1 = add_blank(l);
    step_blank(l, l);
    let d2 = add_line(d1, period_line(x));
    step_line(l, d1, period_line(x));
    let d3 = add_blank(d2);
    step_blank(l, d2);
    let d4 = add_line(d3, stamp_line(x, stamp));
    step_line(l, d3, stamp_line(x, stamp));
    step_blank(l, d4);
    lemma_close(d, h, sec_period(d, x, stamp));
}

proof fn lemma_sec_summary(d: Seq<char>, x: ReportFigures)
    requires
        ends_nl(d),
    ensures
        section_ok(d, sec_summary(d, x), "## Executive Summary"@),
        contains_text(sec_summary(d, x), placeholder_text("executive_summary"@, AI_SUMMARY@)),
{
    let h = "## Executive Summary"@;
    let l = add_line(d, h);
    lemma_heading(d, h);
    let d1 = add_blank(l);
    step_blank(l, l);
    let e1 = add_line(d1, "| Total PnL | Win Rate | Profit Factor | Average RR |"@);
    step_line(l, d1, "| Total PnL | Win Rate | Profit Factor | Average RR |"@);
    let d2 = add_line(e1, "| :---: | :---: | :---: | :---: |"@);
    step_line(l, e1, "| :---: | :---: | :---: | :---: |"@);
    let e2 = add_line(d2, kpi_line(x));
    step_line(l, d2, kpi_line(x));
    let d3 = add_blank(e2);
    step_blank(l, e2);
    let e3 = add_line(d3, "| Discipline | Consistency | Emotional Control | Max Daily Drawdown |"@);
    step_line(l, d3, "| Discipline | Consistency | Emotional Control | Max Daily Drawdown |"@);
    let d4 = add_line(e3, "| :---: | :---: | :---: | :---: |"@);
    step_line(l, e3, "| :---: | :---: | :---: | :---: |"@);
    let e4 = add_line(d4, score_line(x));
    step_line(l, d4, score_line(x));
    let d5 = add_blank(e4);
    step_blank(l, e4);
    let d6 = if x.detected_behaviors@.len() > 0 {
        add_blank(add_line(d5, behaviors_line(x)))
    } else {
        d5
    };
    if x.detected_behaviors@.len() > 0 {
        step_line(l, d5, behaviors_line(x));
        step_blank(l, add_line(d5, behaviors_line(x)));
    }
    step_ai(l, d6, "executive_summary"@, AI_SUMMARY@);
    lemma_close(d, h, sec_summary(d, x));
}

proof fn lemma_sec_performance(d: Seq<char>, x: ReportFigures)
    requires
        ends_nl(d),
    ensures
        section_ok(d, sec_performance(d, x), "## Performance"@),
        contains_text(sec_performance(d, x), placeholder_text("performance"@, AI_PERFORMANCE@)),
{
    let h = "## Performance"@;
    let l = add_line(d, h);
    lemma_heading(d, h);
    let d1 = add_blank(l);
    step_blank(l, l);
    let d2 = if x.downsampled {
        add_blank(add_line(d1, downsample_line(x)))
    } else {
        d1
    };
    if x.downsampled {
        step_line(l, d1, downsample_line(x));
        step_blank(l, add_line(d1, downsample_line(x)));
    }
    let d3 = add_chart(d2, "Equity Curve"@, equity_view(x));
    step_chart(l, d2, "Equity Curve"@, equity_view(x));
    let c4 = with_titles(line_view(sv(x.daily.labels), "Daily PnL"@, sv(x.daily.values)), "PnL"@, Some("Date"@));
    let d4 = add_chart(d3, "Daily PnL"@, c4);
    step_chart(l, d3, "Daily PnL"@, c4);
    let c5 = with_titles(bar_view(sv(x.weekly.labels), "Weekly PnL"@, sv(x.weekly.values)), "PnL"@, Some("Week"@));
    let d5 = add_chart(d4, "Weekly PnL"@, c5);
    step_chart(l, d4, "Weekly PnL"@, c5);
    let c6 = with_titles(bar_view(sv(x.monthly.labels), "Monthly PnL"@, sv(x.monthly.values)), "PnL"@, Some("Month"@));
    let d6 = add_chart(d5, "Monthly PnL"@, c6);
    step_chart(l, d5, "Monthly PnL"@, c6);
    let c7 = with_titles(bar_view(day_labels(), "Days"@, sv(x.day_counts)), "Days"@, None);
    let d7 = add_chart(d6, "Winning vs Losing Days"@, c7);
    step_chart(l, d6, "Winning vs Losing Days"@, c7);
    step_ai(l, d7, "performance"@, AI_PERFORMANCE@);
    lemma_close(d, h, sec_performance(d, x));
}

proof fn lemma_sec_risk(d: Seq<char>, x: ReportFigures)
    requires
        ends_nl(d),
    ensures
        section_ok(d, sec_risk(d, x), "## Risk"@),
        contains_text(sec_risk(d, x), placeholder_text("risk"@, AI_RISK@)),
{
    let h = "## Risk"@;
    let l = add_line(d, h);
    lemma_heading(d, h);
    let d1 = add_blank(l);
    step_blank(l, l);
    let d2 = add_chart(d1, "Drawdown"@, drawdown_view(x));
    step_chart(l, d1, "Drawdown"@, drawdown_view(x));
    let c3 = with_titles(ChartView { begin_at_zero: true, ..line_view(sv(x.risk.labels), "Risk"@, sv(x.risk.values)) }, "Risk"@, Some("Trade #"@));
    let d3 = if x.risk.labels@.len() == 0 {
        add_blank(add_line(add_blank(add_line(d2, "### Risk per Trade"@)), "_No risk data in this journal._"@))
    } else {
        add_chart(d2, "Risk per Trade"@, c3)
    };
    if x.risk.labels@.len() == 0 {
        let e1 = add_line(d2, "### Risk per Trade"@);
        step_line(l, d2, "### Risk per Trade"@);
        step_blank(l, e1);
        step_line(l, add_blank(e1), "_No risk data in this journal._"@);
        step_blank(l, add_line(add_blank(e1), "_No risk data in this journal._"@));
    } else {
        step_chart(l, d2, "Risk per Trade"@, c3);
    }
    let c4 = with_titles(line_view(sv(x.rolling_rr.labels), "Rolling RR (10 trades)"@, sv(x.rolling_rr.values)), "Realized RR"@, Some("Trade #"@));
    let d4 = if x.rolling_rr.labels@.len() == 0 {
        add_blank(add_line(add_blank(add_line(d3, "### Average RR Over Time"@)), "_No RR data in this journal._"@))
    } else {
        add_chart(d3, "Average RR Over Time"@, c4)
    };
    if x.rolling_rr.labels@.len() == 0 {
        let e2 = add_line(d3, "### Average RR Over Time"@);
        step_line(l, d3, "### Average RR Over Time"@);
        step_blank(l, e2);
        step_line(l, add_blank(e2), "_No RR data in this journal._"@);
        step_blank(l, add_line(add_blank(e2), "_No RR data in this journal._"@));
    } else {
        step_chart(l, d3, "Average RR Over Time"@, c4);
    }
    step_ai(l, d4, "risk"@, AI_RISK@);
    lemma_close(d, h, sec_risk(d, x));
}

proof fn lemma_sec_behavior(d: Seq<char>, x: ReportFigures)
    requires
        ends_nl(d),
    ensures
        section_ok(d, sec_behavior(d, x), "## Behavior"@),
        contains_text(sec_behavior(d, x), placeholder_text("behavior"@, AI_BEHAVIOR@)),
{
    let h = "## Behavior"@;
    let l = add_line(d, h);
    lemma_heading(d, h);
    let e0 = add_blank(l);
    step_blank(l, l);
    let e1 = add_line(e0, "| Pattern | Detected | Severity | Confidence |"@);
    step_line(l, e0, "| Pattern | Detected | Severity | Confidence |"@);
    let d1 = add_line(e1, "| --- | --- | --- | --- |"@);
    step_line(l, e1, "| --- | --- | --- | --- |"@);
    let fr = flag_rows(d1, x.flags@);
    step_flag_rows(l, d1, x.flags@);
    let d2 = add_blank(fr);
    step_blank(l, fr);
    let d3 = add_chart(d2, "Streaks"@, streak_view(x));
    step_chart(l, d2, "Streaks"@, streak_view(x));
    let hs = x.history;
    let f1 = opt_chart(d3, "Score Development"@, chart_opt(hs.scores));
    step_opt_chart(l, d3, "Score Development"@, chart_opt(hs.scores));
    let f2 = opt_chart(f1, "Win Rate History"@, chart_opt(hs.win_rate));
    step_opt_chart(l, f1, "Win Rate History"@, chart_opt(hs.win_rate));
    let f3 = opt_chart(f2, "Profit Factor History"@, chart_opt(hs.profit_factor));
    step_opt_chart(l, f2, "Profit Factor History"@, chart_opt(hs.profit_factor));
    let d4 = opt_chart(f3, "Average RR History"@, chart_opt(hs.average_rr));
    step_opt_chart(l, f3, "Average RR History"@, chart_opt(hs.average_rr));
    let d5 = if hs.scores is None {
        add_blank(add_line(d4, "_Development charts appear from the second analysis onward._"@))
    } else {
        d4
    };
    if hs.scores is None {
        step_line(l, d4, "_Development charts appear from the second analysis onward._"@);
        step_blank(l, add_line(d4, "_Development charts appear from the second analysis onward._"@));
    }
    step_ai(l, d5, "behavior"@, AI_BEHAVIOR@);
    lemma_close(d, h, sec_behavior(d, x));
}

proof fn lemma_sec_pairs(d: Seq<char>, x: ReportFigures)
    requires
        ends_nl(d),
    ensures
        section_ok(d, sec_pairs(d, x), "## Pair Performance"@),
        contains_text(sec_pairs(d, x), placeholder_text("pairs"@, AI_PAIRS@)),
{
    let h = "## Pair Performance"@;
    let l = add_line(d, h);
    lemma_heading(d, h);
    let d1 = add_blank(l);
    step_blank(l, l);
    step_rankings(l, d1, x.pair_pnl, x.pair_win_rate, x.pair_rr, x.pair_trades, "Pair"@);
    step_ai(l, rankings(d1, x.pair_pnl, x.pair_win_rate, x.pair_rr, x.pair_trades, "Pair"@), "pairs"@, AI_PAIRS@);
    lemma_close(d, h, sec_pairs(d, x));
}

proof fn lemma_sec_sessions(d: Seq<char>, x: ReportFigures)
    requires
        ends_nl(d),
    ensures
        section_ok(d, sec_sessions(d, x), "## Session Performance"@),
        x.sessions_available && x.session_keys@.len() > 0 ==> contains_text(sec_sessions(d, x), placeholder_text("sessions"@, AI_SESSIONS@)),
{
    let h = "## Session Performance"@;
    let l = add_line(d, h);
    lemma_heading(d, h);
    let d1 = add_blank(l);
    step_blank(l, l);
    if x.sessions_available && x.session_keys@.len() > 0 {
        let lb = session_labels(sv(x.session_keys));
        let c2 = with_titles(bar_view(lb, "PnL"@, sv(x.session_pnl)), "PnL"@, None);
        let d2 = add_chart(d1, "PnL per Session"@, c2);
        step_chart(l, d1, "PnL per Session"@, c2);
        let c3 = with_titles(bar_view(lb, "Win Rate %"@, sv(x.session_win_rate)), "Win rate %"@, None);
        let d3 = add_chart(d2, "Win Rate per Session"@, c3);
        step_chart(l, d2, "Win Rate per Session"@, c3);
        let c4 = with_titles(bar_view(session_labels(sv(x.session_rr.labels)), "Average RR"@, sv(x.session_rr.values)), "Average RR"@, None);
        let d4 = if x.session_rr.labels@.len() > 0 {
            add_chart(d3, "Average RR per Session"@, c4)
        } else {
            d3
        };
        if x.session_rr.labels@.len() > 0 {
            step_chart(l, d3, "Average RR per Session"@, c4);
        }
        step_ai(l, d4, "sessions"@, AI_SESSIONS@);
    } else {
        step_line(l, d1, "_No session or trade-time data in this journal._"@);
        step_blank(l, add_line(d1, "_No session or trade-time data in this journal._"@));
    }
    lemma_close(d, h, sec_sessions(d, x));
}

proof fn lemma_sec_strategies(d: Seq<char>, x: ReportFigures)
    requires
        ends_nl(d),
    ensures
        section_ok(d, sec_strategies(d, x), "## Strategy Performance"@),
        x.strategies_available ==> contains_text(sec_strategies(d, x), placeholder_text("strategies"@, AI_STRATEGIES@)),
{
    let h = "## Strategy Performance"@;
    let l = add_line(d, h);
    lemma_heading(d, h);
    let d1 = add_blank(l);
    step_blank(l, l);
    if x.strategies_available {
        step_rankings(l, d1, x.strategy_pnl, x.strategy_win_rate, x.strategy_rr, x.strategy_trades, "Strategy"@);
        step_ai(l, rankings(d1, x.strategy_pnl, x.strategy_win_rate, x.strategy_rr, x.strategy_trades, "Strategy"@), "strategies"@, AI_STRATEGIES@);
    } else {
        step_line(l, d1, "_No strategy data in this journal._"@);
        step_blank(l, add_line(d1, "_No strategy data in this journal._"@));
    }
    lemma_close(d, h, sec_strategies(d, x));
}

proof fn lemma_sec_historical(d: Seq<char>, x: ReportFigures)
    requires
        ends_nl(d),
    ensures
        section_ok(d, sec_historical(d, x), "## Historical Comparison"@),
        contains_text(sec_historical(d, x), placeholder_text("historical"@, AI_HISTORICAL@)),
{
    let h = "## Historical Comparison"@;
    let l = add_line(d, h);
    lemma_heading(d, h);
    let d1 = add_blank(l);
    step_blank(l, l);
    let d2 = if x.previous_analyses == 0 {
        add_blank(add_line(d1, "_First analysis on record — comparisons appear from the next analysis onward._"@))
    } else {
        let d3 = comparison_charts(d1, x.comparisons@);
        match x.deltas {
            Some(t) => delta_table(d3, t),
            None => d3,
        }
    };
    if x.previous_analyses == 0 {
        step_line(l, d1, "_First analysis on record — comparisons appear from the next analysis onward._"@);
        step_blank(l, add_line(d1, "_First analysis on record — comparisons appear from the next analysis onward._"@));
    } else {
        step_comparisons(l, d1, x.comparisons@);
        if let Some(t) = x.deltas {
            step_delta_table(l, comparison_charts(d1, x.comparisons@), t);
        }
    }
    step_ai(l, d2, "historical"@, AI_HISTORICAL@);
    lemma_close(d, h, sec_historical(d, x));
}

proof fn lemma_sec_coaching(d: Seq<char>)
    requires
        ends_nl(d),
    ensures
        section_ok(d, sec_coaching(d), "## AI Coaching"@),
        contains_text(sec_coaching(d), placeholder_text("coaching"@, AI_COACHING@)),
{
    let h = "## AI Coaching"@;
    let l = add_line(d, h);
    lemma_heading(d, h);
    step_blank(l, l);
    step_ai(l, add_blank(l), "coaching"@, AI_COACHING@);
    lemma_close(d, h, sec_coaching(d));
}

proof fn lemma_sec_action(d: Seq<char>)
    requires
        ends_nl(d),
    ensures
        section_ok(d, sec_action(d), "## Action Plan"@),
        contains_text(sec_action(d), placeholder_text("action_plan"@, AI_ACTION_PLAN@)),
{
    let h = "## Action Plan"@;
    let l = add_line(d, h);
    lemma_heading(d, h);
    step_blank(l, l);
    step_ai(l, add_blank(l), "action_plan"@, AI_ACTION_PLAN@);
    lemma_close(d, h, sec_action(d));
}

/// Section `k` (counted from 1) appended to `d`.
pub open spec fn next_section(d: Seq<char>, x: ReportFigures, stamp: Seq<char>, k: nat) -> Seq<char> {
    if k == 1 {
        sec_period(d, x, stamp)
    } else if k == 2 {
        sec_summary(d, x)
    } else if k == 3 {
        sec_performance(d, x)
    } else if k == 4 {
        sec_risk(d, x)
    } else if k == 5 {
        sec_behavior(d, x)
    } else if k == 6 {
        sec_pairs(d, x)
    } else if k == 7 {
        sec_sessions(d, x)
    } else if k == 8 {
        sec_strategies(d, x)
    } else if k == 9 {
        sec_historical(d, x)
    } else if k == 10 {
        sec_coaching(d)
    } else {
        sec_action(d)
    }
}

/// The dashboard up to and including its `k`-th section (the title alone
/// for 0).
pub open spec fn stage(x: ReportFigures, stamp: Seq<char>, k: nat) -> Seq<char>
    decreases k,
{
    if k == 0 {
        title_text()
    } else {
        next_section(stage(x, stamp, (k - 1) as nat), x, stamp, k)
    }
}

/// Name and instruction of the AI block closing section `k`.
pub open spec fn ai_block(k: nat) -> Seq<char> {
    if k == 2 {
        placeholder_text("executive_summary"@, AI_SUMMARY@)
    } else if k == 3 {
        placeholder_text("performance"@, AI_PERFORMANCE@)
    } else if k == 4 {
        placeholder_text("risk"@, AI_RISK@)
    } else if k == 5 {
        placeholder_text("behavior"@, AI_BEHAVIOR@)
    } else if k == 6 {
        placeholder_text("pairs"@, AI_PAIRS@)
    } else if k == 7 {
        placeholder_text("sessions"@, AI_SESSIONS@)
    } else if k == 8 {
        placeholder_text("strategies"@, AI_STRATEGIES@)
    } else if k == 9 {
        placeholder_text("historical"@, AI_HISTORICAL@)
    } else if k == 10 {
        placeholder_text("coaching"@, AI_COACHING@)
    } else {
        placeholder_text("action_plan"@, AI_ACTION_PLAN@)
    }
}

/// Section `k` carries an AI block: every section after the trading
/// period, sessions only with session data, strategies only with strategy
/// data.
pub open spec fn ai_shown(x: ReportFigures, k: nat) -> bool {
    if k == 7 {
        x.sessions_available && x.session_keys@.len() > 0
    } else if k == 8 {
        x.strategies_available
    } else {
        2 <= k <= 11
    }
}

proof fn lemma_next(d: Seq<char>, x: ReportFigures, stamp: Seq<char>, k: nat)
    requires
        ends_nl(d),
        1 <= k <= 11,
    ensures
        section_ok(d, next_section(d, x, stamp, k), section_headings()[k - 1]),
        ai_shown(x, k) ==> contains_text(next_section(d, x, stamp, k), ai_block(k)),
{
    if k == 1 {
        lemma_sec_period(d, x, stamp);
    } else if k == 2 {
        lemma_sec_summary(d, x);
    } else if k == 3 {
        lemma_sec_performance(d, x);
    } else if k == 4 {
        lemma_sec_risk(d, x);
    } else if k == 5 {
        lemma_sec_behavior(d, x);
    } else if k == 6 {
        lemma_sec_pairs(d, x);
    } else if k == 7 {
        lemma_sec_sessions(d, x);
    } else if k == 8 {
        lemma_sec_strategies(d, x);
    } else if k == 9 {
        lemma_sec_historical(d, x);
    } else if k == 10 {
        lemma_sec_coaching(d);
    } else {
        lemma_sec_action(d);
    }
}

proof fn lemma_stage(x: ReportFigures, stamp: Seq<char>, k: nat)
    requires
        k <= 11,
    ensures
        ends_nl(stage(x, stamp, k)),
        k >= 1 ==> section_ok(stage(x, stamp, (k - 1) as nat), stage(x, stamp, k), section_headings()[k - 1]),
        k >= 1 && ai_shown(x, k) ==> contains_text(stage(x, stamp, k), ai_block(k)),
    decreases k,
{
    if k == 0 {
        lemma_title();
    } else {
        lemma_stage(x, stamp, (k - 1) as nat);
        lemma_next(stage(x, stamp, (k - 1) as nat), x, stamp, k);
    }
}

proof fn lemma_stage_prefix(x: ReportFigures, stamp: Seq<char>, j: nat, k: nat)
    requires
        j <= k <= 11,
    ensures
        is_prefix(stage(x, stamp, j), stage(x, stamp, k)),
    decreases k,
{
    if j == k {
        lemma_refl(stage(x, stamp, k));
    } else {
        lemma_stage_prefix(x, stamp, j, (k - 1) as nat);
        lemma_stage(x, stamp, k);
        lemma_trans(stage(x, stamp, j), stage(x, stamp, (k - 1) as nat), stage(x, stamp, k));
    }
}

proof fn lemma_stage_report(x: ReportFigures, stamp: Seq<char>)
    ensures
        stage(x, stamp, 11) == report_text(x, stamp),
{
    reveal_with_fuel(stage, 12);
}

proof fn lemma_sessions_notice(d: Seq<char>, x: ReportFigures)
    requires
        !(x.sessions_available && x.session_keys@.len() > 0),
    ensures
        sec_sessions(d, x) == d + "## Session Performance\n\n_No session or trade-time data in this journal._\n\n"@,
{
    reveal_strlit("## Session Performance");
    reveal_strlit("_No session or trade-time data in this journal._");
    reveal_strlit("## Session Performance\n\n_No session or trade-time data in this journal._\n\n");
    assert(sec_sessions(d, x) =~= d + "## Session Performance\n\n_No session or trade-time data in this journal._\n\n"@);
}

proof fn lemma_strategies_notice(d: Seq<char>, x: ReportFigures)
    requires
        !x.strategies_available,
    ensures
        sec_strategies(d, x) == d + "## Strategy Performance\n\n_No strategy data in this journal._\n\n"@,
{
    reveal_strlit("## Strategy Performance");
    reveal_strlit("_No strategy data in this journal._");
    reveal_strlit("## Strategy Performance\n\n_No strategy data in this journal._\n\n");
    assert(sec_strategies(d, x) =~= d + "## Strategy Performance\n\n_No strategy data in this journal._\n\n"@);
}

/// The dashboard's sections come in their fixed, documented order: each
/// heading stands on a line of its own, at the positions returned, which
/// strictly increase.
pub proof fn law_sections_in_order(x: ReportFigures, stamp: Seq<char>) -> (p: Seq<int>)
    ensures
        p.len() == 11,
        forall|k: int| 0 <= k < 11 ==> occurs_at(report_text(x, stamp), heading_line(#[trigger] section_headings()[k]), p[k]),
        forall|k: int| 0 <= k < 10 ==> #[trigger] p[k] < p[k + 1],
{
    lemma_stage_report(x, stamp);
    let r = report_text(x, stamp);
    let p = Seq::new(11, |k: int| stage(x, stamp, k as nat).len() - 1);
    assert forall|k: int| 0 <= k < 11 implies occurs_at(r, heading_line(#[trigger] section_headings()[k]), p[k]) by {
        lemma_stage(x, stamp, (k + 1) as nat);
        lemma_stage_prefix(x, stamp, (k + 1) as nat, 11);
        lemma_occurs_prefix(stage(x, stamp, (k + 1) as nat), r, heading_line(section_headings()[k]), stage(x, stamp, k as nat).len() - 1);
    }
    assert forall|k: int| 0 <= k < 10 implies #[trigger] p[k] < p[k + 1] by {
        lemma_stage(x, stamp, (k + 1) as nat);
        lemma_stage(x, stamp, (k + 2) as nat);
    }
    p
}

/// Every section the AI layer completes carries its placeholder block in
/// the dashboard: summary, performance, risk, behavior, pairs, historical
/// comparison, coaching and action plan always; sessions whenever session
/// data exists, and strategies whenever strategy data exists. Without
/// that data those two sections are a fixed notice and hold no block.
pub proof fn law_ai_blocks(x: ReportFigures, stamp: Seq<char>)
    ensures
        contains_text(report_text(x, stamp), placeholder_text("executive_summary"@, AI_SUMMARY@)),
        contains_text(report_text(x, stamp), placeholder_text("performance"@, AI_PERFORMANCE@)),
        contains_text(report_text(x, stamp), placeholder_text("risk"@, AI_RISK@)),
        contains_text(report_text(x, stamp), placeholder_text("behavior"@, AI_BEHAVIOR@)),
        contains_text(report_text(x, stamp), placeholder_text("pairs"@, AI_PAIRS@)),
        x.sessions_available && x.session_keys@.len() > 0 ==> contains_text(report_text(x, stamp), placeholder_text("sessions"@, AI_SESSIONS@)),
        x.strategies_available ==> contains_text(report_text(x, stamp), placeholder_text("strategies"@, AI_STRATEGIES@)),
        contains_text(report_text(x, stamp), placeholder_text("historical"@, AI_HISTORICAL@)),
        contains_text(report_text(x, stamp), placeholder_text("coaching"@, AI_COACHING@)),
        contains_text(report_text(x, stamp), placeholder_text("action_plan"@, AI_ACTION_PLAN@)),
        !(x.sessions_available && x.session_keys@.len() > 0) ==> stage(x, stamp, 7) == stage(x, stamp, 6)
            + "## Session Performance\n\n_No session or trade-time data in this journal._\n\n"@,
        !x.strategies_available ==> stage(x, stamp, 8) == stage(x, stamp, 7)
            + "## Strategy Performance\n\n_No strategy data in this journal._\n\n"@,
{
    if !(x.sessions_available && x.session_keys@.len() > 0) {
        lemma_sessions_notice(stage(x, stamp, 6), x);
    }
    if !x.strategies_available {
        lemma_strategies_notice(stage(x, stamp, 7), x);
    }
    lemma_stage_report(x, stamp);
    let r = report_text(x, stamp);
    assert forall|k: nat| 2 <= k <= 11 && ai_shown(x, k) implies contains_text(r, #[trigger] ai_block(k)) by {
        lemma_stage(x, stamp, k);
        lemma_stage_prefix(x, stamp, k, 11);
        lemma_contains_prefix(stage(x, stamp, k), r, ai_block(k));
    }
    assert(ai_block(2) == placeholder_text("executive_summary"@, AI_SUMMARY@));
    assert(ai_block(3) == placeholder_text("performance"@, AI_PERFORMANCE@));
    assert(ai_block(4) == placeholder_text("risk"@, AI_RISK@));
    assert(ai_block(5) == placeholder_text("behavior"@, AI_BEHAVIOR@));
    assert(ai_block(6) == placeholder_text("pairs"@, AI_PAIRS@));
    assert(ai_block(7) == placeholder_text("sessions"@, AI_SESSIONS@));
    assert(ai_block(8) == placeholder_text("strategies"@, AI_STRATEGIES@));
    assert(ai_block(9) == placeholder_text("historical"@, AI_HISTORICAL@));
    assert(ai_block(10) == placeholder_text("coaching"@, AI_COACHING@));
    assert(ai_block(11) == placeholder_text("action_plan"@, AI_ACTION_PLAN@));
}

} // verus!
