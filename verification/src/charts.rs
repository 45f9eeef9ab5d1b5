//! Obsidian Charts plugin output: chart definitions rendered to fenced
//! ```chart blocks (YAML understood by the obsidian-charts plugin, which
//! drives Chart.js). Chart definitions are generated deterministically; the
//! numbers arrive already formatted as text.

use vstd::prelude::*;
use vstd::string::StringSliceAdditionalSpecFns;
use vstd::utf8::{decode_utf8, encode_utf8, is_char_boundary};
use crate::text::{chars_of, push_char, push_text, string_of, string_views};

verus! {

/// Chart.js chart type.
#[derive(Debug, Clone, Copy, PartialEq, Eq, Structural)]
pub enum ChartType {
    Line,
    Bar,
}

/// The YAML name of a chart type.
pub open spec fn chart_type_name(t: ChartType) -> Seq<char> {
    match t {
        ChartType::Line => "line"@,
        ChartType::Bar => "bar"@,
    }
}

impl ChartType {
    /// The YAML name of the chart type.
    pub fn label(&self) -> (r: &'static str)
        ensures
            r@ == chart_type_name(*self),
    {
        match self {
            ChartType::Line => "line",
            ChartType::Bar => "bar",
        }
    }
}

/// One character escaped for a double-quoted YAML scalar.
pub open spec fn escape_char(c: char) -> Seq<char> {
    if c == '\\' {
        seq!['\\', '\\']
    } else if c == '"' {
        seq!['\\', '"']
    } else {
        seq![c]
    }
}

/// Backslashes and double quotes escaped with a backslash.
pub open spec fn escaped(s: Seq<char>) -> Seq<char>
    decreases s.len(),
{
    if s.len() == 0 {
        s
    } else {
        escaped(s.drop_last()) + escape_char(s.last())
    }
}

/// A double-quoted YAML scalar.
pub open spec fn quoted(s: Seq<char>) -> Seq<char> {
    seq!['"'] + escaped(s) + seq!['"']
}

/// Quote a string as a double-quoted YAML scalar.
pub fn yaml_quote(s: &str) -> (r: String)
    ensures
        r@ == quoted(s@),
{
    let v = chars_of(s);
    let mut out = String::new();
    push_char(&mut out, '"');
    let mut i: usize = 0;
    while i < v.len()
        invariant
            i <= v@.len(),
            v@ == s@,
            out@ == seq!['"'] + escaped(v@.take(i as int)),
        decreases v@.len() - i,
    {
        assert(v@.take(i + 1).drop_last() =~= v@.take(i as int));
        let c = v[i];
        let ghost before = out@;
        if c == '\\' {
            push_char(&mut out, '\\');
            push_char(&mut out, '\\');
        } else if c == '"' {
            push_char(&mut out, '\\');
            push_char(&mut out, '"');
        } else {
            push_char(&mut out, c);
        }
        assert(out@ =~= before + escape_char(c));
        i = i + 1;
    }
    assert(v@.take(i as int) =~= v@);
    push_char(&mut out, '"');
    out
}

/// `s` with every `T` replaced by a space.
pub open spec fn t_to_space(s: Seq<char>) -> Seq<char> {
    s.map_values(|c: char| if c == 'T' { ' ' } else { c })
}

/// The short label of a snapshot timestamp: bytes 5 to 16 with `T` made a
/// space ("2026-07-05T11:08:55" gives "07-05 11:08"); shorter timestamps
/// are kept whole.
pub open spec fn snapshot_label_of(s: Seq<char>) -> Seq<char> {
    let b = encode_utf8(s);
    if b.len() >= 16 {
        t_to_space(decode_utf8(b.subrange(5, 16)))
    } else {
        s
    }
}

/// Short label for a snapshot timestamp: "2026-07-05T11:08:55" -> "07-05 11:08".
pub fn snapshot_label(generated_at: &str) -> (r: String)
    requires
        generated_at.spec_bytes().len() >= 16 ==> is_char_boundary(generated_at.spec_bytes(), 5)
            && is_char_boundary(generated_at.spec_bytes(), 16),
    ensures
        r@ == snapshot_label_of(generated_at@),
{
    proof {
        vstd::utf8::encode_utf8_valid_utf8(generated_at@);
    }
    let byte_len = generated_at.as_bytes().len();
    if byte_len >= 16 {
        let (_, tail) = generated_at.split_at(5);
        let ghost b = generated_at.spec_bytes();
        assert(tail.spec_bytes() =~= b.subrange(5, b.len() as int));
        assert(is_char_boundary(tail.spec_bytes(), 11)) by {
            lemma_boundary_shift(b, 5, 16);
        }
        let (mid, _) = tail.split_at(11);
        assert(mid.spec_bytes() =~= b.subrange(5, 16));
        proof {
            vstd::utf8::encode_utf8_decode_utf8(mid@);
        }
        let v = chars_of(mid);
        let mut out: Vec<char> = Vec::new();
        let mut i: usize = 0;
        while i < v.len()
            invariant
                i <= v@.len(),
                out@ =~= t_to_space(v@.take(i as int)),
            decreases v@.len() - i,
        {
            let c = v[i];
            out.push(if c == 'T' {
                ' '
            } else {
                c
            });
            i = i + 1;
            assert(out@ =~= t_to_space(v@.take(i as int)));
        }
        assert(v@.take(i as int) =~= v@);
        string_of(out.as_slice())
    } else {
        string_of(chars_of(generated_at).as_slice())
    }
}

proof fn lemma_boundary_shift(b: Seq<u8>, start: int, index: int)
    requires
        vstd::utf8::valid_utf8(b),
        0 <= start <= index <= b.len(),
        is_char_boundary(b, start),
        is_char_boundary(b, index),
    ensures
        is_char_boundary(b.subrange(start, b.len() as int), index - start),
{
    let t = b.subrange(start, b.len() as int);
    vstd::utf8::valid_utf8_split(b, start);
    assert(vstd::utf8::valid_utf8(t));
    vstd::utf8::is_char_boundary_start_end_of_seq(t);
    if index - start > 0 && index - start < t.len() {
        vstd::utf8::is_char_boundary_iff_not_is_continuation_byte(b, index);
        vstd::utf8::is_char_boundary_iff_not_is_continuation_byte(t, index - start);
        assert(t[index - start] == b[index]);
    } else if index - start == t.len() {
        assert(t.len() == index - start);
    }
}

/// One data series: a title and its values, already formatted.
pub struct Series {
    pub title: String,
    pub data: Vec<String>,
}

impl Series {
    /// A series with a title and formatted values.
    pub fn new(title: &str, data: Vec<String>) -> (r: Series)
        ensures
            r.title@ == title@,
            string_views(r.data@) == string_views(data@),
    {
        Series { title: string_of(chars_of(title).as_slice()), data }
    }
}

/// The mathematical content of a chart definition.
pub struct ChartView {
    pub kind: ChartType,
    pub labels: Seq<Seq<char>>,
    /// (title, formatted values) per series.
    pub series: Seq<(Seq<char>, Seq<Seq<char>>)>,
    pub horizontal: bool,
    pub begin_at_zero: bool,
    pub fill: bool,
    pub tension: Seq<char>,
    pub legend: bool,
    pub y_title: Option<Seq<char>>,
    pub x_title: Option<Seq<char>>,
    pub width: Option<Seq<char>>,
}

/// The views of data series.
pub open spec fn series_views(s: Seq<Series>) -> Seq<(Seq<char>, Seq<Seq<char>>)> {
    s.map_values(|x: Series| (x.title@, string_views(x.data@)))
}

/// A deterministic chart definition, rendered to obsidian-charts YAML.
pub struct ChartSpec {
    chart_type: ChartType,
    labels: Vec<String>,
    series: Vec<Series>,
    /// `indexAxis: y`: horizontal bars.
    horizontal: bool,
    begin_at_zero: bool,
    fill: bool,
    tension: String,
    legend: bool,
    y_title: Option<String>,
    x_title: Option<String>,
    width: Option<String>,
}

impl View for ChartSpec {
    type V = ChartView;

    closed spec fn view(&self) -> ChartView {
        ChartView {
            kind: self.chart_type,
            labels: string_views(self.labels@),
            series: series_views(self.series@),
            horizontal: self.horizontal,
            begin_at_zero: self.begin_at_zero,
            fill: self.fill,
            tension: self.tension@,
            legend: self.legend,
            y_title: crate::config::opt_view(self.y_title),
            x_title: crate::config::opt_view(self.x_title),
            width: crate::config::opt_view(self.width),
        }
    }
}

/// The items joined with a separator.
pub open spec fn joined(items: Seq<Seq<char>>, sep: Seq<char>) -> Seq<char>
    decreases items.len(),
{
    if items.len() == 0 {
        Seq::empty()
    } else if items.len() == 1 {
        items[0]
    } else {
        joined(items.drop_last(), sep) + sep + items.last()
    }
}

/// The YAML lines of the series.
pub open spec fn series_text(series: Seq<(Seq<char>, Seq<Seq<char>>)>) -> Seq<char>
    decreases series.len(),
{
    if series.len() == 0 {
        Seq::empty()
    } else {
        let s = series.last();
        series_text(series.drop_last()) + "  - title: "@ + quoted(s.0) + "\n"@ + "    data: ["@
            + joined(s.1, ", "@) + "]\n"@
    }
}

/// `true` or `false`.
pub open spec fn bool_text(b: bool) -> Seq<char> {
    if b {
        "true"@
    } else {
        "false"@
    }
}

/// An optional `key: "value"` line.
pub open spec fn optional_line(key: Seq<char>, v: Option<Seq<char>>) -> Seq<char> {
    match v {
        Some(t) => key + ": "@ + quoted(t) + "\n"@,
        None => Seq::empty(),
    }
}

/// The fenced ```chart block of a chart definition.
pub open spec fn chart_block(c: ChartView) -> Seq<char> {
    "```chart\n"@ + "type: "@ + chart_type_name(c.kind) + "\n"@ + "labels: ["@ + joined(
        c.labels.map_values(|l: Seq<char>| quoted(l)),
        ", "@,
    ) + "]\n"@ + "series:\n"@ + series_text(c.series) + (if c.horizontal {
        "indexAxis: y\n"@
    } else {
        Seq::empty()
    }) + "tension: "@ + c.tension + "\n"@ + "fill: "@ + bool_text(c.fill) + "\n"@
        + "beginAtZero: "@ + bool_text(c.begin_at_zero) + "\n"@ + "legend: "@ + bool_text(c.legend)
        + "\n"@ + "labelColors: false\n"@ + optional_line("yTitle"@, c.y_title) + optional_line(
        "xTitle"@,
        c.x_title,
    ) + optional_line("width"@, c.width) + "```\n"@
}

impl ChartSpec {
    /// A line chart; the legend shows when there is more than one series.
    pub fn line(labels: Vec<String>, series: Vec<Series>) -> (r: ChartSpec)
        ensures
            r@ == (ChartView {
                kind: ChartType::Line,
                labels: string_views(labels@),
                series: series_views(series@),
                horizontal: false,
                begin_at_zero: false,
                fill: false,
                tension: "0.2"@,
                legend: series@.len() > 1,
                y_title: None,
                x_title: None,
                width: None,
            }),
    {
        let legend = series.len() > 1;
        ChartSpec {
            chart_type: ChartType::Line,
            labels,
            series,
            horizontal: false,
            begin_at_zero: false,
            fill: false,
            tension: string_of(chars_of("0.2").as_slice()),
            legend,
            y_title: None,
            x_title: None,
            width: None,
        }
    }

    /// A vertical bar chart starting at zero; the legend shows when there is
    /// more than one series.
    pub fn bar(labels: Vec<String>, series: Vec<Series>) -> (r: ChartSpec)
        ensures
            r@ == (ChartView {
                kind: ChartType::Bar,
                labels: string_views(labels@),
                series: series_views(series@),
                horizontal: false,
                begin_at_zero: true,
                fill: false,
                tension: "0"@,
                legend: series@.len() > 1,
                y_title: None,
                x_title: None,
                width: None,
            }),
    {
        let legend = series.len() > 1;
        ChartSpec {
            chart_type: ChartType::Bar,
            labels,
            series,
            horizontal: false,
            begin_at_zero: true,
            fill: false,
            tension: string_of(chars_of("0").as_slice()),
            legend,
            y_title: None,
            x_title: None,
            width: None,
        }
    }

    /// Horizontal bar chart, used for per-pair / per-strategy rankings.
    pub fn horizontal_bar(labels: Vec<String>, series: Vec<Series>) -> (r: ChartSpec)
        ensures
            r@ == (ChartView {
                kind: ChartType::Bar,
                labels: string_views(labels@),
                series: series_views(series@),
                horizontal: true,
                begin_at_zero: true,
                fill: false,
                tension: "0"@,
                legend: series@.len() > 1,
                y_title: None,
                x_title: None,
                width: None,
            }),
    {
        let mut c = ChartSpec::bar(labels, series);
        c.horizontal = true;
        c
    }

    /// The same chart with a y-axis title.
    pub fn y_title(self, title: &str) -> (r: ChartSpec)
        ensures
            r@ == (ChartView { y_title: Some(title@), ..self@ }),
    {
        let mut c = self;
        c.y_title = Some(string_of(chars_of(title).as_slice()));
        c
    }

    /// The same chart with an x-axis title.
    pub fn x_title(self, title: &str) -> (r: ChartSpec)
        ensures
            r@ == (ChartView { x_title: Some(title@), ..self@ }),
    {
        let mut c = self;
        c.x_title = Some(string_of(chars_of(title).as_slice()));
        c
    }

    /// The same chart, starting the value axis at zero or not.
    pub fn begin_at_zero(self, v: bool) -> (r: ChartSpec)
        ensures
            r@ == (ChartView { begin_at_zero: v, ..self@ }),
    {
        let mut c = self;
        c.begin_at_zero = v;
        c
    }

    /// The same chart, filling the area under lines or not.
    pub fn fill(self, v: bool) -> (r: ChartSpec)
        ensures
            r@ == (ChartView { fill: v, ..self@ }),
    {
        let mut c = self;
        c.fill = v;
        c
    }

    /// The same chart with a display width (e.g. "60%").
    pub fn width(self, w: &str) -> (r: ChartSpec)
        ensures
            r@ == (ChartView { width: Some(w@), ..self@ }),
    {
        let mut c = self;
        c.width = Some(string_of(chars_of(w).as_slice()));
        c
    }

    /// Render the fenced ```chart block.
    pub fn render(&self) -> (r: String)
        ensures
            r@ == chart_block(self@),
    {
        let ghost c = self@;
        let mut out = String::new();
        push_text(&mut out, "```chart\n");
        push_text(&mut out, "type: ");
        push_text(&mut out, self.chart_type.label());
        push_text(&mut out, "\n");
        push_text(&mut out, "labels: [");
        push_quoted_list(&mut out, &self.labels);
        push_text(&mut out, "]\n");
        push_text(&mut out, "series:\n");
        let ghost head = out@;
        let mut i: usize = 0;
        while i < self.series.len()
            invariant
                i <= self.series@.len(),
                c == self@,
                out@ == head + series_text(c.series.take(i as int)),
            decreases self.series@.len() - i,
        {
            let ghost before = out@;
            assert(c.series.take(i + 1).drop_last() =~= c.series.take(i as int));
            assert(c.series.take(i + 1).last() == (self.series@[i as int].title@, string_views(self.series@[i as int].data@)));
            let s = &self.series[i];
            push_text(&mut out, "  - title: ");
            let q = yaml_quote(s.title.as_str());
            push_text(&mut out, q.as_str());
            push_text(&mut out, "\n");
            push_text(&mut out, "    data: [");
            push_list(&mut out, &s.data);
            push_text(&mut out, "]\n");
            proof {
                reveal_strlit("  - title: ");
                reveal_strlit("\n");
                reveal_strlit("    data: [");
                reveal_strlit("]\n");
            }
            assert(out@ =~= head + series_text(c.series.take(i + 1)));
            i = i + 1;
        }
        assert(c.series.take(i as int) =~= c.series);
        if self.horizontal {
            push_text(&mut out, "indexAxis: y\n");
        }
        push_text(&mut out, "tension: ");
        push_text(&mut out, self.tension.as_str());
        push_text(&mut out, "\n");
        push_text(&mut out, "fill: ");
        push_text(&mut out, bool_word(self.fill));
        push_text(&mut out, "\n");
        push_text(&mut out, "beginAtZero: ");
        push_text(&mut out, bool_word(self.begin_at_zero));
        push_text(&mut out, "\n");
        push_text(&mut out, "legend: ");
        push_text(&mut out, bool_word(self.legend));
        push_text(&mut out, "\n");
        push_text(&mut out, "labelColors: false\n");
        push_optional(&mut out, "yTitle", &self.y_title);
        push_optional(&mut out, "xTitle", &self.x_title);
        push_optional(&mut out, "width", &self.width);
        push_text(&mut out, "```\n");
        assert(out@ =~= chart_block(c));
        out
    }
}

fn bool_word(b: bool) -> (r: &'static str)
    ensures
        r@ == bool_text(b),
{
    if b {
        "true"
    } else {
        "false"
    }
}

fn push_optional(out: &mut String, key: &str, v: &Option<String>)
    ensures
        final(out)@ == old(out)@ + optional_line(key@, crate::config::opt_view(*v)),
{
    match v {
        Some(t) => {
            let ghost start = out@;
            push_text(out, key);
            push_text(out, ": ");
            let q = yaml_quote(t.as_str());
            push_text(out, q.as_str());
            push_text(out, "\n");
            assert(out@ =~= start + (key@ + ": "@ + quoted(t@) + "\n"@));
        },
        None => {
            assert(old(out)@ + Seq::<char>::empty() =~= old(out)@);
        },
    }
}

fn push_list(out: &mut String, items: &Vec<String>)
    ensures
        final(out)@ == old(out)@ + joined(string_views(items@), ", "@),
{
    let ghost start = out@;
    let ghost iv = string_views(items@);
    let mut i: usize = 0;
    while i < items.len()
        invariant
            i <= items@.len(),
            iv == string_views(items@),
            out@ == start + joined(iv.take(i as int), ", "@),
        decreases items@.len() - i,
    {
        assert(iv.take(i + 1).drop_last() =~= iv.take(i as int));
        assert(iv.take(i + 1).last() == items@[i as int]@);
        let ghost before = out@;
        if i > 0 {
            push_text(out, ", ");
        }
        push_text(out, items[i].as_str());
        if i == 0 {
            assert(iv.take(1) =~= seq![iv[0]]);
        }
        assert(out@ =~= start + joined(iv.take(i + 1), ", "@));
        i = i + 1;
    }
    assert(iv.take(i as int) =~= iv);
}

fn push_quoted_list(out: &mut String, items: &Vec<String>)
    ensures
        final(out)@ == old(out)@ + joined(string_views(items@).map_values(|l: Seq<char>| quoted(l)), ", "@),
{
    let ghost start = out@;
    let ghost qv = string_views(items@).map_values(|l: Seq<char>| quoted(l));
    let mut i: usize = 0;
    while i < items.len()
        invariant
            i <= items@.len(),
            qv == string_views(items@).map_values(|l: Seq<char>| quoted(l)),
            out@ == start + joined(qv.take(i as int), ", "@),
        decreases items@.len() - i,
    {
        assert(qv.take(i + 1).drop_last() =~= qv.take(i as int));
        assert(qv.take(i + 1).last() == quoted(items@[i as int]@));
        let q = yaml_quote(items[i].as_str());
        if i > 0 {
            push_text(out, ", ");
        }
        push_text(out, q.as_str());
        if i == 0 {
            assert(qv.take(1) =~= seq![qv[0]]);
        }
        assert(out@ =~= start + joined(qv.take(i + 1), ", "@));
        i = i + 1;
    }
    assert(qv.take(i as int) =~= qv);
}

/// A chart view with the given kind and data and every option at its
/// constructor's value: a line chart (tension 0.2) or a bar chart starting
/// at zero (tension 0), horizontal or not; the legend shows with more than
/// one series.
pub open spec fn base_view(kind: ChartType, horizontal: bool, labels: Seq<Seq<char>>, series: Seq<(Seq<char>, Seq<Seq<char>>)>) -> ChartView {
    ChartView {
        kind,
        labels,
        series,
        horizontal,
        begin_at_zero: kind == ChartType::Bar,
        fill: false,
        tension: if kind == ChartType::Line {
            "0.2"@
        } else {
            "0"@
        },
        legend: series.len() > 1,
        y_title: None,
        x_title: None,
        width: None,
    }
}

/// A list holding one series.
pub fn one_series(title: &str, data: &Vec<String>) -> (r: Vec<Series>)
    ensures
        series_views(r@) == seq![(title@, string_views(data@))],
{
    let mut v: Vec<Series> = Vec::new();
    v.push(Series::new(title, crate::parser::table::copy_strings(data)));
    assert(series_views(v@) =~= seq![(title@, string_views(data@))]);
    v
}

/// A chart of one kind over labels and series, with every option at its
/// constructor's value.
pub fn chart_of(kind: ChartType, horizontal: bool, labels: &Vec<String>, series: Vec<Series>) -> (r: ChartSpec)
    requires
        horizontal ==> kind == ChartType::Bar,
    ensures
        r@ == base_view(kind, horizontal, string_views(labels@), series_views(series@)),
{
    let l = crate::parser::table::copy_strings(labels);
    match kind {
        ChartType::Line => ChartSpec::line(l, series),
        ChartType::Bar => if horizontal {
            ChartSpec::horizontal_bar(l, series)
        } else {
            ChartSpec::bar(l, series)
        },
    }
}

/// The figures of the analysis history, one entry per snapshot, already
/// formatted; `None` where a snapshot has no value.
pub struct SnapshotColumns {
    pub discipline: Vec<String>,
    pub consistency: Vec<String>,
    pub emotional_control: Vec<String>,
    pub win_rate: Vec<String>,
    pub profit_factor: Vec<Option<String>>,
    pub average_rr: Vec<Option<String>>,
    pub average_weekly_pnl: Vec<String>,
    pub average_monthly_pnl: Vec<String>,
    pub max_daily_drawdown: Vec<String>,
    pub total_pnl: Vec<String>,
}

/// Charts over the analysis history; every field is `None` until at least
/// two snapshots exist.
pub struct SnapshotCharts {
    pub scores: Option<ChartSpec>,
    pub win_rate: Option<ChartSpec>,
    pub profit_factor: Option<ChartSpec>,
    pub average_rr: Option<ChartSpec>,
    pub weekly_pnl: Option<ChartSpec>,
    pub monthly_pnl: Option<ChartSpec>,
    pub max_drawdown: Option<ChartSpec>,
    pub total_pnl: Option<ChartSpec>,
}

/// The view of an optional chart.
pub open spec fn chart_opt(c: Option<ChartSpec>) -> Option<ChartView> {
    match c {
        Some(x) => Some(x@),
        None => None,
    }
}

/// A history line chart: one series over the snapshot labels, titled on
/// both axes.
pub open spec fn history_line(labels: Seq<Seq<char>>, title: Seq<char>, data: Seq<Seq<char>>, y: Seq<char>) -> ChartView {
    ChartView {
        y_title: Some(y),
        x_title: Some("Analysis"@),
        ..base_view(ChartType::Line, false, labels, seq![(title, data)])
    }
}

/// Every snapshot has a value.
pub open spec fn all_present(v: Seq<Option<String>>) -> bool {
    forall|i: int| 0 <= i < v.len() ==> #[trigger] v[i] is Some
}

/// The values of a column where every snapshot has one.
pub open spec fn present_values(v: Seq<Option<String>>) -> Seq<Seq<char>> {
    v.map_values(|o: Option<String>| match o {
        Some(s) => s@,
        None => Seq::empty(),
    })
}

/// The score development chart.
pub open spec fn scores_view(labels: Seq<Seq<char>>, c: SnapshotColumns) -> ChartView {
    ChartView {
        y_title: Some("Score (0-100)"@),
        x_title: Some("Analysis"@),
        begin_at_zero: true,
        ..base_view(
            ChartType::Line,
            false,
            labels,
            seq![
                ("Discipline"@, string_views(c.discipline@)),
                ("Consistency"@, string_views(c.consistency@)),
                ("Emotional Control"@, string_views(c.emotional_control@)),
            ],
        )
    }
}

fn history_chart(labels: &Vec<String>, title: &str, data: &Vec<String>, y: &str) -> (r: ChartSpec)
    ensures
        r@ == history_line(string_views(labels@), title@, string_views(data@), y@),
{
    chart_of(ChartType::Line, false, labels, one_series(title, data)).y_title(y).x_title("Analysis")
}

/// The values of a column when every snapshot has one.
fn all_values(v: &Vec<Option<String>>) -> (r: Option<Vec<String>>)
    ensures
        r is Some <==> all_present(v@),
        r matches Some(x) ==> string_views(x@) == present_values(v@),
{
    let mut out: Vec<String> = Vec::new();
    let mut i: usize = 0;
    while i < v.len()
        invariant
            i <= v@.len(),
            forall|k: int| 0 <= k < i ==> #[trigger] v@[k] is Some,
            string_views(out@) =~= present_values(v@).take(i as int),
        decreases v@.len() - i,
    {
        match &v[i] {
            Some(s) => {
                let ghost before = string_views(out@);
                out.push(string_of(chars_of(s.as_str()).as_slice()));
                assert(string_views(out@) =~= before.push(s@));
            },
            None => {
                return None;
            },
        }
        i = i + 1;
    }
    assert(present_values(v@).take(i as int) =~= present_values(v@));
    Some(out)
}

/// Build the historical development charts: nothing below two snapshots (a
/// one-point line is noise, not signal); the profit-factor and average-RR
/// charts only when every snapshot has the value, since gaps would
/// misalign the labels.
pub fn snapshot_charts(labels: &Vec<String>, cols: &SnapshotColumns) -> (r: SnapshotCharts)
    ensures
        labels@.len() < 2 ==> r.scores is None && r.win_rate is None && r.profit_factor is None
            && r.average_rr is None && r.weekly_pnl is None && r.monthly_pnl is None && r.max_drawdown is None
            && r.total_pnl is None,
        labels@.len() >= 2 ==> {
            let l = string_views(labels@);
            &&& chart_opt(r.scores) == Some(scores_view(l, *cols))
            &&& chart_opt(r.win_rate) == Some(history_line(l, "Win Rate %"@, string_views(cols.win_rate@), "Win rate %"@))
            &&& (r.profit_factor is Some <==> all_present(cols.profit_factor@))
            &&& (all_present(cols.profit_factor@) ==> chart_opt(r.profit_factor) == Some(history_line(l, "Profit Factor"@, present_values(cols.profit_factor@), "Profit factor"@)))
            &&& (r.average_rr is Some <==> all_present(cols.average_rr@))
            &&& (all_present(cols.average_rr@) ==> chart_opt(r.average_rr) == Some(history_line(l, "Average RR"@, present_values(cols.average_rr@), "Average RR"@)))
            &&& chart_opt(r.weekly_pnl) == Some(history_line(l, "Avg Weekly PnL"@, string_views(cols.average_weekly_pnl@), "PnL"@))
            &&& chart_opt(r.monthly_pnl) == Some(history_line(l, "Avg Monthly PnL"@, string_views(cols.average_monthly_pnl@), "PnL"@))
            &&& chart_opt(r.max_drawdown) == Some(history_line(l, "Max Daily Drawdown"@, string_views(cols.max_daily_drawdown@), "Drawdown"@))
            &&& chart_opt(r.total_pnl) == Some(history_line(l, "Total PnL"@, string_views(cols.total_pnl@), "PnL"@))
        },
{
    if labels.len() < 2 {
        return SnapshotCharts {
            scores: None,
            win_rate: None,
            profit_factor: None,
            average_rr: None,
            weekly_pnl: None,
            monthly_pnl: None,
            max_drawdown: None,
            total_pnl: None,
        };
    }
    let mut series: Vec<Series> = Vec::new();
    series.push(Series::new("Discipline", crate::parser::table::copy_strings(&cols.discipline)));
    series.push(Series::new("Consistency", crate::parser::table::copy_strings(&cols.consistency)));
    series.push(Series::new("Emotional Control", crate::parser::table::copy_strings(&cols.emotional_control)));
    assert(series_views(series@) =~= seq![
        ("Discipline"@, string_views(cols.discipline@)),
        ("Consistency"@, string_views(cols.consistency@)),
        ("Emotional Control"@, string_views(cols.emotional_control@)),
    ]);
    let scores = chart_of(ChartType::Line, false, labels, series).y_title("Score (0-100)").x_title("Analysis").begin_at_zero(true);
    let profit_factor = match all_values(&cols.profit_factor) {
        Some(v) => Some(history_chart(labels, "Profit Factor", &v, "Profit factor")),
        None => None,
    };
    let average_rr = match all_values(&cols.average_rr) {
        Some(v) => Some(history_chart(labels, "Average RR", &v, "Average RR")),
        None => None,
    };
    SnapshotCharts {
        scores: Some(scores),
        win_rate: Some(history_chart(labels, "Win Rate %", &cols.win_rate, "Win rate %")),
        profit_factor,
        average_rr,
        weekly_pnl: Some(history_chart(labels, "Avg Weekly PnL", &cols.average_weekly_pnl, "PnL")),
        monthly_pnl: Some(history_chart(labels, "Avg Monthly PnL", &cols.average_monthly_pnl, "PnL")),
        max_drawdown: Some(history_chart(labels, "Max Daily Drawdown", &cols.max_daily_drawdown, "Drawdown")),
        total_pnl: Some(history_chart(labels, "Total PnL", &cols.total_pnl, "PnL")),
    }
}

} // verus!
