//! From a read table to validated trade rows: column mapping, date format
//! and decimal separator detection, row conversion with skipped rows
//! reported, never a hard failure.

use vstd::prelude::*;
use crate::config::{opt_view, CsvConfig};
use crate::parser::columns::{
    column_samples, header_mapping, map_error_view, map_headers, rows_view, sample_column, used,
    MapError,
};
use crate::parser::dates::{candidate_counts, date_format_choice, detect_date_format, format_candidates};
use crate::parser::fields::{all_fields, field_name, Field};
use crate::parser::rows::{
    build_row, decimal_choice, detect_decimal_separator, problem_of, row_outcome, RowError,
    RowProblem, RowView, TradeRow,
};
use crate::parser::table::{encoding_name, first_char, first_char_of, Table};
use crate::text::{chars_of, string_of, string_views, views};

verus! {

/// At most this many skipped rows are reported individually.
pub const MAX_ROW_WARNINGS: usize = 50;

/// Number of date cells sampled for date format detection.
pub const DATE_SAMPLES: usize = 200;

/// What auto-detection concluded about the file format.
pub struct DetectedFormat {
    pub delimiter: char,
    pub encoding: &'static str,
    pub date_format: String,
    pub decimal_separator: char,
    /// (header name, canonical field) for every mapped field, in field order.
    pub mapped_headers: Vec<(String, &'static str)>,
    /// The headers no field is mapped to, in column order.
    pub unmapped_headers: Vec<String>,
}

/// Why a table could not be parsed at all.
#[derive(Debug)]
pub enum ParseError {
    /// No usable column mapping (see [`MapError`]).
    Mapping(MapError),
    /// No date format was configured and none fits the date column.
    NoDateFormat,
}

/// The rows of a parsed table: the trade rows, the first skipped rows with
/// their (0-based) row number and reason, and how many rows were skipped.
pub struct ParsedTable {
    pub rows: Vec<TradeRow>,
    pub problems: Vec<(usize, RowError)>,
    pub skipped_rows: usize,
    pub detected: DetectedFormat,
}

impl ParsedTable {
    /// How many skipped rows go beyond the listed problems (`None` when
    /// every skipped row is listed).
    pub fn unlisted_skipped(&self) -> (r: Option<usize>)
        ensures
            r == (if self.skipped_rows > MAX_ROW_WARNINGS {
                Some((self.skipped_rows - MAX_ROW_WARNINGS) as usize)
            } else {
                None
            }),
    {
        if self.skipped_rows > MAX_ROW_WARNINGS {
            Some(self.skipped_rows - MAX_ROW_WARNINGS)
        } else {
            None
        }
    }
}

/// The views of trade rows.
pub open spec fn row_views(v: Seq<TradeRow>) -> Seq<RowView> {
    v.map_values(|t: TradeRow| t@)
}

/// The views of numbered row problems.
pub open spec fn problem_views(v: Seq<(usize, RowError)>) -> Seq<(int, RowProblem)> {
    v.map_values(|p: (usize, RowError)| (p.0 as int, problem_of(p.1)))
}

/// Converting the first `n` rows: the trade rows, the first
/// [`MAX_ROW_WARNINGS`] problems, and the number of skipped rows.
pub open spec fn tally(
    rows: Seq<Seq<Seq<char>>>,
    m: Seq<Option<int>>,
    fmt: Seq<char>,
    sep: char,
    n: nat,
) -> (Seq<RowView>, Seq<(int, RowProblem)>, nat)
    decreases n,
{
    if n == 0 {
        (Seq::empty(), Seq::empty(), 0)
    } else {
        let p = tally(rows, m, fmt, sep, (n - 1) as nat);
        match row_outcome(n - 1, rows[n - 1], m, fmt, sep) {
            Ok(v) => (p.0.push(v), p.1, p.2),
            Err(e) => (p.0, if p.1.len() < 50 {
                p.1.push((n - 1, e))
            } else {
                p.1
            }, p.2 + 1),
        }
    }
}

/// The date format of a table: the configured one, else the detected one
/// from the first 200 non-empty date cells.
pub open spec fn date_format_of(
    rows: Seq<Seq<Seq<char>>>,
    date_col: int,
    configured: Option<Seq<char>>,
    prefer_day_first: bool,
) -> Option<Seq<char>> {
    match configured {
        Some(f) => Some(f),
        None => {
            let samples = column_samples(rows, date_col, 200);
            match date_format_choice(candidate_counts(samples, prefer_day_first), samples.len() as int) {
                Some(j) => Some(format_candidates(prefer_day_first)[j]),
                None => None,
            }
        },
    }
}

/// (header, field name) for each mapped field among the first `n`.
pub open spec fn mapped_list(headers: Seq<Seq<char>>, m: Seq<Option<int>>, n: nat) -> Seq<(Seq<char>, Seq<char>)>
    decreases n,
{
    if n == 0 {
        Seq::empty()
    } else {
        let p = mapped_list(headers, m, (n - 1) as nat);
        match m[n - 1] {
            Some(i) => p.push((headers[i], field_name(all_fields()[n - 1]))),
            None => p,
        }
    }
}

/// The headers among the first `n` that no field is mapped to.
pub open spec fn unmapped_list(headers: Seq<Seq<char>>, m: Seq<Option<int>>, n: nat) -> Seq<Seq<char>>
    decreases n,
{
    if n == 0 {
        Seq::empty()
    } else {
        let p = unmapped_list(headers, m, (n - 1) as nat);
        if used(m, n - 1) {
            p
        } else {
            p.push(headers[n - 1])
        }
    }
}

/// The views of (header, field name) pairs.
pub open spec fn pair_views(v: Seq<(String, &'static str)>) -> Seq<(Seq<char>, Seq<char>)> {
    v.map_values(|p: (String, &'static str)| (p.0@, p.1@))
}

/// The (header, field name) pairs of a field map.
fn mapped_headers(headers: &[String], map: &crate::parser::columns::FieldMap) -> (r: Vec<(String, &'static str)>)
    requires
        map.columns() == headers@.len(),
    ensures
        pair_views(r@) == mapped_list(string_views(headers@), map@, 15),
{
    let ghost hv = string_views(headers@);
    let fields = Field::all();
    let mut out: Vec<(String, &'static str)> = Vec::new();
    let mut f: usize = 0;
    while f < fields.len()
        invariant
            f <= 15,
            fields@ == all_fields(),
            hv == string_views(headers@),
            map.columns() == headers@.len(),
            pair_views(out@) =~= mapped_list(hv, map@, f as nat),
        decreases 15 - f,
    {
        let field = fields[f];
        let c = map.column(field);
        assert(((f + 1) as nat - 1) as nat == f as nat);
        assert(crate::parser::fields::field_index(field) == f) by {
            crate::parser::fields::lemma_field_index_of(f as int);
        }
        match c {
            Some(i) => {
                let ghost before = pair_views(out@);
                assert(map@[f as int] == Some(i as int));
                let h = string_of(chars_of(headers[i].as_str()).as_slice());
                let name = field.canonical_name();
                out.push((h, name));
                assert(pair_views(out@) =~= before.push((hv[i as int], field_name(all_fields()[f as int]))));
            },
            None => {},
        }
        f = f + 1;
    }
    out
}


/// The headers no field is mapped to.
fn unmapped_headers(headers: &[String], map: &crate::parser::columns::FieldMap) -> (r: Vec<String>)
    ensures
        string_views(r@) == unmapped_list(string_views(headers@), map@, headers@.len() as nat),
{
    let ghost hv = string_views(headers@);
    let mut out: Vec<String> = Vec::new();
    let mut i: usize = 0;
    while i < headers.len()
        invariant
            i <= headers@.len(),
            hv == string_views(headers@),
            string_views(out@) =~= unmapped_list(hv, map@, i as nat),
        decreases headers@.len() - i,
    {
        assert(((i + 1) as nat - 1) as nat == i as nat);
        if !map.is_used(i) {
            let ghost before = string_views(out@);
            let h = string_of(chars_of(headers[i].as_str()).as_slice());
            out.push(h);
            assert(string_views(out@) =~= before.push(hv[i as int]));
        }
        i = i + 1;
    }
    out
}

/// The parse of a table with a configuration, when the columns can be
/// mapped and a date format is known: the field map, the date format, the
/// decimal separator, and the tally of the rows.
pub open spec fn table_parse(
    headers: Seq<Seq<char>>,
    rows: Seq<Seq<Seq<char>>>,
    delimiter: char,
    cfg: CsvConfig,
) -> Result<(Seq<Option<int>>, Seq<char>, char), ParseFailure> {
    match header_mapping(headers, rows, cfg.mapping@) {
        Err(e) => Err(ParseFailure::Mapping(e)),
        Ok(m) => match date_format_of(rows, m[0]->0, opt_view(cfg.date_format), crate::config::day_first(cfg)) {
            None => Err(ParseFailure::NoDateFormat),
            Some(fmt) => {
                let sep = match first_char(opt_view(cfg.decimal_separator)) {
                    Some(c) => c,
                    None => decimal_choice(rows, m, delimiter),
                };
                Ok((m, fmt, sep))
            },
        },
    }
}

/// The mathematical content of a [`ParseError`].
pub enum ParseFailure {
    Mapping((Field, Option<crate::parser::columns::MappingProblem>, Seq<char>)),
    NoDateFormat,
}

/// The view of a parse error.
pub open spec fn failure_of(e: ParseError) -> ParseFailure {
    match e {
        ParseError::Mapping(x) => ParseFailure::Mapping(map_error_view(x)),
        ParseError::NoDateFormat => ParseFailure::NoDateFormat,
    }
}

/// String slices borrowed from strings.
fn as_strs(v: &Vec<String>) -> (r: Vec<&str>)
    ensures
        views(r@) == string_views(v@),
{
    let mut r: Vec<&str> = Vec::new();
    let mut i: usize = 0;
    while i < v.len()
        invariant
            i <= v@.len(),
            views(r@) =~= string_views(v@).take(i as int),
        decreases v@.len() - i,
    {
        let ghost before = views(r@);
        r.push(v[i].as_str());
        assert(views(r@) =~= before.push(v@[i as int]@));
        i = i + 1;
    }
    assert(string_views(v@).take(i as int) =~= string_views(v@));
    r
}

/// Convert every record, keeping the trade rows, the first
/// [`MAX_ROW_WARNINGS`] problems and the number of skipped rows.
fn convert_rows(records: &[Vec<String>], map: &crate::parser::columns::FieldMap, date_format: &str, sep: char) -> (r: (Vec<TradeRow>, Vec<(usize, RowError)>, usize))
    ensures
        (row_views(r.0@), problem_views(r.1@), r.2 as nat) == tally(rows_view(records@), map@, date_format@, sep, records@.len() as nat),
{
    let ghost rows = rows_view(records@);
    let mut good: Vec<TradeRow> = Vec::new();
    let mut bad: Vec<(usize, RowError)> = Vec::new();
    let mut skipped: usize = 0;
    let mut i: usize = 0;
    while i < records.len()
        invariant
            i <= records@.len(),
            rows == rows_view(records@),
            (row_views(good@), problem_views(bad@), skipped as nat) == tally(rows, map@, date_format@, sep, i as nat),
            skipped <= i,
        decreases records@.len() - i,
    {
        assert(((i + 1) as nat - 1) as nat == i as nat);
        assert(rows[i as int] == string_views(records@[i as int]@));
        let ghost g0 = row_views(good@);
        let ghost b0 = problem_views(bad@);
        match build_row(i, &records[i], map, date_format, sep) {
            Ok(t) => {
                good.push(t);
                assert(row_views(good@) =~= g0.push(t@));
            },
            Err(e) => {
                skipped = skipped + 1;
                if bad.len() < MAX_ROW_WARNINGS {
                    let ghost pe = problem_of(e);
                    bad.push((i, e));
                    assert(problem_views(bad@) =~= b0.push((i as int, pe)));
                }
            },
        }
        i = i + 1;
    }
    (good, bad, skipped)
}

/// Parse a read table into trade rows: map the columns, settle the date
/// format (configured, else detected from up to 200 date cells) and the
/// decimal separator (configured, else detected), then convert every row.
/// Malformed rows are skipped and reported, never a hard failure.
pub fn parse_table(table: &Table, cfg: &CsvConfig) -> (r: Result<ParsedTable, ParseError>)
    ensures
        match table_parse(string_views(table.headers@), rows_view(table.records@), table.delimiter, *cfg) {
            Err(f) => r matches Err(e) && failure_of(e) == f,
            Ok((m, fmt, sep)) => r matches Ok(p) && {
                let t = tally(rows_view(table.records@), m, fmt, sep, table.records@.len() as nat);
                &&& row_views(p.rows@) == t.0
                &&& problem_views(p.problems@) == t.1
                &&& p.skipped_rows == t.2
                &&& p.detected.delimiter == table.delimiter
                &&& p.detected.encoding@ == encoding_name(table.encoding)
                &&& p.detected.date_format@ == fmt
                &&& p.detected.decimal_separator == sep
                &&& pair_views(p.detected.mapped_headers@) == mapped_list(string_views(table.headers@), m, 15)
                &&& string_views(p.detected.unmapped_headers@) == unmapped_list(string_views(table.headers@), m, table.headers@.len() as nat)
            },
        },
{
    let headers = table.headers.as_slice();
    let records = table.records.as_slice();
    let map = match map_headers(headers, records, &cfg.mapping) {
        Ok(m) => m,
        Err(e) => return Err(ParseError::Mapping(e)),
    };
    let date_col = match map.column(Field::Date) {
        Some(c) => c,
        None => return Err(ParseError::NoDateFormat),
    };
    let date_format = match &cfg.date_format {
        Some(f) => string_of(chars_of(f.as_str()).as_slice()),
        None => {
            let samples = sample_column(records, date_col, DATE_SAMPLES);
            let strs = as_strs(&samples);
            match detect_date_format(strs.as_slice(), cfg.prefers_day_first()) {
                Some(f) => f,
                None => return Err(ParseError::NoDateFormat),
            }
        },
    };
    let sep = match first_char_of(&cfg.decimal_separator) {
        Some(c) => c,
        None => detect_decimal_separator(records, &map, table.delimiter),
    };
    let (rows, problems, skipped_rows) = convert_rows(records, &map, date_format.as_str(), sep);
    let mapped = mapped_headers(headers, &map);
    let unmapped = unmapped_headers(headers, &map);
    Ok(ParsedTable {
        rows,
        problems,
        skipped_rows,
        detected: DetectedFormat {
            delimiter: table.delimiter,
            encoding: table.encoding.name(),
            date_format,
            decimal_separator: sep,
            mapped_headers: mapped,
            unmapped_headers: unmapped,
        },
    })
}

/// Every row is either converted or counted as skipped, and the reported
/// problems are the first skipped rows, at most [`MAX_ROW_WARNINGS`] of
/// them.
pub proof fn law_every_row_accounted(
    rows: Seq<Seq<Seq<char>>>,
    m: Seq<Option<int>>,
    fmt: Seq<char>,
    sep: char,
    n: nat,
)
    ensures
        ({
            let t = tally(rows, m, fmt, sep, n);
            &&& t.0.len() + t.2 == n
            &&& t.1.len() == if t.2 < 50 {
                t.2
            } else {
                50
            }
            &&& forall|k: int| 0 <= k < t.1.len() ==> 0 <= (#[trigger] t.1[k]).0 < n
        }),
    decreases n,
{
    if n > 0 {
        law_every_row_accounted(rows, m, fmt, sep, (n - 1) as nat);
        let p = tally(rows, m, fmt, sep, (n - 1) as nat);
        let t = tally(rows, m, fmt, sep, n);
        assert forall|k: int| 0 <= k < t.1.len() implies 0 <= (#[trigger] t.1[k]).0 < n by {
            if k < p.1.len() {
                assert(t.1[k] == p.1[k]);
            }
        }
    }
}

/// Trade rows come out in source order: their row indices strictly
/// increase and each is the 0-based number of a source row.
pub proof fn law_rows_in_source_order(
    rows: Seq<Seq<Seq<char>>>,
    m: Seq<Option<int>>,
    fmt: Seq<char>,
    sep: char,
    n: nat,
)
    ensures
        ({
            let t = tally(rows, m, fmt, sep, n);
            &&& forall|k: int| 0 <= k < t.0.len() ==> 0 <= (#[trigger] t.0[k]).index < n
            &&& forall|i: int, j: int| 0 <= i < j < t.0.len() ==> (#[trigger] t.0[i]).index < (#[trigger] t.0[j]).index
        }),
    decreases n,
{
    if n > 0 {
        law_rows_in_source_order(rows, m, fmt, sep, (n - 1) as nat);
        let p = tally(rows, m, fmt, sep, (n - 1) as nat);
        let t = tally(rows, m, fmt, sep, n);
        match row_outcome(n - 1, rows[n - 1], m, fmt, sep) {
            Ok(v) => {
                assert(v.index == n - 1);
                assert forall|k: int| 0 <= k < t.0.len() implies 0 <= (#[trigger] t.0[k]).index < n by {
                    if k < p.0.len() {
                        assert(t.0[k] == p.0[k]);
                    }
                }
                assert forall|i: int, j: int| 0 <= i < j < t.0.len() implies (#[trigger] t.0[i]).index < (
                #[trigger] t.0[j]).index by {
                    assert(t.0[i] == p.0[i]);
                    if j < p.0.len() {
                        assert(t.0[j] == p.0[j]);
                    }
                }
            },
            Err(_) => {},
        }
    }
}

/// With a `,` delimiter the detected decimal separator is `.`.
pub proof fn law_comma_delimiter_keeps_dot_decimals(rows: Seq<Seq<Seq<char>>>, m: Seq<Option<int>>)
    ensures
        decimal_choice(rows, m, ',') == '.',
{
}

/// A successful parse has the date, symbol and pnl columns.
pub proof fn law_required_fields_mapped(
    headers: Seq<Seq<char>>,
    rows: Seq<Seq<Seq<char>>>,
    delimiter: char,
    cfg: CsvConfig,
)
    ensures
        table_parse(headers, rows, delimiter, cfg) matches Ok((m, fmt, sep)) ==> m[0] is Some && m[2] is Some
            && m[10] is Some,
{
    if table_parse(headers, rows, delimiter, cfg) is Ok {
        lemma_mapping_has_required(headers, rows, cfg.mapping@);
    }
}

proof fn lemma_mapping_has_required(
    headers: Seq<Seq<char>>,
    rows: Seq<Seq<Seq<char>>>,
    mapping: Map<Seq<char>, Seq<char>>,
)
    ensures
        header_mapping(headers, rows, mapping) matches Ok(m) ==> m[0] is Some && m[2] is Some && m[10] is Some,
{
}

} // verus!
