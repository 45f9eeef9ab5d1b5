//! Turning records into trade rows: cell lookup, decimal separator
//! detection and per-row validation.

use vstd::prelude::*;
use crate::parser::columns::FieldMap;
use crate::parser::fields::{field_index, Field};
use crate::parser::dates::{parse_date_with, parse_time, parsed_date, parsed_time, DayTime, Ymd};
use crate::parser::numbers::{float_literal, is_float_literal, number_text, number_text_of};
use crate::shared::{direction_of, session_of, Direction, Session};
use crate::text::{chars_of, string_of, string_views, trim, trimmed};

verus! {

/// The trimmed, non-empty cell of `field` in a row, when the field is
/// mapped and the row reaches that column.
pub open spec fn cell(row: Seq<Seq<char>>, m: Seq<Option<int>>, field: Field) -> Option<Seq<char>> {
    match m[field_index(field)] {
        Some(i) => if 0 <= i < row.len() && trim(row[i]).len() > 0 {
            Some(trim(row[i]))
        } else {
            None
        },
        None => None,
    }
}

/// The trimmed, non-empty cell of `field` in a record.
pub fn cell_of(record: &Vec<String>, map: &FieldMap, field: Field) -> (r: Option<String>)
    ensures
        match cell(string_views(record@), map@, field) {
            Some(c) => r matches Some(s) && s@ == c,
            None => r is None,
        },
{
    match map.column(field) {
        Some(i) => {
            if i < record.len() {
                let t = trimmed(chars_of(record[i].as_str()).as_slice());
                assert(string_views(record@)[i as int] == record@[i as int]@);
                if t.len() > 0 {
                    Some(string_of(t.as_slice()))
                } else {
                    None
                }
            } else {
                None
            }
        },
        None => None,
    }
}

/// `s` without its leading `-` signs (what `trim_start_matches('-')` gives).
pub open spec fn strip_minus(s: Seq<char>) -> Seq<char>
    decreases s.len(),
{
    if s.len() > 0 && s[0] == '-' {
        strip_minus(s.drop_first())
    } else {
        s
    }
}

/// Index of the last `c` in `s`, or -1.
pub open spec fn last_index(s: Seq<char>, c: char) -> int
    decreases s.len(),
{
    if s.len() == 0 {
        -1
    } else if s.last() == c {
        s.len() - 1
    } else {
        last_index(s.drop_last(), c)
    }
}

/// A value votes for `,` as decimal separator: it has a comma, and no dot
/// after its last comma.
pub open spec fn comma_vote(v: Seq<char>) -> bool {
    last_index(v, ',') >= 0 && last_index(v, ',') > last_index(v, '.')
}

/// A value votes for `.` as decimal separator: it has a dot, and no comma
/// after its last dot.
pub open spec fn dot_vote(v: Seq<char>) -> bool {
    last_index(v, '.') >= 0 && last_index(v, '.') > last_index(v, ',')
}

/// The fields whose values decide the decimal separator, in order.
pub open spec fn numeric_vote_fields() -> Seq<Field> {
    seq![Field::Pnl, Field::Entry, Field::Exit, Field::Risk, Field::Rr]
}

/// The value a row offers for a field's vote: the raw cell, trimmed and
/// without leading minus signs (empty when the field is unmapped or the row
/// is too short).
pub open spec fn vote_value(row: Seq<Seq<char>>, m: Seq<Option<int>>, field: Field) -> Seq<char> {
    match m[field_index(field)] {
        Some(i) => if 0 <= i < row.len() {
            strip_minus(trim(row[i]))
        } else {
            Seq::empty()
        },
        None => Seq::empty(),
    }
}

/// (comma votes, dot votes) of the first `n` vote fields of a row.
pub open spec fn row_votes(row: Seq<Seq<char>>, m: Seq<Option<int>>, n: nat) -> (nat, nat)
    decreases n,
{
    if n == 0 {
        (0, 0)
    } else {
        let p = row_votes(row, m, (n - 1) as nat);
        let v = vote_value(row, m, numeric_vote_fields()[n - 1]);
        (p.0 + if comma_vote(v) {
            1nat
        } else {
            0nat
        }, p.1 + if dot_vote(v) {
            1nat
        } else {
            0nat
        })
    }
}

/// (comma votes, dot votes) over the rows.
pub open spec fn table_votes(rows: Seq<Seq<Seq<char>>>, m: Seq<Option<int>>) -> (nat, nat)
    decreases rows.len(),
{
    if rows.len() == 0 {
        (0, 0)
    } else {
        let p = table_votes(rows.drop_last(), m);
        let q = row_votes(rows.last(), m, 5);
        (p.0 + q.0, p.1 + q.1)
    }
}

/// The detected decimal separator: `,` when, over the first 200 rows, more
/// numeric values are shaped like `1.234,56` or `12,5` than like `1,234.56`
/// or `12.5`, and the delimiter is not itself `,`; `.` otherwise.
pub open spec fn decimal_choice(rows: Seq<Seq<Seq<char>>>, m: Seq<Option<int>>, delimiter: char) -> char {
    let v = table_votes(crate::parser::table::first_n(rows, 200), m);
    if v.0 > v.1 && delimiter != ',' {
        ','
    } else {
        '.'
    }
}

proof fn lemma_last_index(s: Seq<char>, c: char)
    ensures
        -1 <= last_index(s, c) < s.len(),
        last_index(s, c) >= 0 ==> s[last_index(s, c)] == c,
        forall|k: int| last_index(s, c) < k < s.len() ==> s[k] != c,
    decreases s.len(),
{
    if s.len() > 0 && s.last() != c {
        lemma_last_index(s.drop_last(), c);
        assert forall|k: int| last_index(s, c) < k < s.len() implies s[k] != c by {
            if k < s.len() - 1 {
                assert(s[k] == s.drop_last()[k]);
            }
        }
    }
}

/// A value with a `.` that no `,` follows votes for `.` and never for `,`
/// (`1,250.00`, `12.5`): the rightmost separator is the decimal one.
pub proof fn law_rightmost_dot_votes_dot(v: Seq<char>, i: int)
    requires
        0 <= i < v.len(),
        v[i] == '.',
        forall|k: int| i < k < v.len() ==> v[k] != ',',
    ensures
        dot_vote(v),
        !comma_vote(v),
{
    lemma_last_index(v, '.');
    lemma_last_index(v, ',');
}

/// A value with a `,` that no `.` follows votes for `,` and never for `.`
/// (`1.234,56`, `12,5`).
pub proof fn law_rightmost_comma_votes_comma(v: Seq<char>, i: int)
    requires
        0 <= i < v.len(),
        v[i] == ',',
        forall|k: int| i < k < v.len() ==> v[k] != '.',
    ensures
        comma_vote(v),
        !dot_vote(v),
{
    lemma_last_index(v, '.');
    lemma_last_index(v, ',');
}

/// A value without `.` and `,` votes for neither.
pub proof fn law_no_separator_no_vote(v: Seq<char>)
    requires
        forall|k: int| 0 <= k < v.len() ==> v[k] != '.' && v[k] != ',',
    ensures
        !dot_vote(v),
        !comma_vote(v),
{
    lemma_last_index(v, '.');
    lemma_last_index(v, ',');
}

/// Every `,` of the value has a `.` somewhere after it.
pub open spec fn commas_before_a_dot(v: Seq<char>) -> bool {
    forall|i: int| 0 <= i < v.len() && v[i] == ',' ==> exists|k: int| i < k < v.len() && #[trigger] v[k] == '.'
}

proof fn lemma_no_comma_vote(v: Seq<char>)
    requires
        commas_before_a_dot(v),
    ensures
        !comma_vote(v),
{
    lemma_last_index(v, '.');
    lemma_last_index(v, ',');
    let c = last_index(v, ',');
    if c >= 0 {
        let k = choose|k: int| c < k < v.len() && #[trigger] v[k] == '.';
        assert(v[k] == '.');
    }
}

proof fn lemma_row_no_comma_votes(row: Seq<Seq<char>>, m: Seq<Option<int>>, n: nat)
    requires
        n <= 5,
        forall|f: int| 0 <= f < 5 ==> commas_before_a_dot(vote_value(row, m, #[trigger] numeric_vote_fields()[f])),
    ensures
        row_votes(row, m, n).0 == 0,
    decreases n,
{
    if n > 0 {
        lemma_row_no_comma_votes(row, m, (n - 1) as nat);
        lemma_no_comma_vote(vote_value(row, m, numeric_vote_fields()[n - 1]));
    }
}

proof fn lemma_table_no_comma_votes(rows: Seq<Seq<Seq<char>>>, m: Seq<Option<int>>)
    requires
        forall|r: int, f: int| 0 <= r < rows.len() && 0 <= f < 5 ==> commas_before_a_dot(vote_value(#[trigger] rows[r], m, #[trigger] numeric_vote_fields()[f])),
    ensures
        table_votes(rows, m).0 == 0,
    decreases rows.len(),
{
    if rows.len() > 0 {
        let last = rows.len() - 1;
        assert forall|r: int, f: int| 0 <= r < rows.drop_last().len() && 0 <= f < 5 implies commas_before_a_dot(vote_value(#[trigger] rows.drop_last()[r], m, #[trigger] numeric_vote_fields()[f])) by {
            assert(rows.drop_last()[r] == rows[r]);
        }
        lemma_table_no_comma_votes(rows.drop_last(), m);
        assert forall|f: int| 0 <= f < 5 implies commas_before_a_dot(vote_value(rows.last(), m, #[trigger] numeric_vote_fields()[f])) by {
            assert(rows[last] == rows.last());
        }
        lemma_row_no_comma_votes(rows.last(), m, 5);
    }
}

/// When every numeric value of the table has a `.` after each of its `,`
/// (`1,250.00`, `-2,300.50`, `12.5`, `300`), the decimal separator is `.`,
/// whatever the delimiter.
pub proof fn law_dot_shaped_values_give_dot(rows: Seq<Seq<Seq<char>>>, m: Seq<Option<int>>, delimiter: char)
    requires
        forall|r: int, f: int| 0 <= r < rows.len() && 0 <= f < 5 ==> commas_before_a_dot(vote_value(#[trigger] rows[r], m, #[trigger] numeric_vote_fields()[f])),
    ensures
        decimal_choice(rows, m, delimiter) == '.',
{
    let first = crate::parser::table::first_n(rows, 200);
    assert forall|r: int, f: int| 0 <= r < first.len() && 0 <= f < 5 implies commas_before_a_dot(vote_value(#[trigger] first[r], m, #[trigger] numeric_vote_fields()[f])) by {
        assert(first[r] == rows[r]);
    }
    lemma_table_no_comma_votes(first, m);
}

fn strip_minus_exec(s: &[char]) -> (r: Vec<char>)
    ensures
        r@ == strip_minus(s@),
{
    let mut i: usize = 0;
    assert(s@.subrange(0, s@.len() as int) =~= s@);
    while i < s.len() && s[i] == '-'
        invariant
            i <= s@.len(),
            strip_minus(s@) == strip_minus(s@.subrange(i as int, s@.len() as int)),
        decreases s@.len() - i,
    {
        assert(s@.subrange(i as int, s@.len() as int).drop_first() =~= s@.subrange(i + 1, s@.len() as int));
        i = i + 1;
    }
    let mut r: Vec<char> = Vec::new();
    let mut k: usize = i;
    while k < s.len()
        invariant
            i <= k <= s@.len(),
            r@ == s@.subrange(i as int, k as int),
        decreases s@.len() - k,
    {
        r.push(s[k]);
        k = k + 1;
        assert(r@ =~= s@.subrange(i as int, k as int));
    }
    r
}

/// (found, index) of the last `c` in `s`.
fn find_last(s: &[char], c: char) -> (r: Option<usize>)
    ensures
        match r {
            Some(i) => last_index(s@, c) == i,
            None => last_index(s@, c) == -1,
        },
{
    let mut j: usize = s.len();
    assert(s@.take(j as int) =~= s@);
    while j > 0
        invariant
            j <= s@.len(),
            last_index(s@, c) == last_index(s@.take(j as int), c),
        decreases j,
    {
        assert(s@.take(j as int).drop_last() =~= s@.take(j - 1));
        if s[j - 1] == c {
            return Some(j - 1);
        }
        j = j - 1;
    }
    None
}

fn vote_of(record: &Vec<String>, map: &FieldMap, field: Field) -> (r: (bool, bool))
    ensures
        r.0 == comma_vote(vote_value(string_views(record@), map@, field)),
        r.1 == dot_vote(vote_value(string_views(record@), map@, field)),
{
    match map.column(field) {
        Some(i) => {
            if i < record.len() {
                assert(string_views(record@)[i as int] == record@[i as int]@);
                let t = trimmed(chars_of(record[i].as_str()).as_slice());
                let v = strip_minus_exec(t.as_slice());
                let c = find_last(v.as_slice(), ',');
                let d = find_last(v.as_slice(), '.');
                match (c, d) {
                    (Some(x), Some(y)) => (x > y, y > x),
                    (Some(_), None) => (true, false),
                    (None, Some(_)) => (false, true),
                    (None, None) => (false, false),
                }
            } else {
                (false, false)
            }
        },
        None => (false, false),
    }
}

/// Inspect numeric columns: values shaped like `1.234,56` or `12,5` mean a
/// comma decimal separator, unless the delimiter is itself a comma.
pub fn detect_decimal_separator(records: &[Vec<String>], map: &FieldMap, delimiter: char) -> (r: char)
    ensures
        r == decimal_choice(crate::parser::columns::rows_view(records@), map@, delimiter),
{
    let ghost rows = crate::parser::columns::rows_view(records@);
    let ghost first = crate::parser::table::first_n(rows, 200);
    let fields: [Field; 5] = [Field::Pnl, Field::Entry, Field::Exit, Field::Risk, Field::Rr];
    assert(fields@ == numeric_vote_fields());
    let n: usize = if records.len() < 200 {
        records.len()
    } else {
        200
    };
    assert(first =~= rows.take(n as int));
    let mut comma: usize = 0;
    let mut dot: usize = 0;
    let mut i: usize = 0;
    while i < n
        invariant
            i <= n <= 200,
            n <= records@.len(),
            fields@ == numeric_vote_fields(),
            rows == crate::parser::columns::rows_view(records@),
            (comma as nat, dot as nat) == table_votes(rows.take(i as int), map@),
            comma <= 5 * i,
            dot <= 5 * i,
        decreases n - i,
    {
        assert(rows.take(i + 1).drop_last() =~= rows.take(i as int));
        assert(rows.take(i + 1).last() == string_views(records@[i as int]@));
        let mut rc: usize = 0;
        let mut rd: usize = 0;
        let mut k: usize = 0;
        while k < 5
            invariant
                k <= 5,
                i < n <= records@.len(),
                fields@ == numeric_vote_fields(),
                (rc as nat, rd as nat) == row_votes(string_views(records@[i as int]@), map@, k as nat),
                rc <= k,
                rd <= k,
            decreases 5 - k,
        {
            let (c, d) = vote_of(&records[i], map, fields[k]);
            assert(((k + 1) as nat - 1) as nat == k as nat);
            if c {
                rc = rc + 1;
            }
            if d {
                rd = rd + 1;
            }
            k = k + 1;
        }
        comma = comma + rc;
        dot = dot + rd;
        i = i + 1;
    }
    if comma > dot && delimiter != ',' {
        ','
    } else {
        '.'
    }
}


/// What `str::to_uppercase` returns (Unicode upper-casing).
pub uninterp spec fn upper_text(s: Seq<char>) -> Seq<char>;

/// `str::to_uppercase`: the Unicode upper-case form of the text. The
/// contract only names the result.
#[verifier::external_body]
fn to_upper(s: &str) -> (r: String)
    ensures
        r@ == upper_text(s@),
{
    s.to_uppercase()
}

/// The text of a number cell that the float parser accepts, with the given
/// decimal separator; `None` when the cell is absent or not a number.
pub open spec fn number_cell(c: Option<Seq<char>>, decimal_separator: char) -> Option<Seq<char>> {
    match c {
        Some(raw) => match number_text(raw, decimal_separator) {
            Some(t) => if float_literal(t) {
                Some(t)
            } else {
                None
            },
            None => None,
        },
        None => None,
    }
}

/// The float text of a raw number cell, when it is one.
pub fn number_of(raw: &Option<String>, decimal_separator: char) -> (r: Option<String>)
    ensures
        number_cell(crate::config::opt_view(*raw), decimal_separator) == crate::config::opt_view(r),
{
    match raw {
        Some(s) => match number_text_of(s.as_str(), decimal_separator) {
            Some(t) => {
                if is_float_literal(chars_of(t.as_str()).as_slice()) {
                    Some(t)
                } else {
                    None
                }
            },
            None => None,
        },
        None => None,
    }
}

/// One journal row that passed validation. Numbers are kept as the text
/// the float parser reads (`1234.50` for `1.234,50` with a `,` separator).
pub struct TradeRow {
    /// 0-based row order in the source file.
    pub index: usize,
    pub date: Ymd,
    pub time: Option<DayTime>,
    /// Upper-cased instrument.
    pub symbol: String,
    pub direction: Option<Direction>,
    pub entry: Option<String>,
    pub exit: Option<String>,
    pub position_size: Option<String>,
    pub risk: Option<String>,
    pub reward: Option<String>,
    pub rr: Option<String>,
    pub pnl: String,
    pub fees: Option<String>,
    pub strategy: Option<String>,
    pub session: Option<Session>,
    pub notes: Option<String>,
}

/// The mathematical content of a [`TradeRow`].
pub struct RowView {
    pub index: int,
    pub date: Ymd,
    pub time: Option<DayTime>,
    pub symbol: Seq<char>,
    pub direction: Option<Direction>,
    pub entry: Option<Seq<char>>,
    pub exit: Option<Seq<char>>,
    pub position_size: Option<Seq<char>>,
    pub risk: Option<Seq<char>>,
    pub reward: Option<Seq<char>>,
    pub rr: Option<Seq<char>>,
    pub pnl: Seq<char>,
    pub fees: Option<Seq<char>>,
    pub strategy: Option<Seq<char>>,
    pub session: Option<Session>,
    pub notes: Option<Seq<char>>,
}

impl View for TradeRow {
    type V = RowView;

    open spec fn view(&self) -> RowView {
        RowView {
            index: self.index as int,
            date: self.date,
            time: self.time,
            symbol: self.symbol@,
            direction: self.direction,
            entry: crate::config::opt_view(self.entry),
            exit: crate::config::opt_view(self.exit),
            position_size: crate::config::opt_view(self.position_size),
            risk: crate::config::opt_view(self.risk),
            reward: crate::config::opt_view(self.reward),
            rr: crate::config::opt_view(self.rr),
            pnl: self.pnl@,
            fees: crate::config::opt_view(self.fees),
            strategy: crate::config::opt_view(self.strategy),
            session: self.session,
            notes: crate::config::opt_view(self.notes),
        }
    }
}

/// Why a row was skipped.
#[derive(Debug)]
pub enum RowError {
    MissingDate,
    /// The date cell does not parse with the file's date format.
    BadDate { raw: String, format: String },
    /// The time cell matches no time format.
    BadTime { raw: String },
    MissingSymbol,
    MissingPnl,
    /// The pnl cell is not a number.
    BadPnl { raw: String },
}

/// The mathematical content of a [`RowError`].
pub enum RowProblem {
    MissingDate,
    BadDate(Seq<char>, Seq<char>),
    BadTime(Seq<char>),
    MissingSymbol,
    MissingPnl,
    BadPnl(Seq<char>),
}

/// The view of a row error.
pub open spec fn problem_of(e: RowError) -> RowProblem {
    match e {
        RowError::MissingDate => RowProblem::MissingDate,
        RowError::BadDate { raw, format } => RowProblem::BadDate(raw@, format@),
        RowError::BadTime { raw } => RowProblem::BadTime(raw@),
        RowError::MissingSymbol => RowProblem::MissingSymbol,
        RowError::MissingPnl => RowProblem::MissingPnl,
        RowError::BadPnl { raw } => RowProblem::BadPnl(raw@),
    }
}

/// How a row turns into a trade row: date (parsed with the file's format),
/// symbol and pnl are required; a separate time cell, when present, must
/// parse and wins over a time embedded in the date; the other fields are
/// kept when they parse and dropped otherwise.
pub open spec fn row_outcome(
    index: int,
    row: Seq<Seq<char>>,
    m: Seq<Option<int>>,
    date_format: Seq<char>,
    decimal_separator: char,
) -> Result<RowView, RowProblem> {
    match cell(row, m, Field::Date) {
        None => Err(RowProblem::MissingDate),
        Some(date_raw) => match parsed_date(date_raw, date_format) {
            None => Err(RowProblem::BadDate(date_raw, date_format)),
            Some((date, embedded)) => {
                let time = match cell(row, m, Field::Time) {
                    Some(raw) => match parsed_time(raw) {
                        Some(t) => Ok(Some(t)),
                        None => Err(RowProblem::BadTime(raw)),
                    },
                    None => Ok(embedded),
                };
                match time {
                    Err(p) => Err(p),
                    Ok(time) => match cell(row, m, Field::Symbol) {
                        None => Err(RowProblem::MissingSymbol),
                        Some(sym) => match cell(row, m, Field::Pnl) {
                            None => Err(RowProblem::MissingPnl),
                            Some(pnl_raw) => match number_cell(Some(pnl_raw), decimal_separator) {
                                None => Err(RowProblem::BadPnl(pnl_raw)),
                                Some(pnl) => Ok(
                                    RowView {
                                        index,
                                        date,
                                        time,
                                        symbol: upper_text(sym),
                                        direction: match cell(row, m, Field::Direction) {
                                            Some(d) => direction_of(d),
                                            None => None,
                                        },
                                        entry: number_cell(cell(row, m, Field::Entry), decimal_separator),
                                        exit: number_cell(cell(row, m, Field::Exit), decimal_separator),
                                        position_size: number_cell(cell(row, m, Field::PositionSize), decimal_separator),
                                        risk: number_cell(cell(row, m, Field::Risk), decimal_separator),
                                        reward: number_cell(cell(row, m, Field::Reward), decimal_separator),
                                        rr: number_cell(cell(row, m, Field::Rr), decimal_separator),
                                        pnl,
                                        fees: number_cell(cell(row, m, Field::Fees), decimal_separator),
                                        strategy: cell(row, m, Field::Strategy),
                                        session: match cell(row, m, Field::Session) {
                                            Some(s) => session_of(s),
                                            None => None,
                                        },
                                        notes: cell(row, m, Field::Notes),
                                    },
                                ),
                            },
                        },
                    },
                }
            },
        },
    }
}

/// Each optional number of a row is read from the column mapped to that
/// same field: entry from the entry column, RR from the RR column, and so
/// on, with the file's decimal separator.
pub open spec fn numbers_from_own_columns(v: RowView, row: Seq<Seq<char>>, m: Seq<Option<int>>, sep: char) -> bool {
    &&& v.entry == number_cell(cell(row, m, Field::Entry), sep)
    &&& v.exit == number_cell(cell(row, m, Field::Exit), sep)
    &&& v.position_size == number_cell(cell(row, m, Field::PositionSize), sep)
    &&& v.risk == number_cell(cell(row, m, Field::Risk), sep)
    &&& v.reward == number_cell(cell(row, m, Field::Reward), sep)
    &&& v.rr == number_cell(cell(row, m, Field::Rr), sep)
    &&& v.fees == number_cell(cell(row, m, Field::Fees), sep)
    &&& v.strategy == cell(row, m, Field::Strategy)
    &&& v.notes == cell(row, m, Field::Notes)
}

/// A row that passes validation takes every optional number, the
/// strategy and the notes from the column mapped to that very field, keeps
/// its source index, and its pnl is the number of the pnl column.
pub proof fn law_numbers_from_own_columns(index: int, row: Seq<Seq<char>>, m: Seq<Option<int>>, date_format: Seq<char>, sep: char)
    ensures
        row_outcome(index, row, m, date_format, sep) matches Ok(v) ==> {
            &&& numbers_from_own_columns(v, row, m, sep)
            &&& v.index == index
            &&& number_cell(cell(row, m, Field::Pnl), sep) == Some(v.pnl)
        },
{
}

/// Validate one record and convert it into a trade row.
pub fn build_row(index: usize, record: &Vec<String>, map: &FieldMap, date_format: &str, decimal_separator: char) -> (r: Result<TradeRow, RowError>)
    ensures
        match row_outcome(index as int, string_views(record@), map@, date_format@, decimal_separator) {
            Ok(v) => r matches Ok(t) && t@ == v,
            Err(p) => r matches Err(e) && problem_of(e) == p,
        },
        r matches Ok(t) ==> numbers_from_own_columns(t@, string_views(record@), map@, decimal_separator),
{
    proof {
        law_numbers_from_own_columns(index as int, string_views(record@), map@, date_format@, decimal_separator);
    }
    let date_raw = match cell_of(record, map, Field::Date) {
        Some(d) => d,
        None => return Err(RowError::MissingDate),
    };
    let (date, embedded) = match parse_date_with(date_raw.as_str(), date_format) {
        Some(p) => p,
        None => {
            let format = string_of(chars_of(date_format).as_slice());
            return Err(RowError::BadDate { raw: date_raw, format });
        },
    };
    let time = match cell_of(record, map, Field::Time) {
        Some(raw) => match parse_time(raw.as_str()) {
            Some(t) => Some(t),
            None => return Err(RowError::BadTime { raw }),
        },
        None => embedded,
    };
    let symbol = match cell_of(record, map, Field::Symbol) {
        Some(s) => to_upper(s.as_str()),
        None => return Err(RowError::MissingSymbol),
    };
    let pnl_raw = match cell_of(record, map, Field::Pnl) {
        Some(p) => p,
        None => return Err(RowError::MissingPnl),
    };
    let pnl_cell = Some(pnl_raw);
    let pnl = match number_of(&pnl_cell, decimal_separator) {
        Some(p) => p,
        None => {
            let raw = match pnl_cell {
                Some(x) => x,
                None => String::new(),
            };
            return Err(RowError::BadPnl { raw });
        },
    };
    let direction = match cell_of(record, map, Field::Direction) {
        Some(d) => Direction::parse(d.as_str()),
        None => None,
    };
    let session = match cell_of(record, map, Field::Session) {
        Some(s) => Session::parse(s.as_str()),
        None => None,
    };
    Ok(TradeRow {
        index,
        date,
        time,
        symbol,
        direction,
        entry: number_of(&cell_of(record, map, Field::Entry), decimal_separator),
        exit: number_of(&cell_of(record, map, Field::Exit), decimal_separator),
        position_size: number_of(&cell_of(record, map, Field::PositionSize), decimal_separator),
        risk: number_of(&cell_of(record, map, Field::Risk), decimal_separator),
        reward: number_of(&cell_of(record, map, Field::Reward), decimal_separator),
        rr: number_of(&cell_of(record, map, Field::Rr), decimal_separator),
        pnl,
        fees: number_of(&cell_of(record, map, Field::Fees), decimal_separator),
        strategy: cell_of(record, map, Field::Strategy),
        session,
        notes: cell_of(record, map, Field::Notes),
    })
}

} // verus!
