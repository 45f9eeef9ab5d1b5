//! Column mapping: which CSV column holds which canonical field.
//!
//! Header aliases only propose a mapping; the sampled column values must
//! confirm it, so a column named "Open" holding datetimes becomes the date
//! column rather than an entry price.

use vstd::prelude::*;
use crate::parser::dates::{date_like, looks_like_date, parse_time, parsed_time};
use crate::parser::fields::{all_fields, field_aliases, field_index, field_name, Field};
use crate::parser::header::{normalize_header, normalized_header};
use crate::parser::numbers::{all_digits, is_digit, looks_numeric, numeric_cell};
use crate::config::ColumnMapping;
use crate::shared::{direction_of, Direction};
use crate::text::{chars_of, lower, lowered, same_chars, string_of, string_views, trim, trimmed, views};

verus! {

/// Number of values sampled per column for content checks.
pub const CONTENT_SAMPLES: usize = 40;

/// The views of a table's rows.
pub open spec fn rows_view(records: Seq<Vec<String>>) -> Seq<Seq<Seq<char>>> {
    records.map_values(|r: Vec<String>| string_views(r@))
}

/// The first `k` non-empty trimmed values of column `idx`, skipping rows
/// too short to have that column.
pub open spec fn column_samples(rows: Seq<Seq<Seq<char>>>, idx: int, k: nat) -> Seq<Seq<char>>
    decreases rows.len(),
{
    if rows.len() == 0 || k == 0 {
        Seq::empty()
    } else if 0 <= idx < rows[0].len() && trim(rows[0][idx]).len() > 0 {
        seq![trim(rows[0][idx])] + column_samples(rows.drop_first(), idx, (k - 1) as nat)
    } else {
        column_samples(rows.drop_first(), idx, k)
    }
}

proof fn lemma_column_samples_len(rows: Seq<Seq<Seq<char>>>, idx: int, k: nat)
    ensures
        column_samples(rows, idx, k).len() <= k,
    decreases rows.len(),
{
    if rows.len() > 0 && k > 0 {
        if 0 <= idx < rows[0].len() && trim(rows[0][idx]).len() > 0 {
            lemma_column_samples_len(rows.drop_first(), idx, (k - 1) as nat);
        } else {
            lemma_column_samples_len(rows.drop_first(), idx, k);
        }
    }
}

/// The first `k` non-empty trimmed values of column `idx`.
pub fn sample_column(records: &[Vec<String>], idx: usize, k: usize) -> (r: Vec<String>)
    ensures
        string_views(r@) == column_samples(rows_view(records@), idx as int, k as nat),
{
    let ghost rows = rows_view(records@);
    let mut out: Vec<String> = Vec::new();
    let mut i: usize = 0;
    assert(rows.skip(0) =~= rows);
    assert(string_views(out@) =~= Seq::<Seq<char>>::empty());
    while i < records.len() && out.len() < k
        invariant
            i <= records@.len(),
            rows == rows_view(records@),
            out@.len() <= k,
            string_views(out@) + column_samples(rows.skip(i as int), idx as int, (k - out@.len()) as nat)
                == column_samples(rows, idx as int, k as nat),
        decreases records@.len() - i,
    {
        let ghost rest = rows.skip(i as int);
        assert(rest[0] == string_views(records@[i as int]@));
        assert(rest.drop_first() =~= rows.skip(i + 1));
        let ghost before = string_views(out@);
        if idx < records[i].len() {
            let v = chars_of(records[i][idx].as_str());
            let t = trimmed(v.as_slice());
            assert(rest[0][idx as int] == records@[i as int]@[idx as int]@);
            if t.len() > 0 {
                out.push(string_of(t.as_slice()));
                assert(string_views(out@) =~= before.push(t@));
                assert(before.push(t@) + column_samples(rows.skip(i + 1), idx as int, (k - out@.len()) as nat)
                    =~= before + (seq![t@] + column_samples(rows.skip(i + 1), idx as int, (k - out@.len()) as nat)));
            }
        }
        i = i + 1;
    }
    if out.len() < k {
        assert(rows.skip(i as int).len() == 0);
    }
    assert(string_views(out@) + Seq::<Seq<char>>::empty() =~= string_views(out@));
    out
}

/// Whether a sampled value conforms to the field's content type.
pub open spec fn conforms(field: Field, s: Seq<char>) -> bool {
    match field {
        Field::Date => date_like(s),
        Field::Time => parsed_time(s) is Some,
        Field::Direction => direction_of(s) is Some,
        Field::Symbol | Field::Strategy | Field::Session | Field::Notes => true,
        _ => numeric_cell(s),
    }
}

/// Free-text fields accept any content, including mostly-empty columns.
pub open spec fn free_text(field: Field) -> bool {
    field == Field::Symbol || field == Field::Strategy || field == Field::Session || field
        == Field::Notes
}

/// How many samples conform to the field's content type.
pub open spec fn conform_count(field: Field, samples: Seq<Seq<char>>) -> nat
    decreases samples.len(),
{
    if samples.len() == 0 {
        0
    } else {
        conform_count(field, samples.drop_last()) + if conforms(field, samples.last()) {
            1nat
        } else {
            0nat
        }
    }
}

/// At least `num/den` of the (non-empty list of) samples conform.
pub open spec fn share_ok(hits: nat, total: nat, num: nat, den: nat) -> bool {
    total > 0 && hits * den >= total * num
}

/// Whether the sampled values plausibly belong to the field: free-text
/// fields always do; the others need at least `num/den` conforming values.
pub open spec fn content_fits(field: Field, samples: Seq<Seq<char>>, num: nat, den: nat) -> bool {
    free_text(field) || share_ok(conform_count(field, samples), samples.len(), num, den)
}

/// Whether at least `num/den` of `total` values are hits (false when there
/// are no values at all).
pub fn ratio_ok(hits: usize, total: usize, num: usize, den: usize) -> (r: bool)
    ensures
        r == share_ok(hits as nat, total as nat, num as nat, den as nat),
{
    if total == 0 {
        return false;
    }
    assert((hits as int) * (den as int) < 0x1_0000_0000_0000_0000_0000_0000_0000_0000
        && (total as int) * (num as int) < 0x1_0000_0000_0000_0000_0000_0000_0000_0000)
        by (nonlinear_arith)
        requires
            0 <= hits < 0x1_0000_0000_0000_0000,
            0 <= den < 0x1_0000_0000_0000_0000,
            0 <= total < 0x1_0000_0000_0000_0000,
            0 <= num < 0x1_0000_0000_0000_0000,
    ;
    let lhs: u128 = (hits as u128) * (den as u128);
    let rhs: u128 = (total as u128) * (num as u128);
    assert(lhs == hits * den && rhs == total * num) by (nonlinear_arith)
        requires
            lhs == (hits as u128) * (den as u128),
            rhs == (total as u128) * (num as u128),
    ;
    lhs >= rhs
}

fn conforms_exec(field: Field, s: &str) -> (r: bool)
    ensures
        r == conforms(field, s@),
{
    match field {
        Field::Date => looks_like_date(s),
        Field::Time => parse_time(s).is_some(),
        Field::Direction => Direction::parse(s).is_some(),
        Field::Symbol | Field::Strategy | Field::Session | Field::Notes => true,
        _ => looks_numeric(s),
    }
}

/// Do the sampled values plausibly belong to this canonical field?
///
/// `num/den` is the required share of conforming values: a strict majority
/// (1/2) when the header name already matched an alias, so a few malformed
/// rows do not break a well-named column, and 4/5 for the name-less content
/// rescue, where the values are the only evidence.
pub fn content_compatible(field: Field, samples: &[String], num: usize, den: usize) -> (r: bool)
    ensures
        r == content_fits(field, string_views(samples@), num as nat, den as nat),
{
    let ghost sv = string_views(samples@);
    if matches!(field, Field::Symbol | Field::Strategy | Field::Session | Field::Notes) {
        return true;
    }
    let mut hits: usize = 0;
    let mut i: usize = 0;
    while i < samples.len()
        invariant
            i <= samples@.len(),
            sv == string_views(samples@),
            hits == conform_count(field, sv.take(i as int)),
            hits <= i,
        decreases samples@.len() - i,
    {
        assert(sv.take(i + 1).drop_last() =~= sv.take(i as int));
        if conforms_exec(field, samples[i].as_str()) {
            hits = hits + 1;
        }
        i = i + 1;
    }
    assert(sv.take(i as int) =~= sv);
    ratio_ok(hits, samples.len(), num, den)
}

/// Value of a non-empty run of ASCII digits.
pub open spec fn digits_value(s: Seq<char>) -> nat
    decreases s.len(),
{
    if s.len() == 0 {
        0
    } else {
        digits_value(s.drop_last()) * 10 + ((s.last() as u32) - ('0' as u32)) as nat
    }
}

/// What `usize::from_str` accepts: an optional `+`, then one or more ASCII
/// digits whose value fits in `usize`.
pub open spec fn usize_text(s: Seq<char>) -> Option<nat> {
    let d = if s.len() > 0 && s[0] == '+' {
        s.drop_first()
    } else {
        s
    };
    if d.len() > 0 && all_digits(d) && digits_value(d) <= usize::MAX {
        Some(digits_value(d))
    } else {
        None
    }
}

proof fn lemma_digits_prefix(s: Seq<char>, j: int)
    requires
        0 <= j <= s.len(),
        all_digits(s),
    ensures
        digits_value(s.take(j)) <= digits_value(s),
    decreases s.len() - j,
{
    if j < s.len() {
        lemma_digits_prefix(s, j + 1);
        assert(s.take(j + 1).drop_last() =~= s.take(j));
        assert(is_digit(s[j]));
    } else {
        assert(s.take(j) =~= s);
    }
}

/// Parse a decimal index, as `usize::from_str` does.
pub fn parse_usize(v: &[char]) -> (r: Option<usize>)
    ensures
        match usize_text(v@) {
            Some(n) => r == Some(n as usize),
            None => r is None,
        },
{
    let start: usize = if v.len() > 0 && v[0] == '+' {
        1
    } else {
        0
    };
    let ghost d = v@.skip(start as int);
    assert(d =~= (if v@.len() > 0 && v@[0] == '+' {
        v@.drop_first()
    } else {
        v@
    }));
    if start == v.len() {
        return None;
    }
    let mut acc: usize = 0;
    let mut i: usize = start;
    while i < v.len()
        invariant
            start <= i <= v@.len(),
            d == v@.skip(start as int),
            d == (if v@.len() > 0 && v@[0] == '+' {
                v@.drop_first()
            } else {
                v@
            }),
            forall|k: int| 0 <= k < i - start ==> is_digit(#[trigger] d[k]),
            acc == digits_value(d.take(i - start)),
        decreases v@.len() - i,
    {
        let c = v[i];
        assert(d[i - start] == c);
        if !('0' <= c && c <= '9') {
            assert(!all_digits(d));
            return None;
        }
        let digit = (c as u32 - '0' as u32) as usize;
        assert(d.take(i - start + 1).drop_last() =~= d.take(i - start));
        let next = acc.checked_mul(10);
        match next {
            None => {
                proof {
                    assert forall|k: int| 0 <= k < i - start + 1 implies is_digit(#[trigger] d.take(i - start + 1)[k]) by {}
                    assert(digits_value(d.take(i - start + 1)) > usize::MAX);
                    if all_digits(d) {
                        lemma_digits_prefix(d, i - start + 1);
                    }
                }
                return None;
            },
            Some(m) => match m.checked_add(digit) {
                None => {
                    proof {
                        assert(digits_value(d.take(i - start + 1)) > usize::MAX);
                        if all_digits(d) {
                            lemma_digits_prefix(d, i - start + 1);
                        }
                    }
                    return None;
                },
                Some(s) => {
                    acc = s;
                },
            },
        }
        i = i + 1;
    }
    assert(d.take(i - start) =~= d);
    Some(acc)
}

/// ASCII case-insensitive equality, as `str::eq_ignore_ascii_case`.
pub open spec fn same_ignoring_case(a: Seq<char>, b: Seq<char>) -> bool {
    lower(a) == lower(b)
}

fn equal_ignoring_case(a: &str, b: &str) -> (r: bool)
    ensures
        r == same_ignoring_case(a@, b@),
{
    let x = lowered(chars_of(a).as_slice());
    let y = lowered(chars_of(b).as_slice());
    same_chars(x.as_slice(), y.as_slice())
}

/// Why an explicit mapping entry names no usable column.
#[derive(Debug, Clone, Copy, PartialEq, Eq, Structural)]
pub enum MappingProblem {
    /// `col:N` with an `N` that is not a number.
    InvalidIndex,
    /// `col:N` past the last column.
    OutOfRange,
    /// A header name that matches no header.
    UnknownHeader,
}

/// Why no column mapping could be built.
#[derive(Debug)]
pub enum MapError {
    /// The mapping entry for `field` names no usable column.
    BadMapping { field: Field, problem: MappingProblem, wanted: String },
    /// A required field has no column.
    MissingColumn { field: Field },
}

/// A mapping error as (field, problem of an explicit entry or `None` for a
/// missing required column, the entry's text).
pub open spec fn map_error_view(e: MapError) -> (Field, Option<MappingProblem>, Seq<char>) {
    match e {
        MapError::BadMapping { field, problem, wanted } => (field, Some(problem), wanted@),
        MapError::MissingColumn { field } => (field, None, Seq::empty()),
    }
}

/// Column per field, indexed by [`field_index`]; `None` when unmapped.
pub open spec fn columns_view(cols: Seq<Option<usize>>) -> Seq<Option<int>> {
    cols.map_values(|c: Option<usize>| match c {
        Some(i) => Some(i as int),
        None => None,
    })
}

/// The first header equal to `wanted`, ignoring ASCII case.
pub open spec fn first_header_match(headers: Seq<Seq<char>>, wanted: Seq<char>) -> int {
    choose|i: int|
        0 <= i < headers.len() && same_ignoring_case(headers[i], wanted) && forall|j: int|
            0 <= j < i ==> !same_ignoring_case(#[trigger] headers[j], wanted)
}

/// The column that an explicit mapping value names: `col:N` by index,
/// otherwise the first header equal to it ignoring ASCII case.
pub open spec fn resolve_explicit(wanted: Seq<char>, headers: Seq<Seq<char>>) -> Result<int, MappingProblem> {
    if wanted.len() >= 4 && wanted.take(4) == "col:"@ {
        match usize_text(trim(wanted.skip(4))) {
            None => Err(MappingProblem::InvalidIndex),
            Some(n) => if n >= headers.len() {
                Err(MappingProblem::OutOfRange)
            } else {
                Ok(n as int)
            },
        }
    } else if exists|i: int| 0 <= i < headers.len() && same_ignoring_case(headers[i], wanted) {
        Ok(first_header_match(headers, wanted))
    } else {
        Err(MappingProblem::UnknownHeader)
    }
}

/// Pass 1 over the first `n` fields: explicit mapping entries, trusted
/// blindly (the user/AI override); the first unusable entry is an error.
pub open spec fn explicit_pass(n: nat, headers: Seq<Seq<char>>, mapping: Map<Seq<char>, Seq<char>>) -> Result<
    Seq<Option<int>>,
    (Field, Option<MappingProblem>, Seq<char>),
>
    decreases n,
{
    if n == 0 {
        Ok(Seq::empty())
    } else {
        match explicit_pass((n - 1) as nat, headers, mapping) {
            Err(e) => Err(e),
            Ok(m) => {
                let f = all_fields()[n - 1];
                if mapping.contains_key(field_name(f)) {
                    match resolve_explicit(mapping[field_name(f)], headers) {
                        Ok(i) => Ok(m.push(Some(i))),
                        Err(p) => Err((f, Some(p), mapping[field_name(f)])),
                    }
                } else {
                    Ok(m.push(None))
                }
            },
        }
    }
}

/// Some field is already mapped to column `idx`.
pub open spec fn used(m: Seq<Option<int>>, idx: int) -> bool {
    exists|f: int| 0 <= f < m.len() && m[f] == Some(idx)
}

/// Column `idx` can take field `f` through alias `a`: it is free, its
/// normalized header is the alias, and its content fits the field.
pub open spec fn alias_fits(
    f: Field,
    a: int,
    idx: int,
    m: Seq<Option<int>>,
    names: Seq<Seq<char>>,
    samples: Seq<Seq<Seq<char>>>,
) -> bool {
    &&& 0 <= a < field_aliases(f).len()
    &&& 0 <= idx < names.len()
    &&& !used(m, idx)
    &&& names[idx] == field_aliases(f)[a]
    &&& content_fits(f, samples[idx], 1, 2)
}

/// (a, i) comes before (b, j): alias priority first, then column order.
pub open spec fn lex_before(a: int, i: int, b: int, j: int) -> bool {
    a < b || (a == b && i < j)
}

/// The column that the alias pass gives field `f`: the fitting (alias,
/// column) pair with the highest alias priority, leftmost column first.
pub open spec fn alias_pick(
    f: Field,
    m: Seq<Option<int>>,
    names: Seq<Seq<char>>,
    samples: Seq<Seq<Seq<char>>>,
) -> Option<int> {
    if exists|a: int, i: int| alias_fits(f, a, i, m, names, samples) {
        let p = choose|p: (int, int)|
            alias_fits(f, p.0, p.1, m, names, samples) && forall|a: int, i: int|
                lex_before(a, i, p.0, p.1) ==> !alias_fits(f, a, i, m, names, samples);
        Some(p.1)
    } else {
        None
    }
}

/// Pass 2 over the first `n` fields: unmapped fields take the column their
/// aliases propose, when the content confirms it.
pub open spec fn alias_pass(
    n: nat,
    m0: Seq<Option<int>>,
    names: Seq<Seq<char>>,
    samples: Seq<Seq<Seq<char>>>,
) -> Seq<Option<int>>
    decreases n,
{
    if n == 0 {
        m0
    } else {
        let m = alias_pass((n - 1) as nat, m0, names, samples);
        if m[n - 1] is Some {
            m
        } else {
            m.update(n - 1, alias_pick(all_fields()[n - 1], m, names, samples))
        }
    }
}

/// `s` contains `t` as a contiguous part.
pub open spec fn contains_part(s: Seq<char>, t: Seq<char>) -> bool {
    exists|i: int| 0 <= i <= s.len() - t.len() && #[trigger] s.subrange(i, i + t.len()) == t
}

/// A normalized header that hints at a date or time.
pub open spec fn date_hint(name: Seq<char>) -> bool {
    contains_part(name, "date"@) || contains_part(name, "time"@) || contains_part(name, "open"@)
        || contains_part(name, "created"@) || contains_part(name, "day"@)
}

/// A free column whose values are mostly (4/5) dates.
pub open spec fn rescue_fits(idx: int, m: Seq<Option<int>>, samples: Seq<Seq<Seq<char>>>) -> bool {
    0 <= idx < samples.len() && !used(m, idx) && content_fits(Field::Date, samples[idx], 4, 5)
}

/// A date-like free column whose header hints at a date or time.
pub open spec fn hinted_fits(idx: int, m: Seq<Option<int>>, names: Seq<Seq<char>>, samples: Seq<Seq<Seq<char>>>) -> bool {
    rescue_fits(idx, m, samples) && date_hint(names[idx])
}

/// Pass 3: with no date column yet, the first free column holding dates,
/// preferring columns whose header hints at a date or time.
pub open spec fn rescue_pick(m: Seq<Option<int>>, names: Seq<Seq<char>>, samples: Seq<Seq<Seq<char>>>) -> Option<int> {
    if exists|i: int| #[trigger] hinted_fits(i, m, names, samples) {
        Some(
            choose|i: int|
                #[trigger] hinted_fits(i, m, names, samples) && forall|j: int|
                    0 <= j < i ==> !#[trigger] hinted_fits(j, m, names, samples),
        )
    } else if exists|i: int| #[trigger] rescue_fits(i, m, samples) {
        Some(
            choose|i: int|
                #[trigger] rescue_fits(i, m, samples) && forall|j: int|
                    0 <= j < i ==> !#[trigger] rescue_fits(j, m, samples),
        )
    } else {
        None
    }
}

/// The complete mapping of canonical fields to columns, or why there is
/// none.
pub open spec fn header_mapping(
    headers: Seq<Seq<char>>,
    rows: Seq<Seq<Seq<char>>>,
    mapping: Map<Seq<char>, Seq<char>>,
) -> Result<Seq<Option<int>>, (Field, Option<MappingProblem>, Seq<char>)> {
    let names = headers.map_values(|h: Seq<char>| normalized_header(h));
    let samples = Seq::new(headers.len(), |i: int| column_samples(rows, i, 40));
    match explicit_pass(15, headers, mapping) {
        Err(e) => Err(e),
        Ok(m1) => {
            let m2 = alias_pass(15, m1, names, samples);
            let m3 = if m2[0] is Some {
                m2
            } else {
                m2.update(0, rescue_pick(m2, names, samples))
            };
            if m3[field_index(Field::Date)] is None {
                Err((Field::Date, None, Seq::empty()))
            } else if m3[field_index(Field::Symbol)] is None {
                Err((Field::Symbol, None, Seq::empty()))
            } else if m3[field_index(Field::Pnl)] is None {
                Err((Field::Pnl, None, Seq::empty()))
            } else {
                Ok(m3)
            }
        },
    }
}

fn used_col(cols: &[Option<usize>], idx: usize) -> (r: bool)
    ensures
        r == used(columns_view(cols@), idx as int),
{
    let ghost m = columns_view(cols@);
    let mut f: usize = 0;
    while f < cols.len()
        invariant
            f <= cols@.len(),
            m == columns_view(cols@),
            forall|g: int| 0 <= g < f ==> m[g] != Some(idx as int),
        decreases cols@.len() - f,
    {
        match cols[f] {
            Some(c) => {
                if c == idx {
                    assert(m[f as int] == Some(idx as int));
                    return true;
                }
            },
            None => {},
        }
        f = f + 1;
    }
    false
}

fn resolve(wanted: &str, headers: &[String]) -> (r: Result<usize, MappingProblem>)
    ensures
        r matches Ok(i) ==> i < headers@.len(),
        match r {
            Ok(i) => resolve_explicit(wanted@, string_views(headers@)) == Ok::<int, MappingProblem>(i as int),
            Err(p) => resolve_explicit(wanted@, string_views(headers@)) == Err::<int, MappingProblem>(p),
        },
{
    let ghost hv = string_views(headers@);
    let w = chars_of(wanted);
    let is_col = w.len() >= 4 && w[0] == 'c' && w[1] == 'o' && w[2] == 'l' && w[3] == ':';
    proof {
        reveal_strlit("col:");
        if w@.len() >= 4 {
            if is_col {
                assert(w@.take(4) =~= "col:"@);
            } else {
                assert(w@.take(4) != "col:"@) by {
                    if w@.take(4) == "col:"@ {
                        assert(w@.take(4)[0] == 'c' && w@.take(4)[1] == 'o' && w@.take(4)[2] == 'l'
                            && w@.take(4)[3] == ':');
                    }
                }
            }
        }
    }
    if is_col {
        let mut rest: Vec<char> = Vec::new();
        let mut i: usize = 4;
        while i < w.len()
            invariant
                4 <= i <= w@.len(),
                rest@ == w@.subrange(4, i as int),
            decreases w@.len() - i,
        {
            rest.push(w[i]);
            i = i + 1;
            assert(rest@ =~= w@.subrange(4, i as int));
        }
        assert(rest@ =~= w@.skip(4));
        let t = trimmed(rest.as_slice());
        match parse_usize(t.as_slice()) {
            None => Err(MappingProblem::InvalidIndex),
            Some(n) => {
                if n >= headers.len() {
                    Err(MappingProblem::OutOfRange)
                } else {
                    Ok(n)
                }
            },
        }
    } else {
        let mut i: usize = 0;
        while i < headers.len()
            invariant
                i <= headers@.len(),
                hv == string_views(headers@),
                !(wanted@.len() >= 4 && wanted@.take(4) == "col:"@),
                forall|j: int| 0 <= j < i ==> !same_ignoring_case(#[trigger] hv[j], wanted@),
            decreases headers@.len() - i,
        {
            if equal_ignoring_case(headers[i].as_str(), wanted) {
                assert(same_ignoring_case(hv[i as int], wanted@));
                assert(exists|j: int| 0 <= j < hv.len() && same_ignoring_case(hv[j], wanted@));
                assert(first_header_match(hv, wanted@) == i) by {
                    let f = first_header_match(hv, wanted@);
                    assert(0 <= f < hv.len() && same_ignoring_case(hv[f], wanted@));
                    if f < i {
                        assert(!same_ignoring_case(hv[f], wanted@));
                    }
                    if f > i {
                        assert(!same_ignoring_case(hv[i as int], wanted@));
                    }
                }
                return Ok(i);
            }
            i = i + 1;
        }
        Err(MappingProblem::UnknownHeader)
    }
}

proof fn lemma_explicit_len(n: nat, headers: Seq<Seq<char>>, mapping: Map<Seq<char>, Seq<char>>)
    requires
        n <= 15,
    ensures
        explicit_pass(n, headers, mapping) matches Ok(m) ==> m.len() == n,
    decreases n,
{
    if n > 0 {
        lemma_explicit_len((n - 1) as nat, headers, mapping);
    }
}

/// Pass 1: columns named explicitly by the mapping.
fn explicit_columns(headers: &[String], mapping: &ColumnMapping) -> (r: Result<Vec<Option<usize>>, MapError>)
    ensures
        r matches Ok(cols) ==> in_range(cols@, headers@.len()),
        match explicit_pass(15, string_views(headers@), mapping@) {
            Ok(m) => r matches Ok(cols) && columns_view(cols@) == m,
            Err(e) => r matches Err(x) && map_error_view(x) == e,
        },
{
    let ghost hv = string_views(headers@);
    let fields = Field::all();
    let mut cols: Vec<Option<usize>> = Vec::new();
    let mut i: usize = 0;
    assert(columns_view(cols@) =~= Seq::<Option<int>>::empty());
    while i < fields.len()
        invariant
            i <= fields@.len(),
            fields@ == all_fields(),
            hv == string_views(headers@),
            explicit_pass(i as nat, hv, mapping@) == Ok::<Seq<Option<int>>, (Field, Option<MappingProblem>, Seq<char>)>(columns_view(cols@)),
            in_range(cols@, headers@.len()),
        decreases fields@.len() - i,
    {
        let f = fields[i];
        let ghost before = columns_view(cols@);
        assert(all_fields()[(i + 1) - 1] == f);
        assert(((i + 1) as nat - 1) as nat == i as nat);
        match mapping.get(f.canonical_name()) {
            None => {
                cols.push(None);
                assert(columns_view(cols@) =~= before.push(None));
                assert(!mapping@.contains_key(field_name(f)));
                assert(explicit_pass(i as nat, hv, mapping@) == Ok::<Seq<Option<int>>, (Field, Option<MappingProblem>, Seq<char>)>(before));
                assert(explicit_pass((i + 1) as nat, hv, mapping@) == Ok::<Seq<Option<int>>, (Field, Option<MappingProblem>, Seq<char>)>(before.push(None)));
            },
            Some(wanted) => {
                match resolve(wanted.as_str(), headers) {
                    Ok(idx) => {
                        cols.push(Some(idx));
                        assert(columns_view(cols@) =~= before.push(Some(idx as int)));
                        assert(mapping@.contains_key(field_name(f)) && mapping@[field_name(f)] == wanted@);
                        assert(resolve_explicit(wanted@, hv) == Ok::<int, MappingProblem>(idx as int));
                        assert(explicit_pass(i as nat, hv, mapping@) == Ok::<Seq<Option<int>>, (Field, Option<MappingProblem>, Seq<char>)>(before));
                    },
                    Err(p) => {
                        let e = MapError::BadMapping { field: f, problem: p, wanted };
                        proof {
                            let ghost n = (i + 1) as nat;
                            assert(explicit_pass(n, hv, mapping@) == Err::<Seq<Option<int>>, (Field, Option<MappingProblem>, Seq<char>)>(map_error_view(e)));
                            lemma_explicit_stays_err(n, 15, hv, mapping@);
                        }
                        return Err(e);
                    },
                }
            },
        }
        i = i + 1;
    }
    Ok(cols)
}

proof fn lemma_explicit_stays_err(n: nat, k: nat, headers: Seq<Seq<char>>, mapping: Map<Seq<char>, Seq<char>>)
    requires
        n <= k,
        explicit_pass(n, headers, mapping) is Err,
    ensures
        explicit_pass(k, headers, mapping) == explicit_pass(n, headers, mapping),
    decreases k - n,
{
    if n < k {
        lemma_explicit_stays_err(n, (k - 1) as nat, headers, mapping);
    }
}

/// The views of per-column sample lists.
pub open spec fn samples_view(samples: Seq<Vec<String>>) -> Seq<Seq<Seq<char>>> {
    samples.map_values(|v: Vec<String>| string_views(v@))
}

proof fn lemma_alias_pick_is(
    f: Field,
    a: int,
    idx: int,
    m: Seq<Option<int>>,
    names: Seq<Seq<char>>,
    samples: Seq<Seq<Seq<char>>>,
)
    requires
        alias_fits(f, a, idx, m, names, samples),
        forall|a2: int, i2: int| lex_before(a2, i2, a, idx) ==> !alias_fits(f, a2, i2, m, names, samples),
    ensures
        alias_pick(f, m, names, samples) == Some(idx),
{
    assert(exists|a: int, i: int| alias_fits(f, a, i, m, names, samples));
    let p = choose|p: (int, int)|
        alias_fits(f, p.0, p.1, m, names, samples) && forall|a: int, i: int|
            lex_before(a, i, p.0, p.1) ==> !alias_fits(f, a, i, m, names, samples);
    assert(alias_fits(f, (a, idx).0, (a, idx).1, m, names, samples) && forall|a2: int, i2: int|
        lex_before(a2, i2, (a, idx).0, (a, idx).1) ==> !alias_fits(f, a2, i2, m, names, samples));
    if lex_before(p.0, p.1, a, idx) {
        assert(!alias_fits(f, p.0, p.1, m, names, samples));
    } else if lex_before(a, idx, p.0, p.1) {
        assert(!alias_fits(f, a, idx, m, names, samples));
    }
}

fn names_equal(name: &String, alias: &str) -> (r: bool)
    ensures
        r == (name@ == alias@),
{
    let x = chars_of(name.as_str());
    let y = chars_of(alias);
    same_chars(x.as_slice(), y.as_slice())
}

/// Pass 2 for one field: the column its aliases propose, when free and
/// confirmed by the content.
fn alias_column(f: Field, cols: &[Option<usize>], names: &[String], samples: &[Vec<String>]) -> (r: Option<usize>)
    requires
        names@.len() == samples@.len(),
    ensures
        r matches Some(i) ==> i < names@.len(),
        match r {
            Some(i) => alias_pick(f, columns_view(cols@), string_views(names@), samples_view(samples@)) == Some(i as int),
            None => alias_pick(f, columns_view(cols@), string_views(names@), samples_view(samples@)) is None,
        },
{
    let ghost m = columns_view(cols@);
    let ghost nv = string_views(names@);
    let ghost sv = samples_view(samples@);
    let aliases = f.aliases();
    let mut a: usize = 0;
    while a < aliases.len()
        invariant
            a <= aliases@.len(),
            views(aliases@) == field_aliases(f),
            names@.len() == samples@.len(),
            m == columns_view(cols@),
            nv == string_views(names@),
            sv == samples_view(samples@),
            forall|a2: int, i2: int| 0 <= a2 < a ==> !alias_fits(f, a2, i2, m, nv, sv),
        decreases aliases@.len() - a,
    {
        let mut idx: usize = 0;
        while idx < names.len()
            invariant
                a < aliases@.len(),
                idx <= names@.len(),
                views(aliases@) == field_aliases(f),
                names@.len() == samples@.len(),
                m == columns_view(cols@),
                nv == string_views(names@),
                sv == samples_view(samples@),
                forall|a2: int, i2: int| 0 <= a2 < a ==> !alias_fits(f, a2, i2, m, nv, sv),
                forall|i2: int| 0 <= i2 < idx ==> !alias_fits(f, a as int, i2, m, nv, sv),
            decreases names@.len() - idx,
        {
            assert(aliases@[a as int]@ == field_aliases(f)[a as int]);
            assert(nv[idx as int] == names@[idx as int]@);
            assert(sv[idx as int] == string_views(samples@[idx as int]@));
            if !used_col(cols, idx) && names_equal(&names[idx], aliases[a]) && content_compatible(
                f,
                samples[idx].as_slice(),
                1,
                2,
            ) {
                proof {
                    lemma_alias_pick_is(f, a as int, idx as int, m, nv, sv);
                }
                return Some(idx);
            }
            idx = idx + 1;
        }
        a = a + 1;
    }
    assert forall|a2: int, i2: int| !alias_fits(f, a2, i2, m, nv, sv) by {
        if 0 <= a2 < aliases@.len() {
        }
    }
    None
}

proof fn lemma_alias_pass_len(n: nat, m0: Seq<Option<int>>, names: Seq<Seq<char>>, samples: Seq<Seq<Seq<char>>>)
    requires
        n <= m0.len(),
    ensures
        alias_pass(n, m0, names, samples).len() == m0.len(),
    decreases n,
{
    if n > 0 {
        lemma_alias_pass_len((n - 1) as nat, m0, names, samples);
    }
}

fn has_part(s: &[char], t: &str) -> (r: bool)
    ensures
        r == contains_part(s@, t@),
{
    let tv = chars_of(t);
    if tv.len() == 0 {
        assert(s@.subrange(0int, 0int + t@.len()) =~= t@);
        return true;
    }
    let mut i: usize = 0;
    while i < s.len()
        invariant
            tv@ == t@,
            tv@.len() > 0,
            i <= s@.len(),
            forall|j: int|
                0 <= j < i && j <= s@.len() - t@.len() ==> #[trigger] s@.subrange(j, j + t@.len()) != t@,
        decreases s@.len() - i,
    {
        let n = s.len();
        if tv.len() <= n - i {
            let mut k: usize = 0;
            let mut same = true;
            while k < tv.len()
                invariant
                    k <= tv@.len(),
                    n == s@.len(),
                    tv@.len() <= n - i,
                    i < n,
                    tv@ == t@,
                    same == forall|q: int| 0 <= q < k ==> s@[i + q] == tv@[q],
                decreases tv@.len() - k,
            {
                if s[i + k] != tv[k] {
                    same = false;
                }
                k = k + 1;
            }
            if same {
                assert(s@.subrange(i as int, i + t@.len()) =~= t@);
                return true;
            }
            assert(s@.subrange(i as int, i + t@.len()) != t@) by {
                let q = choose|q: int| 0 <= q < k && s@[i + q] != tv@[q];
                assert(s@.subrange(i as int, i + t@.len())[q] == s@[i + q]);
            }
        }
        i = i + 1;
    }
    false
}

fn hints_date(name: &String) -> (r: bool)
    ensures
        r == date_hint(name@),
{
    let v = chars_of(name.as_str());
    let s = v.as_slice();
    has_part(s, "date") || has_part(s, "time") || has_part(s, "open") || has_part(s, "created")
        || has_part(s, "day")
}

/// Pass 3: the date column found by content alone.
fn rescue_column(cols: &[Option<usize>], names: &[String], samples: &[Vec<String>]) -> (r: Option<usize>)
    requires
        names@.len() == samples@.len(),
    ensures
        r matches Some(i) ==> i < names@.len(),
        match r {
            Some(i) => rescue_pick(columns_view(cols@), string_views(names@), samples_view(samples@)) == Some(i as int),
            None => rescue_pick(columns_view(cols@), string_views(names@), samples_view(samples@)) is None,
        },
{
    let ghost m = columns_view(cols@);
    let ghost nv = string_views(names@);
    let ghost sv = samples_view(samples@);
    let mut hinted: Option<usize> = None;
    let mut any: Option<usize> = None;
    let mut idx: usize = 0;
    while idx < names.len()
        invariant
            idx <= names@.len(),
            names@.len() == samples@.len(),
            m == columns_view(cols@),
            nv == string_views(names@),
            sv == samples_view(samples@),
            sv.len() == names@.len(),
            match hinted {
                Some(h) => h < idx && hinted_fits(h as int, m, nv, sv) && forall|j: int|
                    0 <= j < h ==> !#[trigger] hinted_fits(j, m, nv, sv),
                None => forall|j: int| 0 <= j < idx ==> !#[trigger] hinted_fits(j, m, nv, sv),
            },
            match any {
                Some(h) => h < idx && rescue_fits(h as int, m, sv) && forall|j: int|
                    0 <= j < h ==> !#[trigger] rescue_fits(j, m, sv),
                None => forall|j: int| 0 <= j < idx ==> !#[trigger] rescue_fits(j, m, sv),
            },
        decreases names@.len() - idx,
    {
        assert(nv[idx as int] == names@[idx as int]@);
        assert(sv[idx as int] == string_views(samples@[idx as int]@));
        let fits = !used_col(cols, idx) && content_compatible(
            Field::Date,
            samples[idx].as_slice(),
            4,
            5,
        );
        assert(fits == rescue_fits(idx as int, m, sv));
        if fits && any.is_none() {
            any = Some(idx);
        }
        if fits && hinted.is_none() && hints_date(&names[idx]) {
            hinted = Some(idx);
        }
        idx = idx + 1;
    }
    match hinted {
        Some(h) => {
            assert(exists|i: int| #[trigger] hinted_fits(i, m, nv, sv));
            let ghost c = choose|i: int|
                #[trigger] hinted_fits(i, m, nv, sv) && forall|j: int|
                    0 <= j < i ==> !#[trigger] hinted_fits(j, m, nv, sv);
            assert(c == h) by {
                if c < h {
                    assert(!hinted_fits(c, m, nv, sv));
                }
                if c > h {
                    assert(!hinted_fits(h as int, m, nv, sv));
                }
            }
            Some(h)
        },
        None => {
            assert(forall|i: int| !#[trigger] hinted_fits(i, m, nv, sv));
            match any {
                Some(h) => {
                    assert(exists|i: int| #[trigger] rescue_fits(i, m, sv));
                    let ghost c = choose|i: int|
                        #[trigger] rescue_fits(i, m, sv) && forall|j: int|
                            0 <= j < i ==> !#[trigger] rescue_fits(j, m, sv);
                    assert(c == h) by {
                        if c < h {
                            assert(!rescue_fits(c, m, sv));
                        }
                        if c > h {
                            assert(!rescue_fits(h as int, m, sv));
                        }
                    }
                    Some(h)
                },
                None => {
                    assert(forall|i: int| !#[trigger] rescue_fits(i, m, sv));
                    None
                },
            }
        },
    }
}


/// Which column holds each canonical field.
pub struct FieldMap {
    cols: Vec<Option<usize>>,
    width: usize,
}

/// Every column in the list is below `width`.
pub open spec fn in_range(cols: Seq<Option<usize>>, width: nat) -> bool {
    forall|k: int| 0 <= k < cols.len() ==> (#[trigger] cols[k] matches Some(i) ==> i < width)
}

impl View for FieldMap {
    type V = Seq<Option<int>>;

    /// The column of each field, in [`all_fields`] order.
    closed spec fn view(&self) -> Seq<Option<int>> {
        columns_view(self.cols@)
    }
}

impl FieldMap {
    #[verifier::type_invariant]
    spec fn one_slot_per_field(self) -> bool {
        self.cols@.len() == 15 && in_range(self.cols@, self.width as nat)
    }

    /// The number of columns of the table the map was made for.
    pub closed spec fn columns(self) -> nat {
        self.width as nat
    }

    /// The number of columns of the table the map was made for.
    pub fn width(&self) -> (r: usize)
        ensures
            r == self.columns(),
    {
        self.width
    }

    /// Whether some field is mapped to column `idx`.
    pub fn is_used(&self, idx: usize) -> (r: bool)
        ensures
            r == used(self@, idx as int),
    {
        used_col(self.cols.as_slice(), idx)
    }

    /// The column that holds `field`, if any; it exists in the table.
    pub fn column(&self, field: Field) -> (r: Option<usize>)
        ensures
            self@.len() == 15,
            r matches Some(i) ==> i < self.columns(),
            match r {
                Some(i) => self@[field_index(field)] == Some(i as int),
                None => self@[field_index(field)] is None,
            },
    {
        proof {
            use_type_invariant(self);
        }
        let i = field_position(field);
        self.cols[i]
    }
}

/// Position of a field in [`Field::all`].
pub fn field_position(field: Field) -> (r: usize)
    ensures
        r == field_index(field),
{
    match field {
        Field::Date => 0,
        Field::Time => 1,
        Field::Symbol => 2,
        Field::Direction => 3,
        Field::Entry => 4,
        Field::Exit => 5,
        Field::PositionSize => 6,
        Field::Risk => 7,
        Field::Reward => 8,
        Field::Rr => 9,
        Field::Pnl => 10,
        Field::Fees => 11,
        Field::Strategy => 12,
        Field::Session => 13,
        Field::Notes => 14,
    }
}

/// The normalized header names.
fn header_names(headers: &[String]) -> (r: Vec<String>)
    ensures
        r@.len() == headers@.len(),
        string_views(r@) == string_views(headers@).map_values(|h: Seq<char>| normalized_header(h)),
{
    let ghost hv = string_views(headers@);
    let mut names: Vec<String> = Vec::new();
    let mut i: usize = 0;
    while i < headers.len()
        invariant
            i <= headers@.len(),
            hv == string_views(headers@),
            names@.len() == i,
            string_views(names@) =~= hv.map_values(|h: Seq<char>| normalized_header(h)).take(i as int),
        decreases headers@.len() - i,
    {
        let ghost before = string_views(names@);
        let n = normalize_header(headers[i].as_str());
        names.push(n);
        assert(string_views(names@) =~= before.push(n@));
        i = i + 1;
    }
    assert(hv.map_values(|h: Seq<char>| normalized_header(h)).take(i as int) =~= hv.map_values(|h: Seq<char>| normalized_header(h)));
    names
}

/// The content samples of each of the first `n` columns.
fn column_sample_lists(n: usize, records: &[Vec<String>]) -> (r: Vec<Vec<String>>)
    ensures
        r@.len() == n,
        samples_view(r@) == Seq::new(n as nat, |i: int| column_samples(rows_view(records@), i, 40)),
{
    let ghost rows = rows_view(records@);
    let mut samples: Vec<Vec<String>> = Vec::new();
    let mut i: usize = 0;
    while i < n
        invariant
            i <= n,
            rows == rows_view(records@),
            samples@.len() == i,
            samples_view(samples@) =~= Seq::new(n as nat, |i: int| column_samples(rows, i, 40)).take(i as int),
        decreases n - i,
    {
        let ghost before = samples_view(samples@);
        let c = sample_column(records, i, CONTENT_SAMPLES);
        samples.push(c);
        assert(samples_view(samples@) =~= before.push(string_views(c@)));
        i = i + 1;
    }
    assert(Seq::new(n as nat, |i: int| column_samples(rows, i, 40)).take(i as int) =~= Seq::new(n as nat, |i: int| column_samples(rows, i, 40)));
    samples
}

/// Pass 2 over every field.
fn alias_columns(cols: &mut Vec<Option<usize>>, names: &[String], samples: &[Vec<String>])
    requires
        old(cols)@.len() == 15,
        names@.len() == samples@.len(),
        in_range(old(cols)@, names@.len()),
    ensures
        final(cols)@.len() == 15,
        in_range(final(cols)@, names@.len()),
        columns_view(final(cols)@) == alias_pass(15, columns_view(old(cols)@), string_views(names@), samples_view(samples@)),
{
    let ghost m1 = columns_view(cols@);
    let ghost nv = string_views(names@);
    let ghost sv = samples_view(samples@);
    let fields = Field::all();
    let mut f: usize = 0;
    while f < fields.len()
        invariant
            f <= 15,
            fields@ == all_fields(),
            cols@.len() == 15,
            m1.len() == 15,
            names@.len() == samples@.len(),
            nv == string_views(names@),
            sv == samples_view(samples@),
            columns_view(cols@) == alias_pass(f as nat, m1, nv, sv),
            in_range(cols@, names@.len()),
        decreases 15 - f,
    {
        proof {
            lemma_alias_pass_len(f as nat, m1, nv, sv);
        }
        let ghost before = columns_view(cols@);
        assert(((f + 1) as nat - 1) as nat == f as nat);
        if cols[f].is_none() {
            assert(before[f as int] is None);
            let c = alias_column(fields[f], cols.as_slice(), names, samples);
            cols.set(f, c);
            assert(columns_view(cols@) =~= before.update(f as int, alias_pick(all_fields()[f as int], before, nv, sv)));
        } else {
            assert(before[f as int] is Some);
        }
        f = f + 1;
    }
}

/// Map CSV headers to canonical fields.
///
/// Pass 1: explicit config mapping (exact header name, ignoring ASCII case,
///         or `col:N` index), trusted blindly: this is the user/AI override.
/// Pass 2: alias matching in field-priority order, but a column is only
///         accepted when its content matches the field type.
/// Pass 3: date rescue: when no date column was found by name, take the
///         first unmapped column whose values parse as dates/datetimes,
///         preferring a header that hints at a date or time.
/// Date, symbol and pnl are required.
#[verifier::spinoff_prover]
#[verifier::rlimit(60)]
pub fn map_headers(headers: &[String], records: &[Vec<String>], mapping: &ColumnMapping) -> (r: Result<FieldMap, MapError>)
    ensures
        r matches Ok(fm) ==> fm.columns() == headers@.len(),
        match header_mapping(string_views(headers@), rows_view(records@), mapping@) {
            Ok(m) => r matches Ok(fm) && fm@ == m,
            Err(e) => r matches Err(x) && map_error_view(x) == e,
        },
{
    let ghost hv = string_views(headers@);
    let names = header_names(headers);
    let samples = column_sample_lists(headers.len(), records);
    let ghost nv = string_views(names@);
    let ghost sv = samples_view(samples@);
    let mut cols = match explicit_columns(headers, mapping) {
        Ok(c) => c,
        Err(e) => return Err(e),
    };
    proof {
        lemma_explicit_len(15, hv, mapping@);
    }
    alias_columns(&mut cols, names.as_slice(), samples.as_slice());
    let ghost m2 = columns_view(cols@);
    if cols[0].is_none() {
        let c = rescue_column(cols.as_slice(), names.as_slice(), samples.as_slice());
        cols.set(0, c);
        assert(columns_view(cols@) =~= m2.update(0, rescue_pick(m2, nv, sv)));
    }
    if cols[0].is_none() {
        return Err(MapError::MissingColumn { field: Field::Date });
    }
    if cols[2].is_none() {
        return Err(MapError::MissingColumn { field: Field::Symbol });
    }
    if cols[10].is_none() {
        return Err(MapError::MissingColumn { field: Field::Pnl });
    }
    Ok(FieldMap { cols, width: headers.len() })
}

/// A predicate true somewhere on the naturals is true at a least point.
proof fn lemma_least(p: spec_fn(int) -> bool, k: int)
    requires
        0 <= k,
        p(k),
    ensures
        exists|j: int| 0 <= j <= k && #[trigger] p(j) && forall|l: int| 0 <= l < j ==> !#[trigger] p(l),
    decreases k,
{
    if exists|l: int| 0 <= l < k && #[trigger] p(l) {
        let l = choose|l: int| 0 <= l < k && #[trigger] p(l);
        lemma_least(p, l);
    } else {
        assert(0 <= k <= k && p(k) && forall|l: int| 0 <= l < k ==> !#[trigger] p(l));
    }
}

/// The column the alias pass picks is free.
proof fn lemma_alias_pick_free(f: Field, m: Seq<Option<int>>, names: Seq<Seq<char>>, samples: Seq<Seq<Seq<char>>>)
    ensures
        alias_pick(f, m, names, samples) matches Some(c) ==> 0 <= c && !used(m, c),
{
    if exists|a: int, i: int| alias_fits(f, a, i, m, names, samples) {
        let (a0, i0) = choose|a: int, i: int| alias_fits(f, a, i, m, names, samples);
        let q = |a: int| exists|i: int| alias_fits(f, a, i, m, names, samples);
        assert(q(a0));
        lemma_least(q, a0);
        let a1 = choose|j: int| 0 <= j <= a0 && #[trigger] q(j) && forall|l: int| 0 <= l < j ==> !#[trigger] q(l);
        let i1w = choose|i: int| alias_fits(f, a1, i, m, names, samples);
        let r = |i: int| alias_fits(f, a1, i, m, names, samples);
        assert(r(i1w));
        lemma_least(r, i1w);
        let i1 = choose|j: int| 0 <= j <= i1w && #[trigger] r(j) && forall|l: int| 0 <= l < j ==> !#[trigger] r(l);
        assert(alias_fits(f, (a1, i1).0, (a1, i1).1, m, names, samples) && forall|a: int, i: int|
            lex_before(a, i, (a1, i1).0, (a1, i1).1) ==> !alias_fits(f, a, i, m, names, samples)) by {
            assert forall|a: int, i: int| lex_before(a, i, a1, i1) implies !alias_fits(f, a, i, m, names, samples) by {
                if alias_fits(f, a, i, m, names, samples) {
                    if a < a1 {
                        assert(q(a));
                    } else {
                        assert(r(i));
                    }
                }
            }
        }
        let p = choose|p: (int, int)|
            alias_fits(f, p.0, p.1, m, names, samples) && forall|a: int, i: int|
                lex_before(a, i, p.0, p.1) ==> !alias_fits(f, a, i, m, names, samples);
        assert(alias_fits(f, p.0, p.1, m, names, samples));
    }
}

proof fn lemma_least_hinted(i0: int, m: Seq<Option<int>>, names: Seq<Seq<char>>, samples: Seq<Seq<Seq<char>>>)
    requires
        hinted_fits(i0, m, names, samples),
    ensures
        exists|i: int|
            #[trigger] hinted_fits(i, m, names, samples) && forall|j: int|
                0 <= j < i ==> !#[trigger] hinted_fits(j, m, names, samples),
{
    let q = |i: int| hinted_fits(i, m, names, samples);
    assert(q(i0));
    lemma_least(q, i0);
    let i1 = choose|j: int| 0 <= j <= i0 && #[trigger] q(j) && forall|l: int| 0 <= l < j ==> !#[trigger] q(l);
    assert(q(i1));
    assert forall|j: int| 0 <= j < i1 implies !#[trigger] hinted_fits(j, m, names, samples) by {
        assert(!q(j));
    }
}

proof fn lemma_least_rescue(i0: int, m: Seq<Option<int>>, samples: Seq<Seq<Seq<char>>>)
    requires
        rescue_fits(i0, m, samples),
    ensures
        exists|i: int|
            #[trigger] rescue_fits(i, m, samples) && forall|j: int|
                0 <= j < i ==> !#[trigger] rescue_fits(j, m, samples),
{
    let q = |i: int| rescue_fits(i, m, samples);
    assert(q(i0));
    lemma_least(q, i0);
    let i1 = choose|j: int| 0 <= j <= i0 && #[trigger] q(j) && forall|l: int| 0 <= l < j ==> !#[trigger] q(l);
    assert(q(i1));
    assert forall|j: int| 0 <= j < i1 implies !#[trigger] rescue_fits(j, m, samples) by {
        assert(!q(j));
    }
}

/// The column the date rescue picks is free.
proof fn lemma_rescue_pick_free(m: Seq<Option<int>>, names: Seq<Seq<char>>, samples: Seq<Seq<Seq<char>>>)
    ensures
        rescue_pick(m, names, samples) matches Some(c) ==> 0 <= c && !used(m, c),
{
    if exists|i: int| #[trigger] hinted_fits(i, m, names, samples) {
        let i0 = choose|i: int| #[trigger] hinted_fits(i, m, names, samples);
        lemma_least_hinted(i0, m, names, samples);
        let c = choose|i: int|
            #[trigger] hinted_fits(i, m, names, samples) && forall|j: int|
                0 <= j < i ==> !#[trigger] hinted_fits(j, m, names, samples);
        assert(rescue_fits(c, m, samples));
    } else if exists|i: int| #[trigger] rescue_fits(i, m, samples) {
        let i0 = choose|i: int| #[trigger] rescue_fits(i, m, samples);
        lemma_least_rescue(i0, m, samples);
        let c = choose|i: int|
            #[trigger] rescue_fits(i, m, samples) && forall|j: int|
                0 <= j < i ==> !#[trigger] rescue_fits(j, m, samples);
        assert(rescue_fits(c, m, samples));
    }
}

/// No column is shared between two fields unless both were mapped to it
/// explicitly.
pub open spec fn unshared_inferred(m: Seq<Option<int>>, m1: Seq<Option<int>>) -> bool {
    forall|f: int, g: int|
        0 <= f < m.len() && 0 <= g < m.len() && f != g && #[trigger] m[f] is Some && m[f] == #[trigger] m[g]
            ==> m1[f] is Some && m1[g] is Some
}

/// `m` extends the explicit columns `m1` without sharing inferred columns.
spec fn extends_explicit(m: Seq<Option<int>>, m1: Seq<Option<int>>) -> bool {
    &&& m.len() == m1.len()
    &&& forall|f: int| 0 <= f < m1.len() && #[trigger] m1[f] is Some ==> m[f] == m1[f]
    &&& unshared_inferred(m, m1)
}

proof fn lemma_fill_free(m: Seq<Option<int>>, m1: Seq<Option<int>>, k: int, v: Option<int>)
    requires
        extends_explicit(m, m1),
        0 <= k < m.len(),
        m[k] is None,
        v matches Some(c) ==> !used(m, c),
    ensures
        extends_explicit(m.update(k, v), m1),
{
    let m2 = m.update(k, v);
    assert forall|f: int| 0 <= f < m1.len() && #[trigger] m1[f] is Some implies m2[f] == m1[f] by {
        if f == k {
            assert(m[f] == m1[f]);
        }
    }
    assert forall|f: int, g: int|
        0 <= f < m2.len() && 0 <= g < m2.len() && f != g && #[trigger] m2[f] is Some && m2[f] == #[trigger] m2[g]
            implies m1[f] is Some && m1[g] is Some by {
        if f == k {
            let c = v->0;
            assert(m[g] == Some(c));
            assert(used(m, c));
        } else if g == k {
            let c = v->0;
            assert(m[f] == Some(c));
            assert(used(m, c));
        } else {
            assert(m[f] == m2[f] && m[g] == m2[g]);
        }
    }
}

proof fn lemma_alias_pass_extends(
    n: nat,
    m1: Seq<Option<int>>,
    names: Seq<Seq<char>>,
    samples: Seq<Seq<Seq<char>>>,
)
    requires
        n <= m1.len(),
        m1.len() == 15,
    ensures
        extends_explicit(alias_pass(n, m1, names, samples), m1),
    decreases n,
{
    if n == 0 {
        assert(extends_explicit(m1, m1));
    } else {
        lemma_alias_pass_extends((n - 1) as nat, m1, names, samples);
        lemma_alias_pass_len((n - 1) as nat, m1, names, samples);
        let m = alias_pass((n - 1) as nat, m1, names, samples);
        if m[n - 1] is None {
            lemma_alias_pick_free(all_fields()[n - 1], m, names, samples);
            lemma_fill_free(m, m1, n - 1, alias_pick(all_fields()[n - 1], m, names, samples));
        }
    }
}

/// A column found by alias or by content is never one that another field
/// already holds: two fields share a column only when both were mapped to
/// it explicitly.
pub proof fn law_inferred_columns_unshared(
    headers: Seq<Seq<char>>,
    rows: Seq<Seq<Seq<char>>>,
    mapping: Map<Seq<char>, Seq<char>>,
)
    ensures
        header_mapping(headers, rows, mapping) matches Ok(m) ==> explicit_pass(15, headers, mapping) matches Ok(
            m1,
        ) && unshared_inferred(m, m1),
{
    if header_mapping(headers, rows, mapping) is Ok {
        let names = headers.map_values(|h: Seq<char>| normalized_header(h));
        let samples = Seq::new(headers.len(), |i: int| column_samples(rows, i, 40));
        lemma_explicit_len(15, headers, mapping);
        let m1 = explicit_pass(15, headers, mapping)->Ok_0;
        lemma_alias_pass_extends(15, m1, names, samples);
        lemma_alias_pass_len(15, m1, names, samples);
        let m2 = alias_pass(15, m1, names, samples);
        if m2[0] is None {
            lemma_rescue_pick_free(m2, names, samples);
            lemma_fill_free(m2, m1, 0, rescue_pick(m2, names, samples));
        }
    }
}

} // verus!
