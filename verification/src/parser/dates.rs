//! Date and time cells: the candidate formats, their detection from
//! samples, and parsing through chrono.

use chrono::{Datelike, Timelike};
use vstd::prelude::*;
use crate::text::{chars_of, string_of, trim, trimmed, views};

verus! {

/// A calendar date as (year, month, day).
pub type Ymd = (i32, u32, u32);

/// A time of day as (seconds since midnight, nanoseconds).
pub type DayTime = (u32, u32);

/// What `chrono::NaiveDate::parse_from_str(raw, fmt)` returns, as
/// (year, month, day).
pub uninterp spec fn chrono_date(raw: Seq<char>, fmt: Seq<char>) -> Option<(i32, u32, u32)>;

/// What `chrono::NaiveDateTime::parse_from_str(raw, fmt)` returns, as the
/// date and the time of day.
pub uninterp spec fn chrono_datetime(raw: Seq<char>, fmt: Seq<char>) -> Option<
    ((i32, u32, u32), (u32, u32)),
>;

/// What `chrono::NaiveTime::parse_from_str(raw, fmt)` returns, as
/// (seconds since midnight, nanoseconds).
pub uninterp spec fn chrono_time(raw: Seq<char>, fmt: Seq<char>) -> Option<(u32, u32)>;

/// `chrono::NaiveDate::parse_from_str`; the result is [`chrono_date`] of
/// the arguments. Nothing more is claimed of chrono's format grammar.
#[verifier::external_body]
fn naive_date(raw: &str, fmt: &str) -> (r: Option<Ymd>)
    ensures
        r == chrono_date(raw@, fmt@),
{
    chrono::NaiveDate::parse_from_str(raw, fmt).ok().map(|d| (d.year(), d.month(), d.day()))
}

/// `chrono::NaiveDateTime::parse_from_str`; the result is
/// [`chrono_datetime`] of the arguments.
#[verifier::external_body]
fn naive_datetime(raw: &str, fmt: &str) -> (r: Option<(Ymd, DayTime)>)
    ensures
        r == chrono_datetime(raw@, fmt@),
{
    chrono::NaiveDateTime::parse_from_str(raw, fmt).ok().map(
        |dt| {
            (
                (dt.date().year(), dt.date().month(), dt.date().day()),
                (dt.time().num_seconds_from_midnight(), dt.time().nanosecond()),
            )
        },
    )
}

/// `chrono::NaiveTime::parse_from_str`; the result is [`chrono_time`] of
/// the arguments.
#[verifier::external_body]
pub(crate) fn naive_time(raw: &str, fmt: &str) -> (r: Option<DayTime>)
    ensures
        r == chrono_time(raw@, fmt@),
{
    chrono::NaiveTime::parse_from_str(raw, fmt).ok().map(
        |t| (t.num_seconds_from_midnight(), t.nanosecond()),
    )
}


/// ISO-style formats (year first), tried first.
#[verifier::opaque]
pub open spec fn iso_formats() -> Seq<Seq<char>> {
    seq!["%Y-%m-%d"@, "%Y/%m/%d"@, "%Y.%m.%d"@, "%Y-%m-%d %H:%M:%S"@, "%Y-%m-%d %H:%M"@, "%Y-%m-%dT%H:%M:%S"@, "%Y-%m-%dT%H:%M"@, "%Y/%m/%d %H:%M"@, "%Y.%m.%d %H:%M:%S"@, "%Y.%m.%d %H:%M"@]
}

/// Day-first formats (EU style).
#[verifier::opaque]
pub open spec fn day_first_formats() -> Seq<Seq<char>> {
    seq!["%d-%m-%Y"@, "%d/%m/%Y"@, "%d.%m.%Y"@, "%d-%m-%y"@, "%d/%m/%y"@, "%d-%m-%Y %H:%M"@, "%d/%m/%Y %H:%M"@, "%d.%m.%Y %H:%M"@, "%d-%m-%Y %H:%M:%S"@, "%d/%m/%Y %H:%M:%S"@]
}

/// Month-first formats (US style).
#[verifier::opaque]
pub open spec fn month_first_formats() -> Seq<Seq<char>> {
    seq!["%m-%d-%Y"@, "%m/%d/%Y"@, "%m.%d.%Y"@, "%m/%d/%y"@, "%m/%d/%Y %H:%M"@, "%m/%d/%Y %H:%M:%S"@]
}

/// Candidate formats in priority order: ISO first, then day-first before
/// month-first when `prefer_day_first`, month-first before day-first
/// otherwise.
pub open spec fn format_candidates(prefer_day_first: bool) -> Seq<Seq<char>> {
    if prefer_day_first {
        iso_formats() + day_first_formats() + month_first_formats()
    } else {
        iso_formats() + month_first_formats() + day_first_formats()
    }
}

fn push_iso(v: &mut Vec<&'static str>)
    ensures
        views(final(v)@) == views(old(v)@) + iso_formats(),
{
    reveal(iso_formats);
    let ghost start = v@;
        v.push("%Y-%m-%d");
        v.push("%Y/%m/%d");
        v.push("%Y.%m.%d");
        v.push("%Y-%m-%d %H:%M:%S");
        v.push("%Y-%m-%d %H:%M");
        v.push("%Y-%m-%dT%H:%M:%S");
        v.push("%Y-%m-%dT%H:%M");
        v.push("%Y/%m/%d %H:%M");
        v.push("%Y.%m.%d %H:%M:%S");
        v.push("%Y.%m.%d %H:%M");
    assert(views(v@) =~= views(start) + iso_formats());
}

fn push_day_first(v: &mut Vec<&'static str>)
    ensures
        views(final(v)@) == views(old(v)@) + day_first_formats(),
{
    reveal(day_first_formats);
    let ghost start = v@;
        v.push("%d-%m-%Y");
        v.push("%d/%m/%Y");
        v.push("%d.%m.%Y");
        v.push("%d-%m-%y");
        v.push("%d/%m/%y");
        v.push("%d-%m-%Y %H:%M");
        v.push("%d/%m/%Y %H:%M");
        v.push("%d.%m.%Y %H:%M");
        v.push("%d-%m-%Y %H:%M:%S");
        v.push("%d/%m/%Y %H:%M:%S");
    assert(views(v@) =~= views(start) + day_first_formats());
}

fn push_month_first(v: &mut Vec<&'static str>)
    ensures
        views(final(v)@) == views(old(v)@) + month_first_formats(),
{
    reveal(month_first_formats);
    let ghost start = v@;
        v.push("%m-%d-%Y");
        v.push("%m/%d/%Y");
        v.push("%m.%d.%Y");
        v.push("%m/%d/%y");
        v.push("%m/%d/%Y %H:%M");
        v.push("%m/%d/%Y %H:%M:%S");
    assert(views(v@) =~= views(start) + month_first_formats());
}

/// Candidate chrono formats, in priority order. Ambiguity between day-first
/// and month-first is otherwise resolved by samples whose first component
/// exceeds 12, which no month-first format parses.
pub fn date_format_candidates(prefer_day_first: bool) -> (r: Vec<&'static str>)
    ensures
        views(r@) == format_candidates(prefer_day_first),
{
    let mut v: Vec<&'static str> = Vec::new();
    assert(views(v@) =~= Seq::<Seq<char>>::empty());
    push_iso(&mut v);
    if prefer_day_first {
        push_day_first(&mut v);
        push_month_first(&mut v);
    } else {
        push_month_first(&mut v);
        push_day_first(&mut v);
    }
    assert(views(v@) =~= format_candidates(prefer_day_first));
    v
}

/// Whether a format string holds the `%H` (hour) directive.
pub open spec fn has_hour(fmt: Seq<char>) -> bool {
    exists|i: int| 0 <= i < fmt.len() - 1 && #[trigger] fmt[i] == '%' && fmt[i + 1] == 'H'
}

/// A date cell parsed with a format: the date, plus the time of day when
/// the format carries one.
pub open spec fn parsed_date(raw: Seq<char>, fmt: Seq<char>) -> Option<(Ymd, Option<DayTime>)> {
    if has_hour(fmt) {
        match chrono_datetime(raw, fmt) {
            Some((d, t)) => Some((d, Some(t))),
            None => None,
        }
    } else {
        match chrono_date(raw, fmt) {
            Some(d) => Some((d, None)),
            None => None,
        }
    }
}

fn holds_hour(fmt: &str) -> (r: bool)
    ensures
        r == has_hour(fmt@),
{
    let v = chars_of(fmt);
    let mut i: usize = 0;
    while i < v.len() && i < v.len() - 1
        invariant
            v@ == fmt@,
            i <= v.len(),
            forall|k: int| 0 <= k < i ==> !(#[trigger] v@[k] == '%' && v@[k + 1] == 'H'),
        decreases v.len() - i,
    {
        if v[i] == '%' && v[i + 1] == 'H' {
            return true;
        }
        i = i + 1;
    }
    false
}

/// Parse a date cell with a format that may or may not carry a time.
pub fn parse_date_with(raw: &str, fmt: &str) -> (r: Option<(Ymd, Option<DayTime>)>)
    ensures
        r == parsed_date(raw@, fmt@),
{
    if holds_hour(fmt) {
        match naive_datetime(raw, fmt) {
            Some((d, t)) => Some((d, Some(t))),
            None => None,
        }
    } else {
        match naive_date(raw, fmt) {
            Some(d) => Some((d, None)),
            None => None,
        }
    }
}

/// Time formats tried for a separate time column, in order.
pub open spec fn time_formats() -> Seq<Seq<char>> {
    seq!["%H:%M:%S"@, "%H:%M"@, "%I:%M %p"@, "%I:%M:%S %p"@]
}

/// The first time format (from `from` on) that parses the cell.
pub open spec fn parsed_time_from(raw: Seq<char>, from: nat) -> Option<DayTime>
    decreases 4 - from,
{
    if from >= 4 {
        None
    } else {
        match chrono_time(raw, time_formats()[from as int]) {
            Some(t) => Some(t),
            None => parsed_time_from(raw, from + 1),
        }
    }
}

/// A time cell parsed with the first time format that accepts it.
pub open spec fn parsed_time(raw: Seq<char>) -> Option<DayTime> {
    parsed_time_from(raw, 0)
}

/// Parse a time-of-day cell: `HH:MM:SS`, `HH:MM`, or 12-hour clock.
pub fn parse_time(raw: &str) -> (r: Option<DayTime>)
    ensures
        r == parsed_time(raw@),
{
    let fmts: [&'static str; 4] = ["%H:%M:%S", "%H:%M", "%I:%M %p", "%I:%M:%S %p"];
    assert(views(fmts@) =~= time_formats());
    let mut i: usize = 0;
    while i < 4
        invariant
            i <= 4,
            views(fmts@) == time_formats(),
            parsed_time(raw@) == parsed_time_from(raw@, i as nat),
        decreases 4 - i,
    {
        assert(fmts@[i as int]@ == time_formats()[i as int]);
        match naive_time(raw, fmts[i]) {
            Some(t) => {
                return Some(t);
            },
            None => {},
        }
        i = i + 1;
    }
    None
}

/// Whether the cell parses as a date with the format.
pub open spec fn date_parses(raw: Seq<char>, fmt: Seq<char>) -> bool {
    parsed_date(raw, fmt) is Some
}

/// How many samples (trimmed) parse with the format.
pub open spec fn parse_count(samples: Seq<Seq<char>>, fmt: Seq<char>) -> nat
    decreases samples.len(),
{
    if samples.len() == 0 {
        0
    } else {
        parse_count(samples.drop_last(), fmt) + if date_parses(trim(samples.last()), fmt) {
            1nat
        } else {
            0nat
        }
    }
}

/// The first position holding `v`, when there is one.
pub open spec fn first_with(counts: Seq<usize>, v: int) -> int {
    choose|j: int| 0 <= j < counts.len() && counts[j] == v && forall|k: int| 0 <= k < j ==> counts[k] != v
}

/// Position of the first strictly positive maximum of `counts`.
pub open spec fn is_first_max(counts: Seq<usize>, j: int) -> bool {
    &&& 0 <= j < counts.len()
    &&& counts[j] > 0
    &&& forall|k: int| 0 <= k < counts.len() ==> counts[k] <= counts[j]
    &&& forall|k: int| 0 <= k < j ==> counts[k] < counts[j]
}

/// Which candidate wins, given how many of `total` samples each candidate
/// parses: the first that parses every sample; otherwise the first that
/// parses the most, provided it parses a strict majority.
pub open spec fn date_format_choice(counts: Seq<usize>, total: int) -> Option<int> {
    if total == 0 {
        None
    } else if exists|j: int| 0 <= j < counts.len() && counts[j] == total {
        Some(first_with(counts, total))
    } else if exists|j: int| is_first_max(counts, j) {
        let j = choose|j: int| is_first_max(counts, j);
        if 2 * counts[j] > total {
            Some(j)
        } else {
            None
        }
    } else {
        None
    }
}

/// Pick the winning candidate from per-candidate parse counts over
/// `total` samples (see [`date_format_choice`]).
pub fn choose_date_format(counts: &[usize], total: usize) -> (r: Option<usize>)
    ensures
        r matches Some(j) ==> j < counts@.len(),
        match r {
            Some(j) => date_format_choice(counts@, total as int) == Some(j as int),
            None => date_format_choice(counts@, total as int) is None,
        },
{
    reveal(date_format_choice);
    if total == 0 {
        return None;
    }
    let mut best: Option<usize> = None;
    let mut i: usize = 0;
    while i < counts.len()
        invariant
            i <= counts.len(),
            total > 0,
            forall|k: int| 0 <= k < i ==> counts@[k] != total,
            match best {
                Some(b) => b < i && counts@[b as int] > 0 && (forall|k: int|
                    0 <= k < i ==> counts@[k] <= counts@[b as int]) && (forall|k: int|
                    0 <= k < b ==> counts@[k] < counts@[b as int]),
                None => forall|k: int| 0 <= k < i ==> counts@[k] == 0,
            },
        decreases counts.len() - i,
    {
        let c = counts[i];
        if c == total {
            assert(forall|j: int|
                0 <= j < counts@.len() && counts@[j] == total && (forall|k: int|
                    0 <= k < j ==> counts@[k] != total) ==> j == i);
            return Some(i);
        }
        let better = match best {
            Some(b) => c > counts[b],
            None => c > 0,
        };
        if better {
            best = Some(i);
        }
        i = i + 1;
    }
    match best {
        Some(b) => {
            assert(is_first_max(counts@, b as int));
            assert(forall|j: int| is_first_max(counts@, j) ==> j == b);
            if b < counts.len() && counts[b] <= total / 2 {
                None
            } else {
                Some(b)
            }
        },
        None => {
            assert(forall|j: int| !is_first_max(counts@, j));
            None
        },
    }
}

fn trimmed_strings(samples: &[&str]) -> (r: Vec<String>)
    ensures
        r@.len() == samples@.len(),
        forall|i: int| 0 <= i < r@.len() ==> #[trigger] r@[i]@ == trim(samples@[i]@),
{
    let mut r: Vec<String> = Vec::new();
    let mut i: usize = 0;
    while i < samples.len()
        invariant
            i <= samples.len(),
            r@.len() == i,
            forall|k: int| 0 <= k < i ==> #[trigger] r@[k]@ == trim(samples@[k]@),
        decreases samples.len() - i,
    {
        let v = chars_of(samples[i]);
        let t = trimmed(v.as_slice());
        r.push(string_of(t.as_slice()));
        i = i + 1;
    }
    r
}

/// How many of the (trimmed) samples parse with the format.
fn count_parsed(trimmed_samples: &[String], fmt: &str, samples: Ghost<Seq<Seq<char>>>) -> (n: usize)
    requires
        trimmed_samples@.len() == samples@.len(),
        forall|i: int| 0 <= i < samples@.len() ==> #[trigger] trimmed_samples@[i]@ == trim(samples@[i]),
    ensures
        n == parse_count(samples@, fmt@),
{
    let mut n: usize = 0;
    let mut i: usize = 0;
    while i < trimmed_samples.len()
        invariant
            i <= trimmed_samples.len(),
            trimmed_samples@.len() == samples@.len(),
            forall|k: int| 0 <= k < samples@.len() ==> #[trigger] trimmed_samples@[k]@ == trim(samples@[k]),
            n == parse_count(samples@.take(i as int), fmt@),
            n <= i,
        decreases trimmed_samples.len() - i,
    {
        assert(samples@.take(i + 1).drop_last() =~= samples@.take(i as int));
        if parse_date_with(trimmed_samples[i].as_str(), fmt).is_some() {
            n = n + 1;
        }
        i = i + 1;
    }
    assert(samples@.take(i as int) =~= samples@);
    n
}

/// Per-candidate parse counts of the samples.
pub open spec fn candidate_counts(samples: Seq<Seq<char>>, prefer_day_first: bool) -> Seq<usize> {
    format_candidates(prefer_day_first).map_values(|f: Seq<char>| parse_count(samples, f) as usize)
}

/// Per-candidate parse counts of the (trimmed) samples.
fn count_candidates(samples: &[&str], prefer_day_first: bool) -> (r: (Vec<&'static str>, Vec<usize>))
    ensures
        views(r.0@) == format_candidates(prefer_day_first),
        r.1@ == candidate_counts(views(samples@), prefer_day_first),
{
    let ghost sv = views(samples@);
    let cands = date_format_candidates(prefer_day_first);
    let ts = trimmed_strings(samples);
    let mut counts: Vec<usize> = Vec::new();
    let mut j: usize = 0;
    while j < cands.len()
        invariant
            j <= cands.len(),
            views(cands@) == format_candidates(prefer_day_first),
            ts@.len() == sv.len(),
            sv == views(samples@),
            forall|k: int| 0 <= k < sv.len() ==> #[trigger] ts@[k]@ == trim(sv[k]),
            counts@.len() == j,
            forall|k: int| 0 <= k < j ==> #[trigger] counts@[k] == parse_count(sv, cands@[k]@),
        decreases cands.len() - j,
    {
        assert forall|k: int| 0 <= k < sv.len() implies #[trigger] ts@[k]@ == trim(sv[k]) by {}
        let c = count_parsed(ts.as_slice(), cands[j], Ghost(sv));
        counts.push(c);
        j = j + 1;
    }
    assert forall|k: int| 0 <= k < counts@.len() implies counts@[k] == candidate_counts(
        sv,
        prefer_day_first,
    )[k] by {
        assert(cands@[k]@ == views(cands@)[k]);
    }
    assert(counts@ =~= candidate_counts(sv, prefer_day_first));
    (cands, counts)
}

/// Detect the date format of a column from its samples: the candidate that
/// parses the most samples (earliest candidate on ties), provided it parses
/// a strict majority, so a column of garbage fails loudly while a few
/// malformed rows do not break detection.
pub fn detect_date_format(samples: &[&str], prefer_day_first: bool) -> (r: Option<String>)
    ensures
        match date_format_choice(
            candidate_counts(views(samples@), prefer_day_first),
            samples@.len() as int,
        ) {
            Some(j) => r matches Some(f) && f@ == format_candidates(prefer_day_first)[j],
            None => r is None,
        },
        prefer_day_first && samples@.len() > 0 && (exists|i: int|
            0 <= i < day_first_formats().len() && parse_count(views(samples@), #[trigger] day_first_formats()[i])
                == samples@.len()) ==> (r matches Some(f) && (leads_with(f@, 'Y') || day_before_month(f@))),
{
    let n = samples.len();
    proof {
        assert(views(samples@).len() == n);
        if prefer_day_first && samples@.len() > 0 && (exists|i: int|
            0 <= i < day_first_formats().len() && parse_count(views(samples@), #[trigger] day_first_formats()[i])
                == samples@.len()) {
            let i = choose|i: int|
                0 <= i < day_first_formats().len() && parse_count(views(samples@), #[trigger] day_first_formats()[i])
                    == samples@.len();
            law_day_first_preferred(views(samples@), i);
        }
    }
    let (cands, counts) = count_candidates(samples, prefer_day_first);
    match choose_date_format(counts.as_slice(), samples.len()) {
        Some(k) => {
            assert(k < counts@.len());
            assert(cands@[k as int]@ == views(cands@)[k as int]);
            Some(string_of(chars_of(cands[k]).as_slice()))
        },
        None => None,
    }
}

proof fn lemma_parse_count_bounded(samples: Seq<Seq<char>>, fmt: Seq<char>)
    ensures
        parse_count(samples, fmt) <= samples.len(),
    decreases samples.len(),
{
    if samples.len() > 0 {
        lemma_parse_count_bounded(samples.drop_last(), fmt);
    }
}

/// The format reads the field `c` first: it starts with `%c`.
pub open spec fn leads_with(fmt: Seq<char>, c: char) -> bool {
    fmt.len() >= 2 && fmt[0] == '%' && fmt[1] == c
}

/// The format reads the day before the month: its first field is `%d` and
/// a `%m` follows.
pub open spec fn day_before_month(fmt: Seq<char>) -> bool {
    leads_with(fmt, 'd') && exists|k: int| 2 <= k < fmt.len() - 1 && #[trigger] fmt[k] == '%' && fmt[k + 1] == 'm'
}

/// The format reads the month before the day.
pub open spec fn month_before_day(fmt: Seq<char>) -> bool {
    leads_with(fmt, 'm') && exists|k: int| 2 <= k < fmt.len() - 1 && #[trigger] fmt[k] == '%' && fmt[k + 1] == 'd'
}

/// The candidate families read their fields in their names' order: every
/// ISO format starts with the year, every day-first format reads the day
/// before the month, every month-first format the month before the day.
/// The dotted, slashed and dashed European layouts are day-first
/// candidates.
pub proof fn law_format_families()
    ensures
        forall|i: int| 0 <= i < iso_formats().len() ==> leads_with(#[trigger] iso_formats()[i], 'Y'),
        forall|i: int| 0 <= i < day_first_formats().len() ==> day_before_month(#[trigger] day_first_formats()[i]),
        forall|i: int| 0 <= i < month_first_formats().len() ==> month_before_day(#[trigger] month_first_formats()[i]),
        iso_formats().len() == 10,
        day_first_formats().contains("%d.%m.%Y"@),
        day_first_formats().contains("%d/%m/%Y"@),
        day_first_formats().contains("%d-%m-%Y"@),
{
    reveal(iso_formats);
    reveal(day_first_formats);
    reveal(month_first_formats);
    reveal_strlit("%Y-%m-%d");
    reveal_strlit("%Y/%m/%d");
    reveal_strlit("%Y.%m.%d");
    reveal_strlit("%Y-%m-%d %H:%M:%S");
    reveal_strlit("%Y-%m-%d %H:%M");
    reveal_strlit("%Y-%m-%dT%H:%M:%S");
    reveal_strlit("%Y-%m-%dT%H:%M");
    reveal_strlit("%Y/%m/%d %H:%M");
    reveal_strlit("%Y.%m.%d %H:%M:%S");
    reveal_strlit("%Y.%m.%d %H:%M");
    reveal_strlit("%d-%m-%Y");
    reveal_strlit("%d/%m/%Y");
    reveal_strlit("%d.%m.%Y");
    reveal_strlit("%d-%m-%y");
    reveal_strlit("%d/%m/%y");
    reveal_strlit("%d-%m-%Y %H:%M");
    reveal_strlit("%d/%m/%Y %H:%M");
    reveal_strlit("%d.%m.%Y %H:%M");
    reveal_strlit("%d-%m-%Y %H:%M:%S");
    reveal_strlit("%d/%m/%Y %H:%M:%S");
    reveal_strlit("%m-%d-%Y");
    reveal_strlit("%m/%d/%Y");
    reveal_strlit("%m.%d.%Y");
    reveal_strlit("%m/%d/%y");
    reveal_strlit("%m/%d/%Y %H:%M");
    reveal_strlit("%m/%d/%Y %H:%M:%S");
    assert forall|i: int| 0 <= i < day_first_formats().len() implies day_before_month(#[trigger] day_first_formats()[i]) by {
        assert(day_first_formats()[i][3] == '%' && day_first_formats()[i][4] == 'm');
    }
    assert forall|i: int| 0 <= i < month_first_formats().len() implies month_before_day(#[trigger] month_first_formats()[i]) by {
        assert(month_first_formats()[i][3] == '%' && month_first_formats()[i][4] == 'd');
    }
    assert(day_first_formats()[2] == "%d.%m.%Y"@);
    assert(day_first_formats()[1] == "%d/%m/%Y"@);
    assert(day_first_formats()[0] == "%d-%m-%Y"@);
}

proof fn lemma_first_with(counts: Seq<usize>, v: int, w: int)
    requires
        0 <= w < counts.len(),
        counts[w] == v,
    ensures
        0 <= first_with(counts, v) <= w,
        counts[first_with(counts, v)] == v,
    decreases w,
{
    if exists|k: int| 0 <= k < w && counts[k] == v {
        let k = choose|k: int| 0 <= k < w && counts[k] == v;
        lemma_first_with(counts, v, k);
    } else {
        assert(0 <= w < counts.len() && counts[w] == v && forall|k: int| 0 <= k < w ==> counts[k] != v);
    }
    let j = first_with(counts, v);
    if j > w {
        assert(counts[w] != v);
    }
}

/// With the day-first preference, a column that some day-first format
/// reads completely is never read month-first: the detected format
/// starts with the year (an ISO format read it first) or reads the day
/// before the month. So `05.01.2026`, `06.01.2026` are never taken as
/// 1 May and 1 June.
pub proof fn law_day_first_preferred(samples: Seq<Seq<char>>, i: int)
    requires
        0 < samples.len() <= usize::MAX,
        0 <= i < day_first_formats().len(),
        parse_count(samples, day_first_formats()[i]) == samples.len(),
    ensures
        date_format_choice(candidate_counts(samples, true), samples.len() as int) matches Some(j) && ({
            let f = format_candidates(true)[j];
            leads_with(f, 'Y') || day_before_month(f)
        }),
{
    law_format_families();
    let counts = candidate_counts(samples, true);
    let total = samples.len() as int;
    let w = 10 + i;
    assert(format_candidates(true)[w] == day_first_formats()[i]);
    assert(counts[w] == total);
    lemma_first_with(counts, total, w);
    let j = first_with(counts, total);
    if j < 10 {
        assert(format_candidates(true)[j] == iso_formats()[j]);
    } else {
        assert(format_candidates(true)[j] == day_first_formats()[j - 10]);
    }
}

/// Whether a cell parses as a date with any candidate format.
pub open spec fn date_like(raw: Seq<char>) -> bool {
    exists|j: int| 0 <= j < format_candidates(true).len() && date_parses(raw, format_candidates(true)[j])
}

/// Whether a cell looks like a date (or datetime) in any supported format.
pub fn looks_like_date(raw: &str) -> (r: bool)
    ensures
        r == date_like(raw@),
{
    let cands = date_format_candidates(true);
    let mut j: usize = 0;
    while j < cands.len()
        invariant
            j <= cands.len(),
            views(cands@) == format_candidates(true),
            forall|k: int| 0 <= k < j ==> !date_parses(raw@, #[trigger] format_candidates(true)[k]),
        decreases cands.len() - j,
    {
        assert(cands@[j as int]@ == views(cands@)[j as int]);
        if parse_date_with(raw, cands[j]).is_some() {
            return true;
        }
        j = j + 1;
    }
    false
}

} // verus!
