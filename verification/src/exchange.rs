//! Plain records of the JSON exchange format (the contract with the AI
//! layer) and of the analysis history.

use vstd::prelude::*;
use crate::text::{chars_of, push_text, string_of, string_views};

verus! {

/// Where an exchange document came from and how much of the input it
/// covers.
pub struct Metadata {
    pub schema_version: String,
    pub engine_version: String,
    /// ISO-8601 local timestamp of generation.
    pub generated_at: String,
    pub source_file: String,
    pub timezone: String,
    pub total_rows: usize,
    pub parsed_trades: usize,
    pub skipped_rows: usize,
}

/// The span of a journal.
pub struct TradingPeriod {
    /// ISO date of the first trade.
    pub first_trade_date: String,
    /// ISO date of the last trade.
    pub last_trade_date: String,
    /// Inclusive calendar days between first and last trade.
    pub total_calendar_days: i64,
    /// Distinct dates with at least one trade.
    pub total_trading_days: usize,
}

/// A stored exchange document: its file and generation time.
pub struct StoredExchangeRef {
    pub file: String,
    pub generated_at: String,
}

/// Joining a path component to a base path, as `Path::join` does with `/`
/// separators: an absolute component replaces the base; otherwise a `/` is
/// put between them unless the base is empty or already ends with one.
pub open spec fn joined_path(base: Seq<char>, part: Seq<char>) -> Seq<char> {
    if part.len() > 0 && part[0] == '/' {
        part
    } else if base.len() == 0 || base.last() == '/' {
        base + part
    } else {
        base + seq!['/'] + part
    }
}

/// Join a component to a base path (see [`joined_path`]).
pub fn join_path(base: &str, part: &str) -> (r: String)
    ensures
        r@ == joined_path(base@, part@),
{
    let b = chars_of(base);
    let p = chars_of(part);
    if p.len() > 0 && p[0] == '/' {
        return string_of(p.as_slice());
    }
    let mut out = string_of(b.as_slice());
    if !(b.len() == 0 || b[b.len() - 1] == '/') {
        crate::text::push_char(&mut out, '/');
    }
    push_text(&mut out, part);
    out
}

/// The analysis history file of a vault: `<vault>/<assets_dir>/history.json`.
pub fn history_path(vault: &str, assets_dir: &str) -> (r: String)
    ensures
        r@ == joined_path(joined_path(vault@, assets_dir@), "history.json"@),
{
    let dir = join_path(vault, assets_dir);
    join_path(dir.as_str(), "history.json")
}

/// Why no exchange document can be built.
pub enum ExchangeError {
    /// The journal holds no valid trade.
    NoTrades,
}

/// Metadata of the exchange document of a journal with `parsed_trades`
/// valid trades and `skipped_rows` rejected rows: every row is counted once.
/// A journal without a valid trade has no exchange document.
pub fn exchange_metadata(
    schema_version: &str,
    engine_version: &str,
    generated_at: String,
    source_file: String,
    timezone: String,
    parsed_trades: usize,
    skipped_rows: usize,
) -> (r: Result<Metadata, ExchangeError>)
    requires
        parsed_trades + skipped_rows <= usize::MAX,
    ensures
        (parsed_trades == 0) == (r is Err),
        r matches Ok(m) ==> {
            &&& m.schema_version@ == schema_version@
            &&& m.engine_version@ == engine_version@
            &&& m.generated_at@ == generated_at@
            &&& m.source_file@ == source_file@
            &&& m.timezone@ == timezone@
            &&& m.total_rows == parsed_trades + skipped_rows
            &&& m.parsed_trades == parsed_trades
            &&& m.skipped_rows == skipped_rows
        },
{
    if parsed_trades == 0 {
        return Err(ExchangeError::NoTrades);
    }
    Ok(Metadata {
        schema_version: string_of(chars_of(schema_version).as_slice()),
        engine_version: string_of(chars_of(engine_version).as_slice()),
        generated_at,
        source_file,
        timezone,
        total_rows: parsed_trades + skipped_rows,
        parsed_trades,
        skipped_rows,
    })
}

/// The names of the detected flags, in flag order.
pub open spec fn detected_list(names: Seq<Seq<char>>, detected: Seq<bool>) -> Seq<Seq<char>>
    decreases names.len(),
{
    if names.len() == 0 {
        Seq::empty()
    } else {
        let rest = detected_list(names.drop_last(), detected.take(names.len() - 1));
        if detected[names.len() - 1] {
            rest.push(names.last())
        } else {
            rest
        }
    }
}

/// The names of the behavioral flags that were detected, in flag order:
/// the summary's list of detected behaviors.
pub fn detected_behaviors(names: &Vec<String>, detected: &Vec<bool>) -> (r: Vec<String>)
    requires
        names@.len() == detected@.len(),
    ensures
        string_views(r@) == detected_list(string_views(names@), detected@),
{
    let mut out: Vec<String> = Vec::new();
    let mut i: usize = 0;
    while i < names.len()
        invariant
            i <= names@.len(),
            names@.len() == detected@.len(),
            string_views(out@) == detected_list(string_views(names@).take(i as int), detected@.take(i as int)),
        decreases names@.len() - i,
    {
        let ghost before = string_views(out@);
        assert(string_views(names@).take(i + 1).drop_last() =~= string_views(names@).take(i as int));
        assert(detected@.take(i + 1).take(i as int) =~= detected@.take(i as int));
        if detected[i] {
            out.push(string_of(chars_of(names[i].as_str()).as_slice()));
            assert(string_views(out@) =~= before.push(names@[i as int]@));
        }
        i = i + 1;
    }
    assert(string_views(names@).take(i as int) =~= string_views(names@));
    assert(detected@.take(i as int) =~= detected@);
    out
}

} // verus!
