//! Canonical trade fields a CSV column can map to, with their header
//! aliases.

use vstd::prelude::*;
use crate::text::views;

verus! {

/// Canonical trade fields a CSV column can map to.
#[derive(Debug, Clone, Copy, PartialEq, Eq, Hash, Structural)]
pub enum Field {
    Date,
    Time,
    Symbol,
    Direction,
    Entry,
    Exit,
    PositionSize,
    Risk,
    Reward,
    Rr,
    Pnl,
    Fees,
    Strategy,
    Session,
    Notes,
}

/// Canonical (JSON / mapping file) name of a field.
pub open spec fn field_name(f: Field) -> Seq<char> {
    match f {
        Field::Date => "date"@,
        Field::Time => "time"@,
        Field::Symbol => "symbol"@,
        Field::Direction => "direction"@,
        Field::Entry => "entry"@,
        Field::Exit => "exit"@,
        Field::PositionSize => "position_size"@,
        Field::Risk => "risk"@,
        Field::Reward => "reward"@,
        Field::Rr => "rr"@,
        Field::Pnl => "pnl"@,
        Field::Fees => "fees"@,
        Field::Strategy => "strategy"@,
        Field::Session => "session"@,
        Field::Notes => "notes"@,
    }
}

/// The fields every journal must provide: date, symbol and pnl.
pub open spec fn field_required(f: Field) -> bool {
    f == Field::Date || f == Field::Symbol || f == Field::Pnl
}

/// One-line description of a field.
pub open spec fn field_description(f: Field) -> Seq<char> {
    match f {
        Field::Date => "trade date, or full open datetime (time is extracted automatically)"@,
        Field::Time => "trade open time (HH:MM or HH:MM:SS) when stored separately from the date"@,
        Field::Symbol => "instrument / pair / ticker, e.g. EURUSD"@,
        Field::Direction => "trade direction: long/short, buy/sell, b/s"@,
        Field::Entry => "entry price"@,
        Field::Exit => "exit price"@,
        Field::PositionSize => "position size: lots, quantity, volume, units, contracts"@,
        Field::Risk => "money risked on the trade"@,
        Field::Reward => "planned reward / target amount"@,
        Field::Rr => "realized risk-reward multiple (R)"@,
        Field::Pnl => "realized profit/loss of the trade (required)"@,
        Field::Fees => "commissions / fees / swap costs (sign is ignored)"@,
        Field::Strategy => "strategy / setup / playbook name"@,
        Field::Session => "market session label (London, New York, Asia, Overlap)"@,
        Field::Notes => "free-form trade notes"@,
    }
}

/// Every field, in priority order.
pub open spec fn all_fields() -> Seq<Field> {
    seq![
        Field::Date,
        Field::Time,
        Field::Symbol,
        Field::Direction,
        Field::Entry,
        Field::Exit,
        Field::PositionSize,
        Field::Risk,
        Field::Reward,
        Field::Rr,
        Field::Pnl,
        Field::Fees,
        Field::Strategy,
        Field::Session,
        Field::Notes,
    ]
}

/// Position of a field in [`all_fields`].
pub open spec fn field_index(f: Field) -> int {
    match f {
        Field::Date => 0,
        Field::Time => 1,
        Field::Symbol => 2,
        Field::Direction => 3,
        Field::Entry => 4,
        Field::Exit => 5,
        Field::PositionSize => 6,
        Field::Risk => 7,
        Field::Reward => 8,
        Field::Rr => 9,
        Field::Pnl => 10,
        Field::Fees => 11,
        Field::Strategy => 12,
        Field::Session => 13,
        Field::Notes => 14,
    }
}

/// Known header aliases of a field (already normalized), in priority order.
pub open spec fn field_aliases(f: Field) -> Seq<Seq<char>> {
    match f {
        Field::Date => seq!["date"@, "opendate"@, "entrydate"@, "tradedate"@, "day"@, "opentime"@, "datetime"@, "timeopened"@, "created"@, "open"@],
        Field::Time => seq!["time"@, "entrytime"@, "timeofday"@],
        Field::Symbol => seq!["symbol"@, "pair"@, "instrument"@, "ticker"@, "market"@, "asset"@, "currencypair"@, "product"@],
        Field::Direction => seq!["direction"@, "side"@, "type"@, "position"@, "buysell"@, "longshort"@, "action"@],
        Field::Entry => seq!["entry"@, "entryprice"@, "open"@, "openprice"@, "pricein"@, "avgentry"@, "price"@],
        Field::Exit => seq!["exit"@, "exitprice"@, "close"@, "closeprice"@, "priceout"@, "avgexit"@, "price"@],
        Field::PositionSize => seq!["positionsize"@, "size"@, "lots"@, "lotsize"@, "quantity"@, "qty"@, "volume"@, "units"@, "contracts"@, "shares"@],
        Field::Risk => seq!["risk"@, "riskamount"@, "riskusd"@, "risked"@, "riskpercent"@, "risk$"@, "riskpertrade"@],
        Field::Reward => seq!["reward"@, "rewardamount"@, "target"@, "targetamount"@, "plannedreward"@],
        Field::Rr => seq!["rr"@, "riskreward"@, "riskrewardratio"@, "rmultiple"@, "rmultiples"@, "realizedrr"@, "plannedrr"@, "ratio"@],
        Field::Pnl => seq!["pnl"@, "pl"@, "profit"@, "profitloss"@, "netpnl"@, "netprofit"@, "result"@, "gain"@, "realizedpnl"@, "netgain"@, "return"@],
        Field::Fees => seq!["fees"@, "fee"@, "commission"@, "commissions"@, "costs"@, "cost"@, "swap"@],
        Field::Strategy => seq!["strategy"@, "setup"@, "system"@, "playbook"@, "model"@, "setupname"@, "edge"@],
        Field::Session => seq!["session"@, "marketsession"@, "killzone"@, "tradingsession"@],
        Field::Notes => seq!["notes"@, "note"@, "comment"@, "comments"@, "remarks"@, "journal"@, "description"@, "mistakes"@],
    }
}

impl Field {
    /// Canonical name used in mapping files and diagnostics.
    pub fn canonical_name(&self) -> (r: &'static str)
        ensures
            r@ == field_name(*self),
    {
        match self {
            Field::Date => "date",
            Field::Time => "time",
            Field::Symbol => "symbol",
            Field::Direction => "direction",
            Field::Entry => "entry",
            Field::Exit => "exit",
            Field::PositionSize => "position_size",
            Field::Risk => "risk",
            Field::Reward => "reward",
            Field::Rr => "rr",
            Field::Pnl => "pnl",
            Field::Fees => "fees",
            Field::Strategy => "strategy",
            Field::Session => "session",
            Field::Notes => "notes",
        }
    }

    /// Whether every journal must provide this field.
    pub fn required(&self) -> (r: bool)
        ensures
            r == field_required(*self),
    {
        match self {
            Field::Date | Field::Symbol | Field::Pnl => true,
            _ => false,
        }
    }

    /// One-line description used by the `inspect` command so the AI layer
    /// knows what each canonical field means.
    pub fn description(&self) -> (r: &'static str)
        ensures
            r@ == field_description(*self),
    {
        match self {
            Field::Date => "trade date, or full open datetime (time is extracted automatically)",
            Field::Time => "trade open time (HH:MM or HH:MM:SS) when stored separately from the date",
            Field::Symbol => "instrument / pair / ticker, e.g. EURUSD",
            Field::Direction => "trade direction: long/short, buy/sell, b/s",
            Field::Entry => "entry price",
            Field::Exit => "exit price",
            Field::PositionSize => "position size: lots, quantity, volume, units, contracts",
            Field::Risk => "money risked on the trade",
            Field::Reward => "planned reward / target amount",
            Field::Rr => "realized risk-reward multiple (R)",
            Field::Pnl => "realized profit/loss of the trade (required)",
            Field::Fees => "commissions / fees / swap costs (sign is ignored)",
            Field::Strategy => "strategy / setup / playbook name",
            Field::Session => "market session label (London, New York, Asia, Overlap)",
            Field::Notes => "free-form trade notes",
        }
    }

    /// Every field, in priority order.
    pub fn all() -> (r: &'static [Field])
        ensures
            r@ == all_fields(),
    {
        let r: &'static [Field] = &[
            Field::Date,
            Field::Time,
            Field::Symbol,
            Field::Direction,
            Field::Entry,
            Field::Exit,
            Field::PositionSize,
            Field::Risk,
            Field::Reward,
            Field::Rr,
            Field::Pnl,
            Field::Fees,
            Field::Strategy,
            Field::Session,
            Field::Notes,
        ];
        assert(r@ =~= all_fields());
        r
    }

    /// Known header aliases (lowercased, stripped of spaces/`_`/`-`/`.`),
    /// in priority order. Aliases only propose a mapping: content must
    /// confirm it.
    pub fn aliases(&self) -> (r: &'static [&'static str])
        ensures
            views(r@) == field_aliases(*self),
    {
        match self {
            Field::Date => {
                let r: &'static [&'static str] = &["date", "opendate", "entrydate", "tradedate", "day", "opentime", "datetime", "timeopened", "created", "open"];
                assert(views(r@) =~= field_aliases(*self));
                r
            },
            Field::Time => {
                let r: &'static [&'static str] = &["time", "entrytime", "timeofday"];
                assert(views(r@) =~= field_aliases(*self));
                r
            },
            Field::Symbol => {
                let r: &'static [&'static str] = &["symbol", "pair", "instrument", "ticker", "market", "asset", "currencypair", "product"];
                assert(views(r@) =~= field_aliases(*self));
                r
            },
            Field::Direction => {
                let r: &'static [&'static str] = &["direction", "side", "type", "position", "buysell", "longshort", "action"];
                assert(views(r@) =~= field_aliases(*self));
                r
            },
            Field::Entry => {
                let r: &'static [&'static str] = &["entry", "entryprice", "open", "openprice", "pricein", "avgentry", "price"];
                assert(views(r@) =~= field_aliases(*self));
                r
            },
            Field::Exit => {
                let r: &'static [&'static str] = &["exit", "exitprice", "close", "closeprice", "priceout", "avgexit", "price"];
                assert(views(r@) =~= field_aliases(*self));
                r
            },
            Field::PositionSize => {
                let r: &'static [&'static str] = &["positionsize", "size", "lots", "lotsize", "quantity", "qty", "volume", "units", "contracts", "shares"];
                assert(views(r@) =~= field_aliases(*self));
                r
            },
            Field::Risk => {
                let r: &'static [&'static str] = &["risk", "riskamount", "riskusd", "risked", "riskpercent", "risk$", "riskpertrade"];
                assert(views(r@) =~= field_aliases(*self));
                r
            },
            Field::Reward => {
                let r: &'static [&'static str] = &["reward", "rewardamount", "target", "targetamount", "plannedreward"];
                assert(views(r@) =~= field_aliases(*self));
                r
            },
            Field::Rr => {
                let r: &'static [&'static str] = &["rr", "riskreward", "riskrewardratio", "rmultiple", "rmultiples", "realizedrr", "plannedrr", "ratio"];
                assert(views(r@) =~= field_aliases(*self));
                r
            },
            Field::Pnl => {
                let r: &'static [&'static str] = &["pnl", "pl", "profit", "profitloss", "netpnl", "netprofit", "result", "gain", "realizedpnl", "netgain", "return"];
                assert(views(r@) =~= field_aliases(*self));
                r
            },
            Field::Fees => {
                let r: &'static [&'static str] = &["fees", "fee", "commission", "commissions", "costs", "cost", "swap"];
                assert(views(r@) =~= field_aliases(*self));
                r
            },
            Field::Strategy => {
                let r: &'static [&'static str] = &["strategy", "setup", "system", "playbook", "model", "setupname", "edge"];
                assert(views(r@) =~= field_aliases(*self));
                r
            },
            Field::Session => {
                let r: &'static [&'static str] = &["session", "marketsession", "killzone", "tradingsession"];
                assert(views(r@) =~= field_aliases(*self));
                r
            },
            Field::Notes => {
                let r: &'static [&'static str] = &["notes", "note", "comment", "comments", "remarks", "journal", "description", "mistakes"];
                assert(views(r@) =~= field_aliases(*self));
                r
            },
        }
    }
}

/// [`field_index`] is the position in [`all_fields`].
pub proof fn lemma_field_index_of(i: int)
    requires
        0 <= i < 15,
    ensures
        field_index(all_fields()[i]) == i,
{
}

} // verus!
