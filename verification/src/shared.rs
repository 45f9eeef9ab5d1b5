//! Core domain values shared by every module: trade direction, market
//! session and the outcome class of a PnL figure.

use vstd::prelude::*;
use crate::text::{chars_of, is_text, is_ws, lower, lowered, trim, trimmed};

verus! {

/// Trade direction.
#[derive(Debug, Clone, Copy, PartialEq, Eq, Structural)]
pub enum Direction {
    Long,
    Short,
}

/// The direction that a raw cell names, after trimming and ASCII
/// lower-casing: long/buy/b/l/bought or short/sell/s/sold.
pub open spec fn direction_of(raw: Seq<char>) -> Option<Direction> {
    let n = lower(trim(raw));
    if n == "long"@ || n == "buy"@ || n == "b"@ || n == "l"@ || n == "bought"@ {
        Some(Direction::Long)
    } else if n == "short"@ || n == "sell"@ || n == "s"@ || n == "sold"@ {
        Some(Direction::Short)
    } else {
        None
    }
}

impl Direction {
    /// Parse broker export variants: long/short, buy/sell, b/s, l/s.
    pub fn parse(raw: &str) -> (r: Option<Direction>)
        ensures
            r == direction_of(raw@),
    {
        let v = chars_of(raw);
        let t = trimmed(v.as_slice());
        let n = lowered(t.as_slice());
        let n = n.as_slice();
        if is_text(n, "long") || is_text(n, "buy") || is_text(n, "b") || is_text(n, "l")
            || is_text(n, "bought") {
            Some(Direction::Long)
        } else if is_text(n, "short") || is_text(n, "sell") || is_text(n, "s") || is_text(
            n,
            "sold",
        ) {
            Some(Direction::Short)
        } else {
            None
        }
    }
}

/// Market session. `Overlap` is the London/New York overlap.
#[derive(Debug, Clone, Copy, PartialEq, Eq, Hash, Structural)]
pub enum Session {
    Asia,
    London,
    Overlap,
    NewYork,
    Other,
}

/// Characters dropped from a session cell before matching.
pub open spec fn is_session_sep(c: char) -> bool {
    c == ' ' || c == '-' || c == '_'
}

/// `s` with every space, `-` and `_` removed.
pub open spec fn strip_session_seps(s: Seq<char>) -> Seq<char>
    decreases s.len(),
{
    if s.len() == 0 {
        s
    } else if is_session_sep(s.last()) {
        strip_session_seps(s.drop_last())
    } else {
        strip_session_seps(s.drop_last()).push(s.last())
    }
}

/// The session that a raw cell names; `None` for an empty cell and
/// `Other` for any unknown label.
pub open spec fn session_of(raw: Seq<char>) -> Option<Session> {
    let s = strip_session_seps(lower(trim(raw)));
    if s == "asia"@ || s == "asian"@ || s == "tokyo"@ || s == "sydney"@ {
        Some(Session::Asia)
    } else if s == "london"@ || s == "ldn"@ || s == "eu"@ || s == "europe"@ || s
        == "frankfurt"@ {
        Some(Session::London)
    } else if s == "overlap"@ || s == "londonnewyork"@ || s == "londonny"@ || s == "nylondon"@ {
        Some(Session::Overlap)
    } else if s == "newyork"@ || s == "ny"@ || s == "us"@ || s == "nyc"@ || s == "america"@ || s
        == "newyorkam"@ || s == "newyorkpm"@ {
        Some(Session::NewYork)
    } else if s.len() == 0 {
        None
    } else {
        Some(Session::Other)
    }
}

/// Machine label of a session (JSON exchange format).
pub open spec fn session_label(s: Session) -> Seq<char> {
    match s {
        Session::Asia => "asia"@,
        Session::London => "london"@,
        Session::Overlap => "overlap"@,
        Session::NewYork => "new_york"@,
        Session::Other => "other"@,
    }
}

/// Human label of a session (Markdown reports).
pub open spec fn session_display(s: Session) -> Seq<char> {
    match s {
        Session::Asia => "Asia"@,
        Session::London => "London"@,
        Session::Overlap => "Overlap"@,
        Session::NewYork => "New York"@,
        Session::Other => "Other"@,
    }
}

fn without_session_seps(v: &[char]) -> (r: Vec<char>)
    ensures
        r@ == strip_session_seps(v@),
{
    let mut r: Vec<char> = Vec::new();
    let mut i: usize = 0;
    while i < v.len()
        invariant
            i <= v.len(),
            r@ == strip_session_seps(v@.take(i as int)),
        decreases v.len() - i,
    {
        let c = v[i];
        assert(v@.take(i + 1).drop_last() =~= v@.take(i as int));
        if !(c == ' ' || c == '-' || c == '_') {
            r.push(c);
        }
        i = i + 1;
    }
    assert(v@.take(v.len() as int) =~= v@);
    r
}

impl Session {
    /// Every session, in report order.
    pub const ALL: [Session; 5] = [
        Session::Asia,
        Session::London,
        Session::Overlap,
        Session::NewYork,
        Session::Other,
    ];

    /// Stable machine label used in the JSON exchange format.
    pub fn label(&self) -> (r: &'static str)
        ensures
            r@ == session_label(*self),
    {
        match self {
            Session::Asia => "asia",
            Session::London => "london",
            Session::Overlap => "overlap",
            Session::NewYork => "new_york",
            Session::Other => "other",
        }
    }

    /// Human label used in Markdown reports.
    pub fn display(&self) -> (r: &'static str)
        ensures
            r@ == session_display(*self),
    {
        match self {
            Session::Asia => "Asia",
            Session::London => "London",
            Session::Overlap => "Overlap",
            Session::NewYork => "New York",
            Session::Other => "Other",
        }
    }

    /// Parse a session value from a CSV column.
    pub fn parse(raw: &str) -> (r: Option<Session>)
        ensures
            r == session_of(raw@),
    {
        let v = chars_of(raw);
        let t = trimmed(v.as_slice());
        let l = lowered(t.as_slice());
        let s = without_session_seps(l.as_slice());
        let s = s.as_slice();
        if is_text(s, "asia") || is_text(s, "asian") || is_text(s, "tokyo") || is_text(s, "sydney") {
            Some(Session::Asia)
        } else if is_text(s, "london") || is_text(s, "ldn") || is_text(s, "eu") || is_text(
            s,
            "europe",
        ) || is_text(s, "frankfurt") {
            Some(Session::London)
        } else if is_text(s, "overlap") || is_text(s, "londonnewyork") || is_text(s, "londonny")
            || is_text(s, "nylondon") {
            Some(Session::Overlap)
        } else if is_text(s, "newyork") || is_text(s, "ny") || is_text(s, "us") || is_text(s, "nyc")
            || is_text(s, "america") || is_text(s, "newyorkam") || is_text(s, "newyorkpm") {
            Some(Session::NewYork)
        } else if s.len() == 0 {
            None
        } else {
            Some(Session::Other)
        }
    }
}

proof fn lemma_trim_keeps(s: Seq<char>)
    requires
        s.len() > 0,
        !is_ws(s[0]),
        !is_ws(s.last()),
    ensures
        trim(s) == s,
{
}

proof fn lemma_strip_keeps(s: Seq<char>)
    requires
        forall|i: int| 0 <= i < s.len() ==> !is_session_sep(#[trigger] s[i]),
    ensures
        strip_session_seps(s) == s,
    decreases s.len(),
{
    if s.len() > 0 {
        lemma_strip_keeps(s.drop_last());
        assert(s.drop_last().push(s.last()) =~= s);
    }
}

proof fn lemma_strip_drops_sep(p: Seq<char>, c: char, q: Seq<char>)
    requires
        forall|i: int| 0 <= i < p.len() ==> !is_session_sep(#[trigger] p[i]),
        forall|i: int| 0 <= i < q.len() ==> !is_session_sep(#[trigger] q[i]),
        is_session_sep(c),
    ensures
        strip_session_seps(p.push(c) + q) == p + q,
    decreases q.len(),
{
    if q.len() == 0 {
        assert(p.push(c) + q =~= p.push(c));
        assert(p.push(c).drop_last() =~= p);
        lemma_strip_keeps(p);
        assert(p + q =~= p);
    } else {
        let q0 = q.drop_last();
        lemma_strip_drops_sep(p, c, q0);
        assert((p.push(c) + q).drop_last() =~= p.push(c) + q0);
        assert((p + q0).push(q.last()) =~= p + q);
    }
}

proof fn lemma_session_text(t: Seq<char>, l: Seq<char>)
    requires
        t.len() > 0,
        !is_ws(t[0]),
        !is_ws(t.last()),
        lower(t) == l,
        forall|i: int| 0 <= i < l.len() ==> !is_session_sep(#[trigger] l[i]),
    ensures
        strip_session_seps(lower(trim(t))) == l,
{
    lemma_trim_keeps(t);
    lemma_strip_keeps(l);
}

/// Every session's machine label and display label parse back to that
/// session.
pub proof fn law_session_labels_parse_back(s: Session)
    ensures
        session_of(session_label(s)) == Some(s),
        session_of(session_display(s)) == Some(s),
{
    reveal_strlit("asia");
    reveal_strlit("asian");
    reveal_strlit("tokyo");
    reveal_strlit("sydney");
    reveal_strlit("london");
    reveal_strlit("ldn");
    reveal_strlit("eu");
    reveal_strlit("europe");
    reveal_strlit("frankfurt");
    reveal_strlit("overlap");
    reveal_strlit("londonnewyork");
    reveal_strlit("londonny");
    reveal_strlit("nylondon");
    reveal_strlit("newyork");
    reveal_strlit("ny");
    reveal_strlit("us");
    reveal_strlit("nyc");
    reveal_strlit("america");
    reveal_strlit("newyorkam");
    reveal_strlit("newyorkpm");
    reveal_strlit("Asia");
    reveal_strlit("london");
    reveal_strlit("London");
    reveal_strlit("overlap");
    reveal_strlit("Overlap");
    reveal_strlit("new_york");
    reveal_strlit("New York");
    reveal_strlit("newyork");
    reveal_strlit("other");
    reveal_strlit("Other");
    match s {
        Session::Asia => {
            assert(lower("Asia"@) =~= "asia"@);
            assert(lower("asia"@) =~= "asia"@);
            lemma_session_text("Asia"@, "asia"@);
            lemma_session_text("asia"@, "asia"@);
            assert(strip_session_seps(lower(trim("asia"@))) == "asia"@);
            assert(session_of("asia"@) == Some(Session::Asia));
        },
        Session::London => {
            assert(lower("London"@) =~= "london"@);
            assert(lower("london"@) =~= "london"@);
            lemma_session_text("London"@, "london"@);
            lemma_session_text("london"@, "london"@);
            assert(session_of("london"@) == Some(Session::London));
            assert(session_of("London"@) == Some(Session::London));
        },
        Session::Overlap => {
            assert(lower("Overlap"@) =~= "overlap"@);
            assert(lower("overlap"@) =~= "overlap"@);
            lemma_session_text("Overlap"@, "overlap"@);
            lemma_session_text("overlap"@, "overlap"@);
            assert(session_of("overlap"@) == Some(Session::Overlap));
            assert(session_of("Overlap"@) == Some(Session::Overlap));
        },
        Session::NewYork => {
            let a = "new_york"@;
            let b = "New York"@;
            reveal_strlit("new york");
            reveal_strlit("york");
            reveal_strlit("new");
            lemma_trim_keeps(a);
            lemma_trim_keeps(b);
            assert(lower(a) =~= a);
            assert(lower(b) =~= "new york"@);
            assert(a =~= "new"@.push('_') + "york"@);
            assert("new york"@ =~= "new"@.push(' ') + "york"@);
            lemma_strip_drops_sep("new"@, '_', "york"@);
            lemma_strip_drops_sep("new"@, ' ', "york"@);
            assert("new"@ + "york"@ =~= "newyork"@);
            assert(session_of(a) == Some(Session::NewYork));
            assert(session_of(b) == Some(Session::NewYork));
        },
        Session::Other => {
            assert(lower("Other"@) =~= "other"@);
            assert(lower("other"@) =~= "other"@);
            lemma_session_text("Other"@, "other"@);
            lemma_session_text("other"@, "other"@);
            assert(session_of("other"@) == Some(Session::Other));
            assert(session_of("Other"@) == Some(Session::Other));
        },
    }
}

/// Direction parsing ignores ASCII case and surrounding whitespace.
pub proof fn law_direction_ignores_case_and_padding(raw: Seq<char>)
    ensures
        direction_of(lower(raw)) == direction_of(raw),
        direction_of(trim(raw)) == direction_of(raw),
{
    crate::text::lemma_trim_lower(raw);
    crate::text::lemma_lower_twice(trim(raw));
    crate::text::lemma_trim_twice(raw);
}

/// Session parsing ignores ASCII case and surrounding whitespace.
pub proof fn law_session_ignores_case_and_padding(raw: Seq<char>)
    ensures
        session_of(lower(raw)) == session_of(raw),
        session_of(trim(raw)) == session_of(raw),
{
    crate::text::lemma_trim_lower(raw);
    crate::text::lemma_lower_twice(trim(raw));
    crate::text::lemma_trim_twice(raw);
}

} // verus!
