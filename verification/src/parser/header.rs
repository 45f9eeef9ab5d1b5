//! Header normalization: the form in which header names are compared with
//! field aliases.

use vstd::prelude::*;
use crate::text::{chars_of, is_ws, lower, lower_char, lowered, string_of, trim, trim_end, trim_start, trimmed};

verus! {

/// Characters that survive header normalization: ASCII letters and digits,
/// and `$`.
pub open spec fn header_char(c: char) -> bool {
    ('0' <= c && c <= '9') || ('a' <= c && c <= 'z') || ('A' <= c && c <= 'Z') || c == '$'
}

/// `s` with every character that is not a [`header_char`] removed.
pub open spec fn keep_header_chars(s: Seq<char>) -> Seq<char>
    decreases s.len(),
{
    if s.len() == 0 {
        s
    } else if header_char(s.last()) {
        keep_header_chars(s.drop_last()).push(s.last())
    } else {
        keep_header_chars(s.drop_last())
    }
}

/// A header name as it is compared with aliases: trimmed, ASCII
/// lower-cased, and reduced to letters, digits and `$`.
pub open spec fn normalized_header(h: Seq<char>) -> Seq<char> {
    keep_header_chars(lower(trim(h)))
}

/// Normalize a header name for alias matching.
pub fn normalize_header(header: &str) -> (r: String)
    ensures
        r@ == normalized_header(header@),
{
    let v = chars_of(header);
    let t = trimmed(v.as_slice());
    let l = lowered(t.as_slice());
    let mut out: Vec<char> = Vec::new();
    let mut i: usize = 0;
    while i < l.len()
        invariant
            i <= l.len(),
            out@ == keep_header_chars(l@.take(i as int)),
        decreases l.len() - i,
    {
        let c = l[i];
        assert(l@.take(i + 1).drop_last() =~= l@.take(i as int));
        if ('0' <= c && c <= '9') || ('a' <= c && c <= 'z') || ('A' <= c && c <= 'Z') || c == '$' {
            out.push(c);
        }
        i = i + 1;
    }
    assert(l@.take(l.len() as int) =~= l@);
    string_of(out.as_slice())
}

proof fn lemma_kept_chars(s: Seq<char>)
    ensures
        forall|i: int|
            0 <= i < keep_header_chars(s).len() ==> header_char(#[trigger] keep_header_chars(s)[i]),
        forall|i: int|
            0 <= i < keep_header_chars(s).len() ==> s.contains(#[trigger] keep_header_chars(s)[i]),
    decreases s.len(),
{
    if s.len() > 0 {
        lemma_kept_chars(s.drop_last());
        assert forall|i: int| 0 <= i < keep_header_chars(s).len() implies s.contains(
            #[trigger] keep_header_chars(s)[i],
        ) by {
            let k = keep_header_chars(s.drop_last());
            if i < k.len() {
                let c = k[i];
                let j = choose|j: int| 0 <= j < s.drop_last().len() && s.drop_last()[j] == c;
                assert(s[j] == c);
            } else {
                assert(s[s.len() - 1] == s.last());
            }
        }
    }
}

proof fn lemma_keep_all(s: Seq<char>)
    requires
        forall|i: int| 0 <= i < s.len() ==> header_char(#[trigger] s[i]),
    ensures
        keep_header_chars(s) == s,
    decreases s.len(),
{
    if s.len() > 0 {
        lemma_keep_all(s.drop_last());
        assert(s.drop_last().push(s.last()) =~= s);
    }
}

proof fn lemma_lower_keeps_lowercase(s: Seq<char>)
    requires
        forall|i: int| 0 <= i < s.len() ==> !('A' <= #[trigger] s[i] && s[i] <= 'Z'),
    ensures
        lower(s) == s,
{
    assert(lower(s) =~= s);
}

proof fn lemma_lower_no_upper(s: Seq<char>)
    ensures
        forall|i: int| 0 <= i < lower(s).len() ==> !('A' <= #[trigger] lower(s)[i] && lower(s)[i] <= 'Z'),
{
    assert forall|i: int| 0 <= i < lower(s).len() implies !('A' <= #[trigger] lower(s)[i] && lower(s)[i]
        <= 'Z') by {
        let c = s[i];
        if 'A' <= c && c <= 'Z' {
            assert((c as u32) + 32 >= 97);
        }
    }
}

proof fn lemma_trim_no_ws(s: Seq<char>)
    requires
        forall|i: int| 0 <= i < s.len() ==> !is_ws(#[trigger] s[i]),
    ensures
        trim(s) == s,
{
    if s.len() > 0 {
        assert(!is_ws(s[0]));
        assert(trim_start(s) == s);
        assert(!is_ws(s[s.len() - 1]));
        assert(trim_end(s) == s);
    } else {
        assert(trim_start(s) == s);
        assert(trim_end(s) == s);
    }
}

/// Normalizing a header twice gives the same name as normalizing it once.
pub proof fn law_normalize_header_idempotent(h: Seq<char>)
    ensures
        normalized_header(normalized_header(h)) == normalized_header(h),
{
    let l = lower(trim(h));
    let n = keep_header_chars(l);
    lemma_kept_chars(l);
    lemma_lower_no_upper(trim(h));
    assert forall|i: int| 0 <= i < n.len() implies !is_ws(#[trigger] n[i]) by {
        assert(header_char(n[i]));
    }
    lemma_trim_no_ws(n);
    assert forall|i: int| 0 <= i < n.len() implies !('A' <= #[trigger] n[i] && n[i] <= 'Z') by {
        assert(l.contains(n[i]));
        let j = choose|j: int| 0 <= j < l.len() && l[j] == n[i];
        assert(!('A' <= l[j] && l[j] <= 'Z'));
    }
    lemma_lower_keeps_lowercase(n);
    lemma_keep_all(n);
}

} // verus!
