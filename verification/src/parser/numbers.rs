//! Number cells: cleaning of currency symbols and separators, and the
//! decimal syntax that decides whether a cleaned cell is a number. The
//! numeric value itself is read outside the library.

use vstd::prelude::*;
use crate::text::{chars_of, is_text, lower, lowered, string_of, trim, trimmed};

verus! {

/// Characters ignored in a number cell: currency symbols, `%`, spaces and
/// the plus sign.
pub open spec fn number_junk(c: char) -> bool {
    c == '$' || c == '€' || c == '£' || c == '%' || c == ' ' || c == '\u{a0}' || c == '+'
}

/// `s` without its [`number_junk`] characters.
pub open spec fn drop_junk(s: Seq<char>) -> Seq<char>
    decreases s.len(),
{
    if s.len() == 0 {
        s
    } else if number_junk(s.last()) {
        drop_junk(s.drop_last())
    } else {
        drop_junk(s.drop_last()).push(s.last())
    }
}

/// `s` without any occurrence of `d`.
pub open spec fn drop_char(s: Seq<char>, d: char) -> Seq<char>
    decreases s.len(),
{
    if s.len() == 0 {
        s
    } else if s.last() == d {
        drop_char(s.drop_last(), d)
    } else {
        drop_char(s.drop_last(), d).push(s.last())
    }
}

/// `s` with every `,` replaced by `.`.
pub open spec fn comma_to_dot(s: Seq<char>) -> Seq<char> {
    s.map_values(|c: char| if c == ',' { '.' } else { c })
}

/// The text handed to the float parser for a raw number cell, or `None`
/// when nothing numeric is left. With a `,` decimal separator, `.` groups
/// thousands (`1.234,56`); otherwise `,` does (`1,234.56`).
pub open spec fn number_text(raw: Seq<char>, decimal_separator: char) -> Option<Seq<char>> {
    let cleaned = drop_junk(trim(raw));
    if cleaned.len() == 0 || cleaned == seq!['-'] {
        None
    } else if decimal_separator == ',' {
        Some(comma_to_dot(drop_char(cleaned, '.')))
    } else {
        Some(drop_char(cleaned, ','))
    }
}

/// An ASCII digit.
pub open spec fn is_digit(c: char) -> bool {
    '0' <= c && c <= '9'
}

/// Every character of `s` is an ASCII digit.
pub open spec fn all_digits(s: Seq<char>) -> bool {
    forall|i: int| 0 <= i < s.len() ==> is_digit(#[trigger] s[i])
}

/// `Digit+ | Digit+ '.' Digit* | Digit* '.' Digit+`.
pub open spec fn float_mantissa(s: Seq<char>) -> bool {
    ||| s.len() > 0 && all_digits(s)
    ||| s.len() > 1 && exists|k: int|
        0 <= k < s.len() && s[k] == '.' && all_digits(s.take(k)) && all_digits(s.skip(k + 1))
}

/// `[+-]? Digit+`.
pub open spec fn float_exponent(s: Seq<char>) -> bool {
    let d = if s.len() > 0 && (s[0] == '+' || s[0] == '-') {
        s.drop_first()
    } else {
        s
    };
    d.len() > 0 && all_digits(d)
}

/// `Mantissa ('e' Exponent)?`.
pub open spec fn float_number(s: Seq<char>) -> bool {
    ||| float_mantissa(s)
    ||| exists|k: int|
        0 <= k < s.len() && s[k] == 'e' && float_mantissa(s.take(k)) && float_exponent(
            s.skip(k + 1),
        )
}

/// The grammar that the standard float parser accepts, applied to the ASCII
/// lower-cased text: an optional sign, then `inf`, `infinity`, `nan` or a
/// decimal number with an optional exponent. Whitespace is not accepted.
pub open spec fn float_literal(s: Seq<char>) -> bool {
    let t = lower(s);
    let b = if t.len() > 0 && (t[0] == '+' || t[0] == '-') {
        t.drop_first()
    } else {
        t
    };
    b == "inf"@ || b == "infinity"@ || b == "nan"@ || float_number(b)
}

fn is_digit_char(c: char) -> (r: bool)
    ensures
        r == is_digit(c),
{
    '0' <= c && c <= '9'
}

fn digits_only(v: &[char]) -> (r: bool)
    ensures
        r == all_digits(v@),
{
    let mut i: usize = 0;
    while i < v.len()
        invariant
            i <= v.len(),
            forall|k: int| 0 <= k < i ==> is_digit(#[trigger] v@[k]),
        decreases v.len() - i,
    {
        if !is_digit_char(v[i]) {
            return false;
        }
        i = i + 1;
    }
    true
}

fn slice_of(v: &[char], lo: usize, hi: usize) -> (r: Vec<char>)
    requires
        lo <= hi <= v.len(),
    ensures
        r@ == v@.subrange(lo as int, hi as int),
{
    let mut r: Vec<char> = Vec::new();
    let mut i: usize = lo;
    while i < hi
        invariant
            lo <= i <= hi,
            hi <= v.len(),
            r@ == v@.subrange(lo as int, i as int),
        decreases hi - i,
    {
        r.push(v[i]);
        i = i + 1;
        assert(r@ =~= v@.subrange(lo as int, i as int));
    }
    r
}

fn mantissa_ok(v: &[char]) -> (r: bool)
    ensures
        r == float_mantissa(v@),
{
    let n = v.len();
    let mut dots: usize = 0;
    let mut dot_at: usize = 0;
    let mut i: usize = 0;
    while i < n
        invariant
            i <= n,
            n == v@.len(),
            dots <= 1,
            dots == 0 ==> forall|k: int| 0 <= k < i ==> is_digit(#[trigger] v@[k]),
            dots == 1 ==> dot_at < i && v@[dot_at as int] == '.',
            dots == 1 ==> forall|k: int|
                0 <= k < i && k != dot_at ==> is_digit(#[trigger] v@[k]),
        decreases n - i,
    {
        let c = v[i];
        if c == '.' {
            if dots == 1 {
                assert(!float_mantissa(v@)) by {
                    if v@.len() > 0 && all_digits(v@) {
                        assert(is_digit(v@[i as int]));
                    }
                    if exists|k: int|
                        0 <= k < v@.len() && v@[k] == '.' && all_digits(v@.take(k)) && all_digits(
                            v@.skip(k + 1),
                        ) {
                        let k = choose|k: int|
                            0 <= k < v@.len() && v@[k] == '.' && all_digits(v@.take(k))
                                && all_digits(v@.skip(k + 1));
                        if k < dot_at {
                            assert(v@.skip(k + 1)[dot_at - k - 1] == v@[dot_at as int]);
                        } else if k == dot_at {
                            assert(v@.skip(k + 1)[i - k - 1] == v@[i as int]);
                        } else {
                            assert(v@.take(k)[dot_at as int] == v@[dot_at as int]);
                        }
                    }
                }
                return false;
            }
            dots = 1;
            dot_at = i;
        } else if !is_digit_char(c) {
            assert(!float_mantissa(v@)) by {
                if exists|k: int|
                    0 <= k < v@.len() && v@[k] == '.' && all_digits(v@.take(k)) && all_digits(
                        v@.skip(k + 1),
                    ) {
                    let k = choose|k: int|
                        0 <= k < v@.len() && v@[k] == '.' && all_digits(v@.take(k)) && all_digits(
                            v@.skip(k + 1),
                        );
                    if k < i {
                        assert(v@.skip(k + 1)[i - k - 1] == v@[i as int]);
                    } else {
                        assert(v@.take(k)[i as int] == v@[i as int]);
                    }
                }
            }
            return false;
        }
        i = i + 1;
    }
    if dots == 0 {
        if n == 0 {
            return false;
        }
        true
    } else {
        if n <= 1 {
            return false;
        }
        assert(all_digits(v@.take(dot_at as int)));
        assert(all_digits(v@.skip(dot_at + 1))) by {
            assert forall|k: int| 0 <= k < v@.skip(dot_at + 1).len() implies is_digit(
                #[trigger] v@.skip(dot_at + 1)[k],
            ) by {
                assert(v@.skip(dot_at + 1)[k] == v@[dot_at + 1 + k]);
            }
        }
        assert(!all_digits(v@)) by {
            assert(!is_digit(v@[dot_at as int]));
        }
        true
    }
}

fn exponent_ok(v: &[char]) -> (r: bool)
    ensures
        r == float_exponent(v@),
{
    if v.len() > 0 && (v[0] == '+' || v[0] == '-') {
        let d = slice_of(v, 1, v.len());
        assert(d@ =~= v@.drop_first());
        d.len() > 0 && digits_only(d.as_slice())
    } else {
        v.len() > 0 && digits_only(v)
    }
}

fn number_ok(v: &[char]) -> (r: bool)
    ensures
        r == float_number(v@),
{
    let n = v.len();
    let mut i: usize = 0;
    while i < n && v[i] != 'e'
        invariant
            i <= n,
            n == v@.len(),
            forall|k: int| 0 <= k < i ==> v@[k] != 'e',
        decreases n - i,
    {
        i = i + 1;
    }
    if i == n {
        let r = mantissa_ok(v);
        assert(!exists|k: int|
            0 <= k < v@.len() && v@[k] == 'e' && float_mantissa(v@.take(k)) && float_exponent(
                v@.skip(k + 1),
            ));
        r
    } else {
        let head = slice_of(v, 0, i);
        let tail = slice_of(v, i + 1, n);
        assert(head@ =~= v@.take(i as int));
        assert(tail@ =~= v@.skip(i + 1));
        let r = mantissa_ok(head.as_slice()) && exponent_ok(tail.as_slice());
        assert(!float_mantissa(v@)) by {
            assert(!is_digit(v@[i as int]));
            if exists|k: int|
                0 <= k < v@.len() && v@[k] == '.' && all_digits(v@.take(k)) && all_digits(
                    v@.skip(k + 1),
                ) {
                let k = choose|k: int|
                    0 <= k < v@.len() && v@[k] == '.' && all_digits(v@.take(k)) && all_digits(
                        v@.skip(k + 1),
                    );
                if k < i {
                    assert(v@.skip(k + 1)[i - k - 1] == v@[i as int]);
                } else {
                    assert(v@.take(k)[i as int] == v@[i as int]);
                }
            }
        }
        assert(r == float_number(v@)) by {
            if exists|k: int|
                0 <= k < v@.len() && v@[k] == 'e' && float_mantissa(v@.take(k)) && float_exponent(
                    v@.skip(k + 1),
                ) {
                let k = choose|k: int|
                    0 <= k < v@.len() && v@[k] == 'e' && float_mantissa(v@.take(k))
                        && float_exponent(v@.skip(k + 1));
                if k > i {
                    let t = v@.take(k);
                    assert(t[i as int] == 'e');
                    assert(!is_digit(t[i as int]));
                    if t.len() > 1 && exists|j: int|
                        0 <= j < t.len() && t[j] == '.' && all_digits(t.take(j)) && all_digits(
                            t.skip(j + 1),
                        ) {
                        let j = choose|j: int|
                            0 <= j < t.len() && t[j] == '.' && all_digits(t.take(j)) && all_digits(
                                t.skip(j + 1),
                            );
                        if j < i {
                            assert(t.skip(j + 1)[i - j - 1] == t[i as int]);
                        } else {
                            assert(t.take(j)[i as int] == t[i as int]);
                        }
                    }
                }
            }
        }
        r
    }
}

/// Whether `s` is text that the standard float parser accepts: [`float_literal`].
pub fn is_float_literal(s: &[char]) -> (r: bool)
    ensures
        r == float_literal(s@),
{
    let t = lowered(s);
    let b = if t.len() > 0 && (t[0] == '+' || t[0] == '-') {
        let b = slice_of(t.as_slice(), 1, t.len());
        assert(b@ =~= t@.drop_first());
        b
    } else {
        t
    };
    let b = b.as_slice();
    is_text(b, "inf") || is_text(b, "infinity") || is_text(b, "nan") || number_ok(b)
}

fn without_junk(v: &[char]) -> (r: Vec<char>)
    ensures
        r@ == drop_junk(v@),
{
    let mut r: Vec<char> = Vec::new();
    let mut i: usize = 0;
    while i < v.len()
        invariant
            i <= v.len(),
            r@ == drop_junk(v@.take(i as int)),
        decreases v.len() - i,
    {
        let c = v[i];
        assert(v@.take(i + 1).drop_last() =~= v@.take(i as int));
        if !(c == '$' || c == '€' || c == '£' || c == '%' || c == ' ' || c == '\u{a0}' || c == '+') {
            r.push(c);
        }
        i = i + 1;
    }
    assert(v@.take(v.len() as int) =~= v@);
    r
}

fn without_char(v: &[char], d: char) -> (r: Vec<char>)
    ensures
        r@ == drop_char(v@, d),
{
    let mut r: Vec<char> = Vec::new();
    let mut i: usize = 0;
    while i < v.len()
        invariant
            i <= v.len(),
            r@ == drop_char(v@.take(i as int), d),
        decreases v.len() - i,
    {
        let c = v[i];
        assert(v@.take(i + 1).drop_last() =~= v@.take(i as int));
        if c != d {
            r.push(c);
        }
        i = i + 1;
    }
    assert(v@.take(v.len() as int) =~= v@);
    r
}

fn commas_to_dots(v: &[char]) -> (r: Vec<char>)
    ensures
        r@ == comma_to_dot(v@),
{
    let mut r: Vec<char> = Vec::new();
    let mut i: usize = 0;
    while i < v.len()
        invariant
            i <= v.len(),
            r@ == comma_to_dot(v@.take(i as int)),
        decreases v.len() - i,
    {
        let c = v[i];
        r.push(if c == ',' { '.' } else { c });
        i = i + 1;
        assert(r@ =~= comma_to_dot(v@.take(i as int)));
    }
    assert(v@.take(v.len() as int) =~= v@);
    r
}

/// The cleaned text of a number cell, ready for the float parser; `None`
/// when the cell holds no number at all (empty, or a lone `-`).
pub fn number_text_of(raw: &str, decimal_separator: char) -> (r: Option<String>)
    ensures
        r matches Some(t) ==> number_text(raw@, decimal_separator) == Some(t@),
        r is None ==> number_text(raw@, decimal_separator) is None,
{
    let v = chars_of(raw);
    let t = trimmed(v.as_slice());
    let cleaned = without_junk(t.as_slice());
    if cleaned.len() == 0 || (cleaned.len() == 1 && cleaned[0] == '-') {
        assert(cleaned.len() == 1 ==> cleaned@ =~= seq!['-']);
        return None;
    }
    assert(cleaned@ != seq!['-']) by {
        if cleaned@ == seq!['-'] {
            assert(cleaned@[0] == '-');
        }
    }
    if decimal_separator == ',' {
        let d = without_char(cleaned.as_slice(), '.');
        let n = commas_to_dots(d.as_slice());
        Some(string_of(n.as_slice()))
    } else {
        let n = without_char(cleaned.as_slice(), ',');
        Some(string_of(n.as_slice()))
    }
}

/// Whether a cell parses as a number with the given decimal separator.
pub open spec fn parses_number(raw: Seq<char>, decimal_separator: char) -> bool {
    match number_text(raw, decimal_separator) {
        Some(t) => float_literal(t),
        None => false,
    }
}

/// Whether the cell parses as a number under either separator convention.
pub open spec fn numeric_cell(raw: Seq<char>) -> bool {
    parses_number(raw, '.') || parses_number(raw, ',')
}

/// Whether a cell parses as a number with the given decimal separator.
pub fn is_number(raw: &str, decimal_separator: char) -> (r: bool)
    ensures
        r == parses_number(raw@, decimal_separator),
{
    match number_text_of(raw, decimal_separator) {
        Some(t) => {
            let v = chars_of(t.as_str());
            is_float_literal(v.as_slice())
        },
        None => false,
    }
}

/// Whether the cell looks like a number under either separator convention.
pub fn looks_numeric(raw: &str) -> (r: bool)
    ensures
        r == numeric_cell(raw@),
{
    is_number(raw, '.') || is_number(raw, ',')
}

} // verus!
