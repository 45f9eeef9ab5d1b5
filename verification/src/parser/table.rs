//! Reading the raw table: decoding the bytes, detecting the delimiter and
//! splitting the text into a header row and records.

use vstd::prelude::*;
use vstd::utf8::{decode_utf8, valid_utf8};
use crate::text::{chars_of, is_whitespace, string_views, trim, trimmed};

verus! {

/// The text encoding a file was decoded with.
#[derive(Debug, Clone, Copy, PartialEq, Eq, Structural)]
pub enum Encoding {
    Utf8,
    Latin1,
}

impl Encoding {
    /// Name used in diagnostics and the inspect output.
    pub fn name(&self) -> (r: &'static str)
        ensures
            r@ == encoding_name(*self),
    {
        match self {
            Encoding::Utf8 => "utf-8",
            Encoding::Latin1 => "latin-1",
        }
    }
}

/// Name of an encoding.
pub open spec fn encoding_name(e: Encoding) -> Seq<char> {
    match e {
        Encoding::Utf8 => "utf-8"@,
        Encoding::Latin1 => "latin-1"@,
    }
}

/// The bytes without a leading UTF-8 byte order mark.
pub open spec fn without_bom(b: Seq<u8>) -> Seq<u8> {
    if b.len() >= 3 && b[0] == 0xEFu8 && b[1] == 0xBBu8 && b[2] == 0xBFu8 {
        b.skip(3)
    } else {
        b
    }
}

/// Latin-1 reading of bytes: each byte is the code point of one character.
pub open spec fn latin1(b: Seq<u8>) -> Seq<char> {
    b.map_values(|x: u8| x as char)
}

/// The decoded text: UTF-8 when the bytes (after an optional BOM) are valid
/// UTF-8, Latin-1 otherwise.
pub open spec fn decoded(bytes: Seq<u8>) -> (Seq<char>, Encoding) {
    let b = without_bom(bytes);
    if valid_utf8(b) {
        (decode_utf8(b), Encoding::Utf8)
    } else {
        (latin1(b), Encoding::Latin1)
    }
}

/// `std::str::from_utf8`, owned: the text when the bytes are valid UTF-8.
#[verifier::external_body]
fn utf8_text(bytes: &[u8]) -> (r: Option<String>)
    ensures
        r is Some <==> valid_utf8(bytes@),
        r matches Some(s) ==> s@ == decode_utf8(bytes@),
{
    match std::str::from_utf8(bytes) {
        Ok(s) => Some(s.to_string()),
        Err(_) => None,
    }
}

/// Decode bytes as UTF-8 (with optional BOM) or fall back to Latin-1.
pub fn decode(bytes: &[u8]) -> (r: (String, Encoding))
    ensures
        r.0@ == decoded(bytes@).0,
        r.1 == decoded(bytes@).1,
{
    let start: usize = if bytes.len() >= 3 && bytes[0] == 0xEF && bytes[1] == 0xBB && bytes[2] == 0xBF {
        3
    } else {
        0
    };
    let mut b: Vec<u8> = Vec::new();
    let mut i: usize = start;
    while i < bytes.len()
        invariant
            start <= i <= bytes@.len(),
            b@ == bytes@.subrange(start as int, i as int),
        decreases bytes@.len() - i,
    {
        b.push(bytes[i]);
        i = i + 1;
        assert(b@ =~= bytes@.subrange(start as int, i as int));
    }
    assert(b@ =~= without_bom(bytes@));
    match utf8_text(b.as_slice()) {
        Some(s) => (s, Encoding::Utf8),
        None => {
            let mut cs: Vec<char> = Vec::new();
            let mut k: usize = 0;
            while k < b.len()
                invariant
                    k <= b@.len(),
                    cs@ == latin1(b@.take(k as int)),
                decreases b@.len() - k,
            {
                cs.push(b[k] as char);
                k = k + 1;
                assert(cs@ =~= latin1(b@.take(k as int)));
            }
            assert(b@.take(b@.len() as int) =~= b@);
            (crate::text::string_of(cs.as_slice()), Encoding::Latin1)
        },
    }
}

/// A completed line loses one trailing carriage return.
pub open spec fn strip_cr(l: Seq<char>) -> Seq<char> {
    if l.len() > 0 && l.last() == '\r' {
        l.drop_last()
    } else {
        l
    }
}

/// The lines completed by a newline so far, and the line in progress.
pub open spec fn scan_lines(s: Seq<char>) -> (Seq<Seq<char>>, Seq<char>)
    decreases s.len(),
{
    if s.len() == 0 {
        (Seq::empty(), Seq::empty())
    } else {
        let p = scan_lines(s.drop_last());
        if s.last() == '\n' {
            (p.0.push(strip_cr(p.1)), Seq::empty())
        } else {
            (p.0, p.1.push(s.last()))
        }
    }
}

/// The lines of a text, as `str::lines` yields them: split at `\n`, a
/// `\r` before the `\n` removed, no empty line after a final newline.
pub open spec fn text_lines(s: Seq<char>) -> Seq<Seq<char>> {
    let p = scan_lines(s);
    if p.1.len() > 0 {
        p.0.push(p.1)
    } else {
        p.0
    }
}

/// The lines that are not blank.
pub open spec fn nonblank(ls: Seq<Seq<char>>) -> Seq<Seq<char>>
    decreases ls.len(),
{
    if ls.len() == 0 {
        ls
    } else if trim(ls.last()).len() > 0 {
        nonblank(ls.drop_last()).push(ls.last())
    } else {
        nonblank(ls.drop_last())
    }
}

/// The first `n` elements, or all when there are fewer.
pub open spec fn first_n<T>(s: Seq<T>, n: nat) -> Seq<T> {
    if s.len() <= n {
        s
    } else {
        s.take(n as int)
    }
}

/// How often `c` occurs in `l`.
pub open spec fn count_char(l: Seq<char>, c: char) -> nat
    decreases l.len(),
{
    if l.len() == 0 {
        0
    } else {
        count_char(l.drop_last(), c) + if l.last() == c {
            1nat
        } else {
            0nat
        }
    }
}

/// The smallest count of `c` over the lines (0 without lines).
pub open spec fn fewest(ls: Seq<Seq<char>>, c: char) -> nat
    decreases ls.len(),
{
    if ls.len() == 0 {
        0
    } else if ls.len() == 1 {
        count_char(ls[0], c)
    } else {
        let m = fewest(ls.drop_last(), c);
        let k = count_char(ls.last(), c);
        if k < m {
            k
        } else {
            m
        }
    }
}

/// The candidate delimiters, in priority order.
pub open spec fn delimiter_candidates() -> Seq<char> {
    seq![',', ';', '\t', '|']
}

/// Best (delimiter, count) among the first `n` candidates: a candidate
/// needs to appear on every line, and replaces the best so far only with a
/// strictly higher count.
pub open spec fn best_delimiter(ls: Seq<Seq<char>>, n: nat) -> (char, nat)
    decreases n,
{
    if n == 0 {
        (',', 0)
    } else {
        let b = best_delimiter(ls, (n - 1) as nat);
        let c = delimiter_candidates()[n - 1];
        let m = fewest(ls, c);
        if m > 0 && m > b.1 {
            (c, m)
        } else {
            b
        }
    }
}

/// The delimiter detected in a text: over its first ten non-blank lines,
/// the candidate with the highest count that appears on every line; `,`
/// when none does.
pub open spec fn detected_delimiter(content: Seq<char>) -> char {
    best_delimiter(first_n(nonblank(text_lines(content)), 10), 4).0
}

/// The detected delimiter is always one of the candidates.
pub proof fn law_delimiter_is_candidate(content: Seq<char>)
    ensures
        delimiter_candidates().contains(detected_delimiter(content)),
{
    let ls = first_n(nonblank(text_lines(content)), 10);
    lemma_best_is_candidate(ls, 4);
}

proof fn lemma_best_is_candidate(ls: Seq<Seq<char>>, n: nat)
    requires
        n <= 4,
    ensures
        delimiter_candidates().contains(best_delimiter(ls, n).0),
    decreases n,
{
    assert(delimiter_candidates()[0] == ',');
    if n > 0 {
        lemma_best_is_candidate(ls, (n - 1) as nat);
        assert(delimiter_candidates()[n - 1] == delimiter_candidates()[n - 1]);
    }
}

/// The views of a list of character vectors.
pub open spec fn char_vec_views(v: Seq<Vec<char>>) -> Seq<Seq<char>> {
    v.map_values(|x: Vec<char>| x@)
}

fn count_in(l: &[char], c: char) -> (r: usize)
    ensures
        r == count_char(l@, c),
{
    let mut n: usize = 0;
    let mut i: usize = 0;
    while i < l.len()
        invariant
            i <= l@.len(),
            n == count_char(l@.take(i as int), c),
            n <= i,
        decreases l@.len() - i,
    {
        assert(l@.take(i + 1).drop_last() =~= l@.take(i as int));
        if l[i] == c {
            n = n + 1;
        }
        i = i + 1;
    }
    assert(l@.take(l@.len() as int) =~= l@);
    n
}

/// The non-blank lines of a text, at most `max` of them.
fn sample_lines(content: &str, max: usize) -> (r: Vec<Vec<char>>)
    ensures
        char_vec_views(r@) == first_n(nonblank(text_lines(content@)), max as nat),
{
    let cs = chars_of(content);
    let mut all: Vec<Vec<char>> = Vec::new();
    let mut cur: Vec<char> = Vec::new();
    let mut i: usize = 0;
    while i < cs.len()
        invariant
            i <= cs@.len(),
            cs@ == content@,
            (char_vec_views(all@), cur@) == scan_lines(cs@.take(i as int)),
        decreases cs@.len() - i,
    {
        let c = cs[i];
        assert(cs@.take(i + 1).drop_last() =~= cs@.take(i as int));
        let ghost before = char_vec_views(all@);
        if c == '\n' {
            let mut line: Vec<char> = Vec::new();
            std::mem::swap(&mut line, &mut cur);
            if line.len() > 0 && line[line.len() - 1] == '\r' {
                line.pop();
            }
            all.push(line);
            assert(char_vec_views(all@) =~= before.push(strip_cr(scan_lines(cs@.take(i as int)).1)));
        } else {
            cur.push(c);
        }
        i = i + 1;
    }
    assert(cs@.take(i as int) =~= cs@);
    if cur.len() > 0 {
        let ghost before = char_vec_views(all@);
        all.push(cur);
        assert(char_vec_views(all@) =~= before.push(scan_lines(cs@).1));
    }
    let ghost lines = char_vec_views(all@);
    assert(lines == text_lines(content@));
    // keep the non-blank ones
    let mut kept: Vec<Vec<char>> = Vec::new();
    let mut j: usize = 0;
    while j < all.len()
        invariant
            j <= all@.len(),
            lines == char_vec_views(all@),
            char_vec_views(kept@) == nonblank(lines.take(j as int)),
        decreases all@.len() - j,
    {
        assert(lines.take(j + 1).drop_last() =~= lines.take(j as int));
        let t = trimmed(all[j].as_slice());
        if t.len() > 0 {
            let ghost before = char_vec_views(kept@);
            let l = copy_chars(all[j].as_slice());
            kept.push(l);
            assert(char_vec_views(kept@) =~= before.push(lines[j as int]));
        }
        j = j + 1;
    }
    assert(lines.take(j as int) =~= lines);
    let ghost nb = char_vec_views(kept@);
    let mut out: Vec<Vec<char>> = Vec::new();
    let mut k: usize = 0;
    while k < kept.len() && k < max
        invariant
            k <= kept@.len(),
            k <= max,
            nb == char_vec_views(kept@),
            char_vec_views(out@) =~= nb.take(k as int),
        decreases kept@.len() - k,
    {
        let ghost before = char_vec_views(out@);
        let l = copy_chars(kept[k].as_slice());
        out.push(l);
        assert(char_vec_views(out@) =~= before.push(nb[k as int]));
        assert(nb.take(k + 1) =~= nb.take(k as int).push(nb[k as int]));
        k = k + 1;
    }
    assert(char_vec_views(out@) =~= first_n(nb, max as nat));
    out
}

/// A copy of a character slice.
fn copy_chars(v: &[char]) -> (r: Vec<char>)
    ensures
        r@ == v@,
{
    let mut r: Vec<char> = Vec::new();
    let mut i: usize = 0;
    while i < v.len()
        invariant
            i <= v@.len(),
            r@ == v@.take(i as int),
        decreases v@.len() - i,
    {
        r.push(v[i]);
        i = i + 1;
        assert(r@ =~= v@.take(i as int));
    }
    assert(v@.take(v@.len() as int) =~= v@);
    r
}

fn fewest_in(ls: &[Vec<char>], c: char) -> (r: usize)
    ensures
        r == fewest(char_vec_views(ls@), c),
{
    let ghost lv = char_vec_views(ls@);
    if ls.len() == 0 {
        return 0;
    }
    let mut m = count_in(ls[0].as_slice(), c);
    assert(lv.take(1).len() == 1 && lv.take(1)[0] == lv[0]);
    let mut i: usize = 1;
    while i < ls.len()
        invariant
            1 <= i <= ls@.len(),
            lv == char_vec_views(ls@),
            m == fewest(lv.take(i as int), c),
        decreases ls@.len() - i,
    {
        assert(lv.take(i + 1).drop_last() =~= lv.take(i as int));
        assert(lv.take(i + 1).last() == lv[i as int]);
        let k = count_in(ls[i].as_slice(), c);
        if k < m {
            m = k;
        }
        i = i + 1;
    }
    assert(lv.take(i as int) =~= lv);
    m
}

/// Pick the delimiter with the highest consistent count across the first
/// ten non-blank lines; `,` when no candidate appears on every line.
pub fn detect_delimiter(content: &str) -> (r: char)
    ensures
        r == detected_delimiter(content@),
{
    let lines = sample_lines(content, 10);
    let ghost lv = char_vec_views(lines@);
    let cands: [char; 4] = [',', ';', '\t', '|'];
    assert(cands@ == delimiter_candidates());
    let mut best: char = ',';
    let mut best_n: usize = 0;
    let mut i: usize = 0;
    while i < 4
        invariant
            i <= 4,
            cands@ == delimiter_candidates(),
            lv == char_vec_views(lines@),
            (best, best_n as nat) == best_delimiter(lv, i as nat),
        decreases 4 - i,
    {
        let c = cands[i];
        let m = fewest_in(lines.as_slice(), c);
        assert(((i + 1) as nat - 1) as nat == i as nat);
        if m > 0 && m > best_n {
            best = c;
            best_n = m;
        }
        i = i + 1;
    }
    best
}


/// The error type of the `csv` crate.
#[verifier::external_type_specification]
#[verifier::external_body]
pub struct ExCsvError(csv::Error);

/// What the `csv` reader (given delimiter byte, flexible record lengths,
/// every field trimmed) reads as the header row of a text; `None` when it
/// reports an error.
pub uninterp spec fn csv_header_row(content: Seq<char>, delimiter: u8) -> Option<Seq<Seq<char>>>;

/// What the same reader yields after the header row: one entry per record,
/// `None` for a record it reports an error on.
pub uninterp spec fn csv_record_list(content: Seq<char>, delimiter: u8) -> Seq<Option<Seq<Seq<char>>>>;

/// `csv::Reader::headers` on a reader built by `csv::ReaderBuilder` with the
/// delimiter, `flexible(true)` and `Trim::All`: the header fields as
/// strings, or the reader's error. The contract only names the result.
#[verifier::external_body]
fn read_csv_headers(content: &str, delimiter: u8) -> (r: Result<Vec<String>, csv::Error>)
    ensures
        match r {
            Ok(h) => csv_header_row(content@, delimiter) == Some(string_views(h@)),
            Err(_) => csv_header_row(content@, delimiter) is None,
        },
{
    let mut reader = csv::ReaderBuilder::new().delimiter(delimiter).flexible(true).trim(
        csv::Trim::All,
    ).from_reader(content.as_bytes());
    match reader.headers() {
        Ok(h) => Ok(h.iter().map(|f| f.to_string()).collect()),
        Err(e) => Err(e),
    }
}

/// `csv::Reader::records` on a reader built the same way: every record
/// after the header row, each as its fields or `None` where the reader
/// reported an error. The contract only names the result.
#[verifier::external_body]
fn read_csv_records(content: &str, delimiter: u8) -> (r: Vec<Option<Vec<String>>>)
    ensures
        record_views(r@) == csv_record_list(content@, delimiter),
{
    let mut reader = csv::ReaderBuilder::new().delimiter(delimiter).flexible(true).trim(
        csv::Trim::All,
    ).from_reader(content.as_bytes());
    reader.records().map(|rec| rec.ok().map(|r| r.iter().map(|f| f.to_string()).collect())).collect()
}

/// The views of a list of records that may have failed to read.
pub open spec fn record_views(v: Seq<Option<Vec<String>>>) -> Seq<Option<Seq<Seq<char>>>> {
    v.map_values(|o: Option<Vec<String>>| match o {
        Some(r) => Some(string_views(r@)),
        None => None,
    })
}

/// A record with at least one non-blank field.
pub open spec fn has_content(r: Seq<Seq<char>>) -> bool {
    exists|i: int| 0 <= i < r.len() && trim(#[trigger] r[i]).len() > 0
}

/// The records that were read without error and are not entirely blank.
pub open spec fn kept_records(rs: Seq<Option<Seq<Seq<char>>>>) -> Seq<Seq<Seq<char>>>
    decreases rs.len(),
{
    if rs.len() == 0 {
        Seq::empty()
    } else {
        let k = kept_records(rs.drop_last());
        match rs.last() {
            Some(r) => if has_content(r) {
                k.push(r)
            } else {
                k
            },
            None => k,
        }
    }
}

/// The byte a delimiter character stands for (its code point truncated to
/// eight bits, as `char as u8` gives).
pub open spec fn delimiter_byte(c: char) -> u8 {
    ((c as u32) % 256) as u8
}

/// Why no table could be read.
#[derive(Debug, Clone, Copy, PartialEq, Eq, Structural)]
pub enum TableError {
    /// The text is empty or only whitespace.
    Empty,
    /// The CSV reader could not read a header row.
    Headers,
}

/// A decoded CSV table: headers and the non-empty records.
pub struct Table {
    pub headers: Vec<String>,
    pub records: Vec<Vec<String>>,
    pub delimiter: char,
    pub encoding: Encoding,
}

/// The first character of an optional setting, as `as_deref().and_then(|d|
/// d.chars().next())` gives it.
pub open spec fn first_char(o: Option<Seq<char>>) -> Option<char> {
    match o {
        Some(s) => if s.len() > 0 {
            Some(s[0])
        } else {
            None
        },
        None => None,
    }
}

/// The first character of an optional setting.
pub fn first_char_of(o: &Option<String>) -> (r: Option<char>)
    ensures
        r == first_char(crate::config::opt_view(*o)),
{
    match o {
        Some(s) => {
            let cs = chars_of(s.as_str());
            if cs.len() > 0 {
                Some(cs[0])
            } else {
                None
            }
        },
        None => None,
    }
}

/// The table read from decoded text, or why there is none.
pub open spec fn table_of(content: Seq<char>, forced: Option<char>) -> Result<(Seq<Seq<char>>, Seq<Seq<Seq<char>>>, char), TableError> {
    if trim(content).len() == 0 {
        Err(TableError::Empty)
    } else {
        let d = match forced {
            Some(c) => c,
            None => detected_delimiter(content),
        };
        match csv_header_row(content, delimiter_byte(d)) {
            None => Err(TableError::Headers),
            Some(h) => Ok((h, kept_records(csv_record_list(content, delimiter_byte(d))), d)),
        }
    }
}

fn any_content(r: &Vec<String>) -> (b: bool)
    ensures
        b == has_content(string_views(r@)),
{
    let ghost rv = string_views(r@);
    let mut i: usize = 0;
    while i < r.len()
        invariant
            i <= r@.len(),
            rv == string_views(r@),
            forall|j: int| 0 <= j < i ==> trim(#[trigger] rv[j]).len() == 0,
        decreases r@.len() - i,
    {
        let t = trimmed(chars_of(r[i].as_str()).as_slice());
        assert(rv[i as int] == r@[i as int]@);
        if t.len() > 0 {
            return true;
        }
        i = i + 1;
    }
    false
}

/// Split decoded text into headers and records: the delimiter is the forced
/// one or the detected one; unreadable and entirely blank records are
/// dropped.
pub fn read_table_text(content: &str, forced: Option<char>, encoding: Encoding) -> (r: Result<Table, TableError>)
    ensures
        match table_of(content@, forced) {
            Ok(t) => r matches Ok(tab) && string_views(tab.headers@) == t.0 && crate::parser::columns::rows_view(tab.records@) == t.1
                && tab.delimiter == t.2 && tab.encoding == encoding,
            Err(e) => r == Err::<Table, TableError>(e),
        },
{
    let t = trimmed(chars_of(content).as_slice());
    if t.len() == 0 {
        return Err(TableError::Empty);
    }
    let d = match forced {
        Some(c) => c,
        None => detect_delimiter(content),
    };
    let byte = ((d as u32) % 256) as u8;
    assert(byte == delimiter_byte(d));
    let headers = match read_csv_headers(content, byte) {
        Ok(h) => h,
        Err(_) => return Err(TableError::Headers),
    };
    let all = read_csv_records(content, byte);
    let ghost av = record_views(all@);
    let mut records: Vec<Vec<String>> = Vec::new();
    let mut i: usize = 0;
    while i < all.len()
        invariant
            i <= all@.len(),
            av == record_views(all@),
            crate::parser::columns::rows_view(records@) == kept_records(av.take(i as int)),
        decreases all@.len() - i,
    {
        assert(av.take(i + 1).drop_last() =~= av.take(i as int));
        match &all[i] {
            Some(rec) => {
                if any_content(rec) {
                    let ghost before = crate::parser::columns::rows_view(records@);
                    let copy = copy_strings(rec);
                    records.push(copy);
                    assert(crate::parser::columns::rows_view(records@) =~= before.push(string_views(rec@)));
                }
            },
            None => {},
        }
        i = i + 1;
    }
    assert(av.take(i as int) =~= av);
    Ok(Table { headers, records, delimiter: d, encoding })
}

/// A copy of a list of strings.
pub fn copy_strings(v: &Vec<String>) -> (r: Vec<String>)
    ensures
        string_views(r@) == string_views(v@),
{
    let mut r: Vec<String> = Vec::new();
    let mut i: usize = 0;
    while i < v.len()
        invariant
            i <= v@.len(),
            string_views(r@) =~= string_views(v@).take(i as int),
        decreases v@.len() - i,
    {
        let ghost before = string_views(r@);
        let s = crate::text::string_of(chars_of(v[i].as_str()).as_slice());
        r.push(s);
        assert(string_views(r@) =~= before.push(v@[i as int]@));
        i = i + 1;
    }
    assert(string_views(v@).take(i as int) =~= string_views(v@));
    r
}

/// Decode the bytes of a CSV file and split them into headers and records.
pub fn read_table(bytes: &[u8], forced: Option<char>) -> (r: Result<Table, TableError>)
    ensures
        match table_of(decoded(bytes@).0, forced) {
            Ok(t) => r matches Ok(tab) && string_views(tab.headers@) == t.0 && crate::parser::columns::rows_view(tab.records@) == t.1
                && tab.delimiter == t.2 && tab.encoding == decoded(bytes@).1,
            Err(e) => r == Err::<Table, TableError>(e),
        },
{
    let (content, encoding) = decode(bytes);
    read_table_text(content.as_str(), forced, encoding)
}

} // verus!
