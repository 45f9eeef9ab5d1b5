//! Configuration values. Every field has a sensible default so the tool
//! works with no config file at all.

use vstd::prelude::*;
use crate::parser::dates::{chrono_time, naive_time, DayTime};
use crate::shared::Session;
use crate::text::{chars_of, same_chars, string_of, trim, trimmed};

verus! {

/// The map that a list of (key, value) entries denotes: later entries win.
pub open spec fn entries_map(s: Seq<(Seq<char>, Seq<char>)>) -> Map<Seq<char>, Seq<char>>
    decreases s.len(),
{
    if s.len() == 0 {
        Map::empty()
    } else {
        entries_map(s.drop_last()).insert(s.last().0, s.last().1)
    }
}

/// The entries' keys are pairwise distinct.
pub open spec fn distinct_keys(s: Seq<(Seq<char>, Seq<char>)>) -> bool {
    forall|i: int, j: int| 0 <= i < j < s.len() ==> #[trigger] s[i].0 != #[trigger] s[j].0
}

/// The views of (String, String) entries.
pub open spec fn entry_views(v: Seq<(String, String)>) -> Seq<(Seq<char>, Seq<char>)> {
    v.map_values(|e: (String, String)| (e.0@, e.1@))
}

proof fn lemma_entries_map_lookup(s: Seq<(Seq<char>, Seq<char>)>, i: int)
    requires
        distinct_keys(s),
        0 <= i < s.len(),
    ensures
        entries_map(s).contains_key(s[i].0),
        entries_map(s)[s[i].0] == s[i].1,
    decreases s.len(),
{
    if i < s.len() - 1 {
        lemma_entries_map_lookup(s.drop_last(), i);
        assert(s.drop_last()[i] == s[i]);
    }
}

proof fn lemma_entries_map_absent(s: Seq<(Seq<char>, Seq<char>)>, k: Seq<char>)
    requires
        forall|i: int| 0 <= i < s.len() ==> (#[trigger] s[i]).0 != k,
    ensures
        !entries_map(s).contains_key(k),
    decreases s.len(),
{
    if s.len() > 0 {
        lemma_entries_map_absent(s.drop_last(), k);
    }
}

proof fn lemma_entries_map_update(s: Seq<(Seq<char>, Seq<char>)>, i: int, v: Seq<char>)
    requires
        distinct_keys(s),
        0 <= i < s.len(),
    ensures
        entries_map(s.update(i, (s[i].0, v))) == entries_map(s).insert(s[i].0, v),
    decreases s.len(),
{
    let k = s[i].0;
    let t = s.update(i, (k, v));
    if i == s.len() - 1 {
        assert(t.drop_last() =~= s.drop_last());
        assert(entries_map(t) =~= entries_map(s).insert(k, v));
    } else {
        lemma_entries_map_update(s.drop_last(), i, v);
        assert(t.drop_last() =~= s.drop_last().update(i, (k, v)));
        assert(s.last().0 != k);
        assert(entries_map(t) =~= entries_map(s).insert(k, v));
    }
}

/// Header overrides: canonical field name -> CSV header name (exact, or
/// `col:<index>`). Keys are distinct.
pub struct ColumnMapping {
    entries: Vec<(String, String)>,
}

impl View for ColumnMapping {
    type V = Map<Seq<char>, Seq<char>>;

    closed spec fn view(&self) -> Map<Seq<char>, Seq<char>> {
        entries_map(entry_views(self.entries@))
    }
}

impl ColumnMapping {
    #[verifier::type_invariant]
    closed spec fn wf(self) -> bool {
        distinct_keys(entry_views(self.entries@))
    }

    /// An empty mapping.
    pub fn new() -> (m: ColumnMapping)
        ensures
            m@ == Map::<Seq<char>, Seq<char>>::empty(),
    {
        let m = ColumnMapping { entries: Vec::new() };
        assert(entry_views(m.entries@) =~= Seq::<(Seq<char>, Seq<char>)>::empty());
        m
    }

    fn find(&self, key: &str) -> (r: Option<usize>)
        ensures
            match r {
                Some(i) => i < self.entries@.len() && self.entries@[i as int].0@ == key@,
                None => forall|i: int|
                    0 <= i < self.entries@.len() ==> (#[trigger] self.entries@[i]).0@ != key@,
            },
    {
        let k = chars_of(key);
        let mut i: usize = 0;
        while i < self.entries.len()
            invariant
                i <= self.entries@.len(),
                k@ == key@,
                forall|j: int| 0 <= j < i ==> (#[trigger] self.entries@[j]).0@ != key@,
            decreases self.entries@.len() - i,
        {
            let c = chars_of(self.entries[i].0.as_str());
            if same_chars(c.as_slice(), k.as_slice()) {
                return Some(i);
            }
            i = i + 1;
        }
        None
    }

    /// The header that a field name is mapped to.
    pub fn get(&self, key: &str) -> (r: Option<String>)
        ensures
            match r {
                Some(v) => self@.contains_key(key@) && self@[key@] == v@,
                None => !self@.contains_key(key@),
            },
    {
        proof {
            use_type_invariant(self);
        }
        let ghost s = entry_views(self.entries@);
        match self.find(key) {
            Some(i) => {
                proof {
                    lemma_entries_map_lookup(s, i as int);
                }
                Some(self.entries[i].1.clone())
            },
            None => {
                proof {
                    assert forall|j: int| 0 <= j < s.len() implies (#[trigger] s[j]).0 != key@ by {
                        assert(s[j].0 == self.entries@[j].0@);
                    }
                    lemma_entries_map_absent(s, key@);
                }
                None
            },
        }
    }

    /// Map `key` to `value`, replacing any earlier value of `key`.
    pub fn insert(&mut self, key: &str, value: &str)
        ensures
            final(self)@ == old(self)@.insert(key@, value@),
    {
        proof {
            use_type_invariant(&*self);
        }
        let ghost s = entry_views(self.entries@);
        let k = string_of(chars_of(key).as_slice());
        let v = string_of(chars_of(value).as_slice());
        match self.find(key) {
            Some(i) => {
                let mut entries: Vec<(String, String)> = Vec::new();
                std::mem::swap(&mut entries, &mut self.entries);
                proof {
                    lemma_entries_map_update(s, i as int, v@);
                }
                entries.set(i, (k, v));
                assert(entry_views(entries@) =~= s.update(i as int, (s[i as int].0, v@)));
                self.entries = entries;
            },
            None => {
                let mut entries: Vec<(String, String)> = Vec::new();
                std::mem::swap(&mut entries, &mut self.entries);
                entries.push((k, v));
                assert(entry_views(entries@) =~= s.push((key@, value@)));
                assert(s.push((key@, value@)).drop_last() =~= s);
                assert(entries_map(s.push((key@, value@))) == entries_map(s).insert(key@, value@));
                self.entries = entries;
            },
        }
    }

    fn cloned_entries(&self) -> (r: Vec<(String, String)>)
        ensures
            entry_views(r@) == entry_views(self.entries@),
    {
        let mut r: Vec<(String, String)> = Vec::new();
        let mut i: usize = 0;
        while i < self.entries.len()
            invariant
                i <= self.entries@.len(),
                entry_views(r@) == entry_views(self.entries@.take(i as int)),
            decreases self.entries@.len() - i,
        {
            let k = self.entries[i].0.clone();
            let v = self.entries[i].1.clone();
            assert(k@ == self.entries@[i as int].0@ && v@ == self.entries@[i as int].1@);
            let ghost before = r@;
            r.push((k, v));
            assert(entry_views(r@) =~= entry_views(before).push((k@, v@)));
            assert(self.entries@.take(i + 1) =~= self.entries@.take(i as int).push(self.entries@[i as int]));
            i = i + 1;
            assert(entry_views(r@) =~= entry_views(self.entries@.take(i as int)));
        }
        assert(self.entries@.take(i as int) =~= self.entries@);
        r
    }

    /// The (key, value) entries, each key once.
    pub fn entries(&self) -> (r: Vec<(String, String)>)
        ensures
            entries_map(entry_views(r@)) == self@,
            distinct_keys(entry_views(r@)),
    {
        proof {
            use_type_invariant(self);
        }
        self.cloned_entries()
    }

    /// A copy of this mapping.
    pub fn duplicate(&self) -> (r: ColumnMapping)
        ensures
            r@ == self@,
    {
        proof {
            use_type_invariant(self);
        }
        let entries = self.cloned_entries();
        ColumnMapping { entries }
    }

    /// This mapping overlaid with `other`: entries of `other` win.
    pub fn overlaid(&self, other: &ColumnMapping) -> (r: ColumnMapping)
        ensures
            r@ == self@.union_prefer_right(other@),
    {
        proof {
            use_type_invariant(other);
        }
        let mut r = self.duplicate();
        let ghost os = entry_views(other.entries@);
        let mut i: usize = 0;
        while i < other.entries.len()
            invariant
                i <= other.entries@.len(),
                os == entry_views(other.entries@),
                distinct_keys(os),
                r@ == self@.union_prefer_right(entries_map(os.take(i as int))),
            decreases other.entries@.len() - i,
        {
            assert(os.take(i + 1).drop_last() =~= os.take(i as int));
            r.insert(other.entries[i].0.as_str(), other.entries[i].1.as_str());
            i = i + 1;
            assert(r@ =~= self@.union_prefer_right(entries_map(os.take(i as int))));
        }
        assert(os.take(i as int) =~= os);
        r
    }
}

/// The view of an optional string.
pub open spec fn opt_view(o: Option<String>) -> Option<Seq<char>> {
    match o {
        Some(s) => Some(s@),
        None => None,
    }
}

fn copy_opt(o: &Option<String>) -> (r: Option<String>)
    ensures
        opt_view(r) == opt_view(*o),
{
    match o {
        Some(s) => Some(s.clone()),
        None => None,
    }
}

fn first_set(a: &Option<String>, b: &Option<String>) -> (r: Option<String>)
    ensures
        opt_view(r) == if a is Some {
            opt_view(*a)
        } else {
            opt_view(*b)
        },
{
    if a.is_some() {
        copy_opt(a)
    } else {
        copy_opt(b)
    }
}

/// How CSV files are read: forced delimiter, date format and decimal
/// separator (auto-detected when unset), the day-first preference for
/// ambiguous dates, and header overrides.
pub struct CsvConfig {
    /// Force a delimiter instead of auto-detection (e.g. ";").
    pub delimiter: Option<String>,
    /// Force a chrono date format (e.g. "%d-%m-%Y") instead of auto-detection.
    pub date_format: Option<String>,
    /// Force a decimal separator ("." or ",") instead of auto-detection.
    pub decimal_separator: Option<String>,
    /// When a date like 02/03/2026 is ambiguous, prefer day-first (EU)
    /// parsing; unset means day-first.
    pub prefer_day_first: Option<bool>,
    /// Header overrides: canonical field -> exact CSV header name or
    /// `col:<index>`.
    pub mapping: ColumnMapping,
}

impl Default for CsvConfig {
    fn default() -> (r: CsvConfig)
        ensures
            r.delimiter is None,
            r.date_format is None,
            r.decimal_separator is None,
            r.prefer_day_first is None,
            day_first(r),
            r.mapping@ == Map::<Seq<char>, Seq<char>>::empty(),
    {
        CsvConfig {
            delimiter: None,
            date_format: None,
            decimal_separator: None,
            prefer_day_first: None,
            mapping: ColumnMapping::new(),
        }
    }
}

/// Whether ambiguous dates are read day-first: the setting, or day-first
/// when it is unset.
pub open spec fn day_first(c: CsvConfig) -> bool {
    match c.prefer_day_first {
        Some(b) => b,
        None => true,
    }
}

impl CsvConfig {
    /// Whether ambiguous dates are read day-first (the default when the
    /// setting is unset).
    pub fn prefers_day_first(&self) -> (r: bool)
        ensures
            r == day_first(*self),
    {
        match self.prefer_day_first {
            Some(b) => b,
            None => true,
        }
    }

    /// Overlay `other` on top of `self`: set fields in `other` win, mapping
    /// entries are merged with `other` taking precedence.
    pub fn merged_with(&self, other: &CsvConfig) -> (r: CsvConfig)
        ensures
            opt_view(r.delimiter) == if other.delimiter is Some {
                opt_view(other.delimiter)
            } else {
                opt_view(self.delimiter)
            },
            opt_view(r.date_format) == if other.date_format is Some {
                opt_view(other.date_format)
            } else {
                opt_view(self.date_format)
            },
            opt_view(r.decimal_separator) == if other.decimal_separator is Some {
                opt_view(other.decimal_separator)
            } else {
                opt_view(self.decimal_separator)
            },
            r.prefer_day_first == if other.prefer_day_first is Some {
                other.prefer_day_first
            } else {
                self.prefer_day_first
            },
            r.mapping@ == self.mapping@.union_prefer_right(other.mapping@),
    {
        CsvConfig {
            delimiter: first_set(&other.delimiter, &self.delimiter),
            date_format: first_set(&other.date_format, &self.date_format),
            decimal_separator: first_set(&other.decimal_separator, &self.decimal_separator),
            prefer_day_first: if other.prefer_day_first.is_some() {
                other.prefer_day_first
            } else {
                self.prefer_day_first
            },
            mapping: self.mapping.overlaid(&other.mapping),
        }
    }
}

/// Overlaying the same mapping twice changes nothing more than overlaying
/// it once.
pub proof fn law_overlay_twice(base: Map<Seq<char>, Seq<char>>, overlay: Map<Seq<char>, Seq<char>>)
    ensures
        base.union_prefer_right(overlay).union_prefer_right(overlay) == base.union_prefer_right(
            overlay,
        ),
{
    assert(base.union_prefer_right(overlay).union_prefer_right(overlay) =~= base.union_prefer_right(
        overlay,
    ));
}

/// Informational settings.
pub struct GeneralConfig {
    /// Timezone label stored in report metadata. Trade times are interpreted
    /// as-is (broker/journal local time).
    pub timezone: String,
}

impl Default for GeneralConfig {
    fn default() -> (r: GeneralConfig)
        ensures
            r.timezone@ == "UTC"@,
    {
        GeneralConfig { timezone: string_of(chars_of("UTC").as_slice()) }
    }
}

/// Where the Obsidian vault lives and how it is laid out.
pub struct VaultConfig {
    /// Obsidian vault root. Created if missing.
    pub path: String,
    pub analyses_dir: String,
    pub dashboard_dir: String,
    pub templates_dir: String,
    pub assets_dir: String,
}

impl Default for VaultConfig {
    fn default() -> (r: VaultConfig)
        ensures
            r.path@ == "./TradingVault"@,
            r.analyses_dir@ == "Analyses"@,
            r.dashboard_dir@ == "Dashboard"@,
            r.templates_dir@ == "Templates"@,
            r.assets_dir@ == "Assets"@,
    {
        VaultConfig {
            path: string_of(chars_of("./TradingVault").as_slice()),
            analyses_dir: string_of(chars_of("Analyses").as_slice()),
            dashboard_dir: string_of(chars_of("Dashboard").as_slice()),
            templates_dir: string_of(chars_of("Templates").as_slice()),
            assets_dir: string_of(chars_of("Assets").as_slice()),
        }
    }
}

/// `s` ends with `t`.
pub open spec fn ends_with(s: Seq<char>, t: Seq<char>) -> bool {
    s.len() >= t.len() && s.subrange(s.len() - t.len(), s.len() as int) == t
}

/// `s` with every trailing `.toml` removed (what `trim_end_matches(".toml")`
/// gives).
pub open spec fn without_toml(s: Seq<char>) -> Seq<char>
    decreases s.len(),
{
    if s.len() >= 5 && ends_with(s, ".toml"@) {
        without_toml(s.take(s.len() - 5))
    } else {
        s
    }
}

/// The file name of a mapping profile: the bare name (any `.toml` endings
/// removed) plus `.toml`.
pub open spec fn profile_file(name: Seq<char>) -> Seq<char> {
    without_toml(name) + ".toml"@
}

/// The file name under which a mapping profile is looked up in the profile
/// library: `mybroker` and `mybroker.toml` both give `mybroker.toml`.
pub fn profile_file_name(name: &str) -> (r: String)
    ensures
        r@ == profile_file(name@),
{
    let v = chars_of(name);
    let suffix = chars_of(".toml");
    proof {
        reveal_strlit(".toml");
    }
    let mut end: usize = v.len();
    assert(v@.take(end as int) =~= v@);
    while end >= 5 && v[end - 5] == '.' && v[end - 4] == 't' && v[end - 3] == 'o' && v[end - 2] == 'm' && v[end - 1] == 'l'
        invariant
            end <= v@.len(),
            without_toml(v@) == without_toml(v@.take(end as int)),
        decreases end,
    {
        let ghost t = v@.take(end as int);
        proof {
            reveal_strlit(".toml");
        }
        assert(t.subrange(t.len() - 5, t.len() as int) =~= ".toml"@);
        assert(t.take(t.len() - 5) =~= v@.take(end - 5));
        end = end - 5;
    }
    let ghost t = v@.take(end as int);
    assert(!(t.len() >= 5 && ends_with(t, ".toml"@))) by {
        if t.len() >= 5 && ends_with(t, ".toml"@) {
            let u = t.subrange(t.len() - 5, t.len() as int);
            assert(u[0] == t[end - 5] && u[1] == t[end - 4] && u[2] == t[end - 3] && u[3] == t[end - 2] && u[4] == t[end - 1]);
        }
    }
    let mut out: Vec<char> = Vec::new();
    let mut i: usize = 0;
    while i < end
        invariant
            i <= end <= v@.len(),
            out@ == v@.take(i as int),
        decreases end - i,
    {
        out.push(v[i]);
        i = i + 1;
        assert(out@ =~= v@.take(i as int));
    }
    let mut k: usize = 0;
    let ghost base = out@;
    while k < suffix.len()
        invariant
            k <= suffix@.len(),
            suffix@ == ".toml"@,
            out@ == base + suffix@.take(k as int),
        decreases suffix@.len() - k,
    {
        out.push(suffix[k]);
        k = k + 1;
        assert(out@ =~= base + suffix@.take(k as int));
    }
    assert(suffix@.take(k as int) =~= suffix@);
    string_of(out.as_slice())
}

/// Where a bare profile name is looked up in the profile library:
/// `<profiles_dir>/<name>.toml`, with any `.toml` the name already ends
/// with removed first.
pub fn profile_candidate(profiles_dir: &str, name: &str) -> (r: String)
    ensures
        r@ == crate::exchange::joined_path(profiles_dir@, profile_file(name@)),
{
    let file = profile_file_name(name);
    crate::exchange::join_path(profiles_dir, file.as_str())
}

/// Where a `--mapping` reference resolves.
pub enum MappingSource {
    /// The reference itself names an existing file.
    Given,
    /// A bare profile name found in the profile library.
    Profile,
    /// Neither: the reference cannot be resolved.
    Missing,
}

/// Resolve a `--mapping` reference from what exists on disk: the given
/// path when it exists; otherwise, for a bare name (one path component),
/// its profile in the library when that exists; otherwise nothing.
pub fn mapping_source(given_exists: bool, bare_name: bool, profile_exists: bool) -> (r: MappingSource)
    ensures
        r == (if given_exists {
            MappingSource::Given
        } else if bare_name && profile_exists {
            MappingSource::Profile
        } else {
            MappingSource::Missing
        }),
{
    if given_exists {
        MappingSource::Given
    } else if bare_name && profile_exists {
        MappingSource::Profile
    } else {
        MappingSource::Missing
    }
}

/// Output settings.
pub struct OutputConfig {
    /// Also write the exchange JSON next to the report inside the vault.
    pub write_exchange_json: bool,
}

impl Default for OutputConfig {
    fn default() -> (r: OutputConfig)
        ensures
            r.write_exchange_json,
    {
        OutputConfig { write_exchange_json: true }
    }
}

/// Lexicographic order on (seconds, nanoseconds) times of day.
pub open spec fn time_le(a: DayTime, b: DayTime) -> bool {
    a.0 < b.0 || (a.0 == b.0 && a.1 <= b.1)
}

/// Whether a time of day lies in the window `[start, end)`; a window whose
/// start is after its end wraps midnight.
pub open spec fn in_window(t: DayTime, start: DayTime, end: DayTime) -> bool {
    if time_le(start, end) {
        time_le(start, t) && !time_le(end, t)
    } else {
        time_le(start, t) || !time_le(end, t)
    }
}

/// Position of the first `-` in `s`.
pub open spec fn first_dash(s: Seq<char>) -> int {
    choose|k: int| 0 <= k < s.len() && s[k] == '-' && forall|j: int| 0 <= j < k ==> s[j] != '-'
}

/// The bounds of a "HH:MM-HH:MM" window, split at its first `-`; `None`
/// when either side does not parse as `%H:%M`.
pub open spec fn window_bounds(raw: Seq<char>) -> Option<(DayTime, DayTime)> {
    if exists|k: int| 0 <= k < raw.len() && raw[k] == '-' {
        let k = first_dash(raw);
        match (
            chrono_time(trim(raw.take(k)), "%H:%M"@),
            chrono_time(trim(raw.skip(k + 1)), "%H:%M"@),
        ) {
            (Some(a), Some(b)) => Some((a, b)),
            _ => None,
        }
    } else {
        None
    }
}

/// Whether the window text parses and contains the time.
pub open spec fn window_holds(raw: Seq<char>, t: DayTime) -> bool {
    match window_bounds(raw) {
        Some((a, b)) => in_window(t, a, b),
        None => false,
    }
}

/// Session windows in trade-local time, "HH:MM-HH:MM" (end exclusive). A
/// window may wrap midnight (e.g. "23:00-07:00").
pub struct SessionsConfig {
    pub asia: String,
    pub london: String,
    pub overlap: String,
    pub new_york: String,
}

/// The session of a time of day: the first of Asia, London, Overlap and
/// New York whose window contains it, otherwise `Other`.
pub open spec fn session_at(cfg: SessionsConfig, t: DayTime) -> Session {
    if window_holds(cfg.asia@, t) {
        Session::Asia
    } else if window_holds(cfg.london@, t) {
        Session::London
    } else if window_holds(cfg.overlap@, t) {
        Session::Overlap
    } else if window_holds(cfg.new_york@, t) {
        Session::NewYork
    } else {
        Session::Other
    }
}

fn text_of(v: &[char], lo: usize, hi: usize) -> (r: String)
    requires
        lo <= hi <= v.len(),
    ensures
        r@ == trim(v@.subrange(lo as int, hi as int)),
{
    let mut part: Vec<char> = Vec::new();
    let mut i: usize = lo;
    while i < hi
        invariant
            lo <= i <= hi,
            hi <= v.len(),
            part@ == v@.subrange(lo as int, i as int),
        decreases hi - i,
    {
        part.push(v[i]);
        i = i + 1;
        assert(part@ =~= v@.subrange(lo as int, i as int));
    }
    string_of(trimmed(part.as_slice()).as_slice())
}

/// Parse a "HH:MM-HH:MM" window.
pub fn parse_window(raw: &str) -> (r: Option<(DayTime, DayTime)>)
    ensures
        r == window_bounds(raw@),
{
    let v = chars_of(raw);
    let mut k: usize = 0;
    while k < v.len() && v[k] != '-'
        invariant
            k <= v.len(),
            v@ == raw@,
            forall|j: int| 0 <= j < k ==> v@[j] != '-',
        decreases v.len() - k,
    {
        k = k + 1;
    }
    if k == v.len() {
        return None;
    }
    assert(first_dash(raw@) == k as int) by {
        let f = first_dash(raw@);
        assert(0 <= f < raw@.len() && raw@[f] == '-' && forall|j: int| 0 <= j < f ==> raw@[j] != '-');
        if f < k {
            assert(v@[f] != '-');
        }
        if f > k {
            assert(raw@[k as int] != '-');
        }
    }
    let a = text_of(v.as_slice(), 0, k);
    let b = text_of(v.as_slice(), k + 1, v.len());
    assert(v@.subrange(0, k as int) =~= raw@.take(k as int));
    assert(v@.subrange(k + 1, v.len() as int) =~= raw@.skip(k + 1));
    let start = naive_time(a.as_str(), "%H:%M");
    let end = naive_time(b.as_str(), "%H:%M");
    match (start, end) {
        (Some(s), Some(e)) => Some((s, e)),
        _ => None,
    }
}

fn before(a: DayTime, b: DayTime) -> (r: bool)
    ensures
        r == time_le(a, b),
{
    a.0 < b.0 || (a.0 == b.0 && a.1 <= b.1)
}

fn window_contains(raw: &str, t: DayTime) -> (r: bool)
    ensures
        r == window_holds(raw@, t),
{
    match parse_window(raw) {
        Some((start, end)) => {
            if before(start, end) {
                before(start, t) && !before(end, t)
            } else {
                before(start, t) || !before(end, t)
            }
        },
        None => false,
    }
}

impl Default for SessionsConfig {
    fn default() -> (r: SessionsConfig)
        ensures
            r.asia@ == "00:00-07:00"@,
            r.london@ == "07:00-13:00"@,
            r.overlap@ == "13:00-16:00"@,
            r.new_york@ == "16:00-22:00"@,
    {
        SessionsConfig {
            asia: string_of(chars_of("00:00-07:00").as_slice()),
            london: string_of(chars_of("07:00-13:00").as_slice()),
            overlap: string_of(chars_of("13:00-16:00").as_slice()),
            new_york: string_of(chars_of("16:00-22:00").as_slice()),
        }
    }
}

impl SessionsConfig {
    /// Resolve a trade time (seconds since midnight, nanoseconds) to a
    /// session using the configured windows.
    pub fn session_for(&self, time: DayTime) -> (r: Session)
        ensures
            r == session_at(*self, time),
    {
        if window_contains(self.asia.as_str(), time) {
            Session::Asia
        } else if window_contains(self.london.as_str(), time) {
            Session::London
        } else if window_contains(self.overlap.as_str(), time) {
            Session::Overlap
        } else if window_contains(self.new_york.as_str(), time) {
            Session::NewYork
        } else {
            Session::Other
        }
    }
}

} // verus!
