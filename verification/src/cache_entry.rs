//! The record every stage of the pipeline exchanges: a cache path with its
//! classification, size, recency and planned action.
use vstd::prelude::*;

use crate::text::{lower_chars, chars_eq, lower_str_chars, to_chars, dec_chars, u64_to_dec};
use crate::util::{human_size_of, format_size_decimal, now_unix};

verus! {

/// Types of caches that can be detected.
#[derive(Debug, Clone, Copy, PartialEq, Eq, Hash, Structural)]
pub enum CacheKind {
    JavaScript,
    Python,
    Rust,
    Java,
    MachineLearning,
    Npx,
    Docker,
    Generic,
}

/// Planned action for a cache entry.
#[derive(Debug, Clone, Copy, PartialEq, Eq, Structural)]
pub enum PlannedAction {
    Delete,
    Backup,
    Skip,
}

/// Language filter for cache detection.
#[derive(Debug, Clone, Copy, PartialEq, Eq, Structural)]
pub enum LanguageFilter {
    Auto,
    JavaScript,
    Python,
    Rust,
    Java,
    MachineLearning,
}

/// The short tag each cache kind prints as.
pub open spec fn kind_tag(k: CacheKind) -> Seq<char> {
    match k {
        CacheKind::JavaScript => "js"@,
        CacheKind::Python => "py"@,
        CacheKind::Rust => "rust"@,
        CacheKind::Java => "java"@,
        CacheKind::MachineLearning => "ml"@,
        CacheKind::Npx => "npx"@,
        CacheKind::Docker => "docker"@,
        CacheKind::Generic => "generic"@,
    }
}

impl CacheKind {
    /// The short tag this kind prints as.
    pub fn name(&self) -> (r: String)
        ensures
            r@ == kind_tag(*self),
    {
        match self {
            CacheKind::JavaScript => "js".to_owned(),
            CacheKind::Python => "py".to_owned(),
            CacheKind::Rust => "rust".to_owned(),
            CacheKind::Java => "java".to_owned(),
            CacheKind::MachineLearning => "ml".to_owned(),
            CacheKind::Npx => "npx".to_owned(),
            CacheKind::Docker => "docker".to_owned(),
            CacheKind::Generic => "generic".to_owned(),
        }
    }
}

/// The short tag each planned action prints as.
pub open spec fn action_tag(a: PlannedAction) -> Seq<char> {
    match a {
        PlannedAction::Delete => "delete"@,
        PlannedAction::Backup => "backup"@,
        PlannedAction::Skip => "skip"@,
    }
}

impl PlannedAction {
    /// The short tag this action prints as.
    pub fn name(&self) -> (r: String)
        ensures
            r@ == action_tag(*self),
    {
        match self {
            PlannedAction::Delete => "delete".to_owned(),
            PlannedAction::Backup => "backup".to_owned(),
            PlannedAction::Skip => "skip".to_owned(),
        }
    }
}

/// The short tag each language filter prints as.
pub open spec fn filter_tag(f: LanguageFilter) -> Seq<char> {
    match f {
        LanguageFilter::Auto => "auto"@,
        LanguageFilter::JavaScript => "js"@,
        LanguageFilter::Python => "py"@,
        LanguageFilter::Rust => "rust"@,
        LanguageFilter::Java => "java"@,
        LanguageFilter::MachineLearning => "ml"@,
    }
}

/// What parsing a language filter yields, after ASCII lower-casing.
pub open spec fn parsed_filter(s: Seq<char>) -> Option<LanguageFilter> {
    let l = lower_chars(s);
    if l == "auto"@ {
        Some(LanguageFilter::Auto)
    } else if l == "js"@ || l == "javascript"@ {
        Some(LanguageFilter::JavaScript)
    } else if l == "py"@ || l == "python"@ {
        Some(LanguageFilter::Python)
    } else if l == "rust"@ {
        Some(LanguageFilter::Rust)
    } else if l == "java"@ {
        Some(LanguageFilter::Java)
    } else if l == "ml"@ || l == "machinelearning"@ {
        Some(LanguageFilter::MachineLearning)
    } else {
        None
    }
}

impl LanguageFilter {
    /// The short tag this filter prints as.
    pub fn name(&self) -> (r: String)
        ensures
            r@ == filter_tag(*self),
    {
        match self {
            LanguageFilter::Auto => "auto".to_owned(),
            LanguageFilter::JavaScript => "js".to_owned(),
            LanguageFilter::Python => "py".to_owned(),
            LanguageFilter::Rust => "rust".to_owned(),
            LanguageFilter::Java => "java".to_owned(),
            LanguageFilter::MachineLearning => "ml".to_owned(),
        }
    }

    /// Parses a filter tag, case-insensitively. Unknown tags are rejected
    /// with a message naming the input.
    pub fn parse(s: &str) -> (r: Result<LanguageFilter, String>)
        ensures
            match r {
                Ok(f) => parsed_filter(s@) == Some(f),
                Err(m) => parsed_filter(s@) is None
                    && m@ == "Unknown language filter: "@ + s@,
            },
    {
        let l = lower_str_chars(s);
        if chars_eq(&l, &to_chars("auto")) {
            Ok(LanguageFilter::Auto)
        } else if chars_eq(&l, &to_chars("js")) || chars_eq(&l, &to_chars("javascript")) {
            Ok(LanguageFilter::JavaScript)
        } else if chars_eq(&l, &to_chars("py")) || chars_eq(&l, &to_chars("python")) {
            Ok(LanguageFilter::Python)
        } else if chars_eq(&l, &to_chars("rust")) {
            Ok(LanguageFilter::Rust)
        } else if chars_eq(&l, &to_chars("java")) {
            Ok(LanguageFilter::Java)
        } else if chars_eq(&l, &to_chars("ml")) || chars_eq(&l, &to_chars("machinelearning")) {
            Ok(LanguageFilter::MachineLearning)
        } else {
            let mut m = "Unknown language filter: ".to_owned();
            m.append(s);
            Err(m)
        }
    }
}

/// Represents a cache entry with metadata.
#[derive(Debug)]
pub struct CacheEntry {
    /// Path to the cache directory or file.
    pub path: String,
    /// The cache's classification.
    pub kind: CacheKind,
    /// Size in bytes.
    pub size_bytes: u64,
    /// Last used time, as seconds since the Unix epoch.
    pub last_used: i64,
    /// Whether this cache is considered stale.
    pub stale: bool,
    /// Planned action for this entry.
    pub planned_action: Option<PlannedAction>,
}

/// The mathematical image of a cache entry.
pub ghost struct EntryView {
    pub path: Seq<char>,
    pub kind: CacheKind,
    pub size_bytes: u64,
    pub last_used: i64,
    pub stale: bool,
    pub planned_action: Option<PlannedAction>,
}

impl View for CacheEntry {
    type V = EntryView;

    open spec fn view(&self) -> EntryView {
        EntryView {
            path: self.path@,
            kind: self.kind,
            size_bytes: self.size_bytes,
            last_used: self.last_used,
            stale: self.stale,
            planned_action: self.planned_action,
        }
    }
}

impl DeepView for CacheEntry {
    type V = EntryView;

    open spec fn deep_view(&self) -> EntryView {
        self@
    }
}

impl Clone for CacheEntry {
    fn clone(&self) -> (r: Self)
        ensures
            r@ == self@,
    {
        CacheEntry {
            path: self.path.clone(),
            kind: self.kind,
            size_bytes: self.size_bytes,
            last_used: self.last_used,
            stale: self.stale,
            planned_action: self.planned_action,
        }
    }
}

impl CacheEntry {
    /// Create a new cache entry, with no action planned yet.
    pub fn new(path: String, kind: CacheKind, size_bytes: u64, last_used: i64, stale: bool) -> (r:
        Self)
        ensures
            r@.path == path@,
            r@.kind == kind,
            r@.size_bytes == size_bytes,
            r@.last_used == last_used,
            r@.stale == stale,
            r@.planned_action is None,
    {
        Self { path, kind, size_bytes, last_used, stale, planned_action: None }
    }

    /// Set the planned action for this entry.
    pub fn with_planned_action(self, action: PlannedAction) -> (r: Self)
        ensures
            r@ == (EntryView { planned_action: Some(action), ..self@ }),
    {
        let mut e = self;
        e.planned_action = Some(action);
        e
    }

    /// Get a human-readable size string.
    pub fn size_human(&self) -> (r: String)
        ensures
            r@ == human_size_of(self.size_bytes),
    {
        format_size_decimal(self.size_bytes)
    }

    /// How long ago the entry was last used, as text: whole days when at
    /// least one has passed, else hours, else minutes, else `just now`.
    pub fn last_used_human_at(&self, now: i64) -> (r: String)
        ensures
            r@ == ago_chars(self.last_used, now),
    {
        let diff: i128 = now as i128 - self.last_used as i128;
        if diff >= 86400 {
            let days: u128 = (diff as u128) / 86400;
            let mut r = u64_to_dec(days as u64);
            r.append("d ago");
            proof {
                assert(r@ =~= ago_chars(self.last_used, now));
            }
            r
        } else if diff >= 3600 {
            let hours: u128 = (diff as u128) / 3600;
            let mut r = u64_to_dec(hours as u64);
            r.append("h ago");
            proof {
                assert(r@ =~= ago_chars(self.last_used, now));
            }
            r
        } else if diff >= 60 {
            let minutes: u128 = (diff as u128) / 60;
            let mut r = u64_to_dec(minutes as u64);
            r.append("m ago");
            proof {
                assert(r@ =~= ago_chars(self.last_used, now));
            }
            r
        } else {
            "just now".to_owned()
        }
    }

    /// How long ago the entry was last used, measured against the clock.
    pub fn last_used_human(&self) -> (r: String)
        ensures
            exists|now: i64| r@ == ago_chars(self.last_used, now),
    {
        let now = now_unix();
        self.last_used_human_at(now)
    }

    /// Check if this entry should be included based on language filter.
    pub fn matches_lang_filter(&self, filter: &LanguageFilter) -> (r: bool)
        ensures
            r == match *filter {
                LanguageFilter::Auto => true,
                LanguageFilter::JavaScript => self.kind is JavaScript,
                LanguageFilter::Python => self.kind is Python,
                LanguageFilter::Rust => self.kind is Rust,
                LanguageFilter::Java => self.kind is Java,
                LanguageFilter::MachineLearning => self.kind is MachineLearning,
            },
    {
        match filter {
            LanguageFilter::Auto => true,
            LanguageFilter::JavaScript => matches!(self.kind, CacheKind::JavaScript),
            LanguageFilter::Python => matches!(self.kind, CacheKind::Python),
            LanguageFilter::Rust => matches!(self.kind, CacheKind::Rust),
            LanguageFilter::Java => matches!(self.kind, CacheKind::Java),
            LanguageFilter::MachineLearning => matches!(self.kind, CacheKind::MachineLearning),
        }
    }
}

/// How long ago a timestamp lies, as text: days, hours, minutes, or
/// `just now` for anything under a minute or in the future.
pub open spec fn ago_chars(last_used: i64, now: i64) -> Seq<char> {
    if now - last_used >= 86400 {
        dec_chars((now - last_used) / 86400) + "d ago"@
    } else if now - last_used >= 3600 {
        dec_chars((now - last_used) / 3600) + "h ago"@
    } else if now - last_used >= 60 {
        dec_chars((now - last_used) / 60) + "m ago"@
    } else {
        "just now"@
    }
}

/// Total size in bytes of a sequence of entries.
pub open spec fn sum_sizes(s: Seq<EntryView>) -> int
    decreases s.len(),
{
    if s.len() == 0 {
        0
    } else {
        sum_sizes(s.drop_last()) + s.last().size_bytes
    }
}

/// Sums are never negative: every size is unsigned.
pub proof fn lemma_sum_sizes_nonneg(s: Seq<EntryView>)
    ensures
        sum_sizes(s) >= 0,
    decreases s.len(),
{
    if s.len() > 0 {
        lemma_sum_sizes_nonneg(s.drop_last());
    }
}

/// The entry is planned for permanent removal.
pub open spec fn is_delete_planned(e: EntryView) -> bool {
    e.planned_action == Some(PlannedAction::Delete)
}

/// The entry is planned for a backup move.
pub open spec fn is_backup_planned(e: EntryView) -> bool {
    e.planned_action == Some(PlannedAction::Backup)
}

/// The entry is left alone: planned Skip, or nothing planned at all.
pub open spec fn is_skip_planned(e: EntryView) -> bool {
    e.planned_action == Some(PlannedAction::Skip) || e.planned_action is None
}

/// A filtered sum never exceeds the sum over the whole sequence.
pub proof fn lemma_sum_filter_le(s: Seq<EntryView>, pred: spec_fn(EntryView) -> bool)
    ensures
        sum_sizes(s.filter(pred)) <= sum_sizes(s),
    decreases s.len(),
{
    reveal(Seq::filter);
    if s.len() > 0 {
        lemma_sum_filter_le(s.drop_last(), pred);
        lemma_sum_sizes_nonneg(s.drop_last().filter(pred));
        let f = s.drop_last().filter(pred);
        if pred(s.last()) {
            assert(s.filter(pred) == f.push(s.last()));
            assert(f.push(s.last()).drop_last() =~= f);
            assert(sum_sizes(f.push(s.last())) == sum_sizes(f) + s.last().size_bytes);
        }
    }
}

/// Prefix sums of a filtered sequence never exceed the filtered whole.
pub proof fn lemma_sum_filter_take_le(s: Seq<EntryView>, pred: spec_fn(EntryView) -> bool, i: int)
    requires
        0 <= i <= s.len(),
    ensures
        sum_sizes(s.take(i).filter(pred)) <= sum_sizes(s.filter(pred)),
    decreases s.len() - i,
{
    reveal(Seq::filter);
    if i < s.len() {
        assert(s.take(i + 1).drop_last() =~= s.take(i));
        assert(s.take(i + 1).last() == s[i]);
        let f = s.take(i).filter(pred);
        if pred(s[i]) {
            assert(s.take(i + 1).filter(pred) == f.push(s[i]));
            assert(f.push(s[i]).drop_last() =~= f);
            assert(sum_sizes(f.push(s[i])) == sum_sizes(f) + s[i].size_bytes);
        } else {
            assert(s.take(i + 1).filter(pred) == f);
        }
        lemma_sum_filter_take_le(s, pred, i + 1);
    } else {
        assert(s.take(i) =~= s);
    }
}

/// Sum of all entry sizes, checked: `None` exactly when 64 bits cannot
/// hold it.
pub fn total_bytes_checked(entries: &Vec<CacheEntry>) -> (r: Option<u64>)
    ensures
        match r {
            Some(t) => t == sum_sizes(entries.deep_view()),
            None => sum_sizes(entries.deep_view()) > u64::MAX,
        },
{
    let ghost s = entries.deep_view();
    let mut total: u64 = 0;
    let n = entries.len();
    for i in 0..n
        invariant
            n == entries@.len(),
            s == entries.deep_view(),
            total == sum_sizes(s.take(i as int)),
    {
        proof {
            assert(s.take(i + 1).drop_last() =~= s.take(i as int));
            assert(s.take(i + 1).last() == s[i as int]);
        }
        let sz = entries[i].size_bytes;
        if total > u64::MAX - sz {
            proof {
                lemma_sum_take_le_entries(s, i + 1);
            }
            return None;
        }
        total = total + sz;
    }
    assert(s.take(n as int) =~= s);
    Some(total)
}

/// Sum of the backup-planned entries' sizes, checked: `None` exactly when
/// 64 bits cannot hold it.
pub fn backup_bytes_checked(entries: &Vec<CacheEntry>) -> (r: Option<u64>)
    ensures
        match r {
            Some(t) => t == sum_sizes(
                entries.deep_view().filter(|e: EntryView| is_backup_planned(e)),
            ),
            None => sum_sizes(entries.deep_view().filter(|e: EntryView| is_backup_planned(e)))
                > u64::MAX,
        },
{
    let ghost s = entries.deep_view();
    let ghost pb = |e: EntryView| is_backup_planned(e);
    let mut total: u64 = 0;
    let n = entries.len();
    proof {
        reveal(Seq::filter);
        assert(s.take(0).filter(pb) =~= Seq::<EntryView>::empty());
    }
    for i in 0..n
        invariant
            n == entries@.len(),
            s == entries.deep_view(),
            pb == (|e: EntryView| is_backup_planned(e)),
            total == sum_sizes(s.take(i as int).filter(pb)),
    {
        proof {
            reveal(Seq::filter);
            assert(s.take(i + 1).drop_last() =~= s.take(i as int));
            assert(s.take(i + 1).last() == s[i as int]);
            let f = s.take(i as int).filter(pb);
            if pb(s[i as int]) {
                assert(s.take(i + 1).filter(pb) == f.push(s[i as int]));
                assert(f.push(s[i as int]).drop_last() =~= f);
                assert(sum_sizes(f.push(s[i as int])) == sum_sizes(f) + s[i as int].size_bytes);
            } else {
                assert(s.take(i + 1).filter(pb) == f);
            }
        }
        let is_backup = match entries[i].planned_action {
            Some(PlannedAction::Backup) => true,
            _ => false,
        };
        if is_backup {
            let sz = entries[i].size_bytes;
            if total > u64::MAX - sz {
                proof {
                    lemma_sum_filter_take_le(s, pb, i + 1);
                }
                return None;
            }
            total = total + sz;
        }
    }
    assert(s.take(n as int) =~= s);
    Some(total)
}

/// Prefix sums never exceed the whole sum.
pub proof fn lemma_sum_take_le_entries(s: Seq<EntryView>, i: int)
    requires
        0 <= i <= s.len(),
    ensures
        sum_sizes(s.take(i)) <= sum_sizes(s),
    decreases s.len() - i,
{
    if i < s.len() {
        assert(s.take(i + 1).drop_last() =~= s.take(i));
        lemma_sum_take_le_entries(s, i + 1);
    } else {
        assert(s.take(i) =~= s);
    }
}

impl std::str::FromStr for LanguageFilter {
    type Err = String;

    fn from_str(s: &str) -> Result<Self, Self::Err> {
        LanguageFilter::parse(s)
    }
}

} // verus!
