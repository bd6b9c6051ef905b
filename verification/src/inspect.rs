//! The inspector: turns candidate paths into fully described cache entries
//! (classification, size, recency, staleness) and plans each entry's
//! disposition; also the pure summary and top-N reductions over entries.
use vstd::prelude::*;

use crate::cache_entry::{
    CacheEntry, CacheKind, EntryView, PlannedAction, sum_sizes, lemma_sum_filter_le,
    lemma_sum_filter_take_le,
};
use crate::classify::{classify, spec_classify};
use crate::config::MergedConfig;
use crate::errors::CacheError;
use crate::util::{
    path_exists, is_dir, get_size, get_most_recent_mtime, get_mtime, glob_matches, spec_excluded,
    human_size_of, format_size_decimal,
};

verus! {

/// Staleness: the last activity lies more than `stale_days` whole days
/// before `now`. The boundary is exclusive: exactly `stale_days` days old is
/// not stale, and a timestamp in the future never is.
pub open spec fn spec_is_stale(last_used: i64, now: i64, stale_days: u32) -> bool {
    now >= last_used && (now - last_used) / 86400 > stale_days
}

/// The planner policy: exclusion wins; then a configured include set must be
/// matched; what remains is backed up under safe delete and deleted otherwise.
/// Staleness deliberately plays no part here.
pub open spec fn spec_disposition(
    excluded: bool,
    has_includes: bool,
    included: bool,
    safe_delete: bool,
) -> PlannedAction {
    if excluded {
        PlannedAction::Skip
    } else if has_includes && !included {
        PlannedAction::Skip
    } else if safe_delete {
        PlannedAction::Backup
    } else {
        PlannedAction::Delete
    }
}

/// What the planner decides for a path under a configuration.
pub open spec fn spec_planned_for(c: &MergedConfig, path: Seq<char>) -> PlannedAction {
    spec_disposition(
        spec_excluded(path, c.exclude.deep_view()),
        c.paths.deep_view().len() > 0,
        glob_matches(path, c.paths.deep_view()),
        c.safe_delete,
    )
}

/// A fully inspected entry for a path: classified by the path text, staleness
/// derived from its recency, and the planner's disposition attached.
pub open spec fn inspected_entry_ok(c: &MergedConfig, path: Seq<char>, now: i64, e: EntryView) -> bool {
    &&& e.path == path
    &&& e.kind == spec_classify(path)
    &&& e.stale == spec_is_stale(e.last_used, now, c.stale_days)
    &&& e.planned_action == Some(spec_planned_for(c, path))
}

/// The staleness boundary is exclusive. An entry last used now is not
/// stale; one exactly `stale_days` whole days old is still not stale; one a
/// full day beyond the threshold is stale.
pub proof fn lemma_stale_boundary(now: i64, stale_days: u32)
    ensures
        !spec_is_stale(now, now, stale_days),
        forall|last: i64|
            now >= last && now - last == 86400 * (stale_days as int) ==> !spec_is_stale(
                last,
                now,
                stale_days,
            ),
        forall|last: i64|
            now >= last && now - last >= 86400 * (stale_days as int + 1) ==> spec_is_stale(
                last,
                now,
                stale_days,
            ),
{
    assert forall|last: i64|
        now >= last && now - last == 86400 * (stale_days as int) implies !spec_is_stale(
        last,
        now,
        stale_days,
    ) by {
        assert((86400 * (stale_days as int)) / 86400 == stale_days as int);
    }
    assert forall|last: i64|
        now >= last && now - last >= 86400 * (stale_days as int + 1) implies spec_is_stale(
        last,
        now,
        stale_days,
    ) by {
        let d = (now - last) / 86400;
        assert(86400 * d + ((now - last) % 86400) == now - last);
        assert(d >= stale_days as int + 1);
    }
}

/// Inspect cache entries and calculate metadata.
pub struct CacheInspector {
    pub config: MergedConfig,
}

impl CacheInspector {
    /// Create a new cache inspector.
    pub fn new(config: MergedConfig) -> (r: Self)
        ensures
            crate::config::config_view(r.config) == crate::config::config_view(config),
    {
        Self { config }
    }

    /// Whether a cache last used at `last_used` counts as stale at `now`.
    pub fn is_stale(&self, last_used: i64, now: i64) -> (r: bool)
        ensures
            r == spec_is_stale(last_used, now, self.config.stale_days),
    {
        if now < last_used {
            return false;
        }
        let diff: u128 = (now as i128 - last_used as i128) as u128;
        let days: u128 = diff / 86400;
        days > self.config.stale_days as u128
    }

    /// The planner's decision for one entry.
    pub fn determine_planned_action(&self, entry: &CacheEntry) -> (r: PlannedAction)
        ensures
            r == spec_planned_for(&self.config, entry@.path),
    {
        if self.config.should_exclude_path(entry.path.as_str()) {
            return PlannedAction::Skip;
        }
        if self.config.paths.len() > 0 && !self.config.should_include_path(entry.path.as_str()) {
            return PlannedAction::Skip;
        }
        if self.config.safe_delete {
            PlannedAction::Backup
        } else {
            PlannedAction::Delete
        }
    }

    /// Size in bytes of one candidate path; absent paths weigh nothing.
    fn calculate_size(&self, path: &str) -> (r: Result<u64, String>) {
        if !path_exists(path) {
            return Ok(0);
        }
        get_size(path)
    }

    /// The last-activity time of one candidate path: the most recent file
    /// modification under a directory, or a file's own.
    fn get_last_used_time(&self, path: &str) -> (r: Result<i64, String>) {
        if !path_exists(path) {
            return Ok(0);
        }
        if is_dir(path) {
            get_most_recent_mtime(path)
        } else {
            get_mtime(path)
        }
    }

    /// Inspect a single cache path at time `now`. A vanished path fails with
    /// PathNotFound; unreadable metadata fails with InspectFailed.
    pub fn inspect_single_cache(&self, path: &str, now: i64) -> (r: Result<CacheEntry, CacheError>)
        ensures
            match r {
                Ok(e) => inspected_entry_ok(&self.config, path@, now, e@),
                Err(e) => e is PathNotFound || e is InspectFailed,
            },
    {
        if !path_exists(path) {
            return Err(CacheError::PathNotFound(path.to_owned()));
        }
        let kind = classify(path);
        let size_bytes = match self.calculate_size(path) {
            Ok(s) => s,
            Err(m) => {
                return Err(CacheError::InspectFailed(m));
            },
        };
        let last_used = match self.get_last_used_time(path) {
            Ok(t) => t,
            Err(m) => {
                return Err(CacheError::InspectFailed(m));
            },
        };
        let stale = self.is_stale(last_used, now);
        let entry = CacheEntry::new(path.to_owned(), kind, size_bytes, last_used, stale);
        let action = self.determine_planned_action(&entry);
        let entry = entry.with_planned_action(action);
        Ok(entry)
    }

    /// Inspect a list of cache paths at time `now`: one entry per input path,
    /// in input order. One failing path fails the whole call, as the caller
    /// supplied this list explicitly.
    pub fn inspect_caches(&self, cache_paths: &Vec<String>, now: i64) -> (r: Result<
        Vec<CacheEntry>,
        CacheError,
    >)
        ensures
            match r {
                Ok(v) => v@.len() == cache_paths@.len() && forall|i: int|
                    0 <= i < v@.len() ==> inspected_entry_ok(
                        &self.config,
                        cache_paths.deep_view()[i],
                        now,
                        #[trigger] v.deep_view()[i],
                    ),
                Err(e) => e is PathNotFound || e is InspectFailed,
            },
    {
        let mut out: Vec<CacheEntry> = Vec::new();
        let n = cache_paths.len();
        for i in 0..n
            invariant
                n == cache_paths@.len(),
                out@.len() == i,
                forall|k: int|
                    0 <= k < i ==> inspected_entry_ok(
                        &self.config,
                        cache_paths.deep_view()[k],
                        now,
                        #[trigger] out.deep_view()[k],
                    ),
        {
            match self.inspect_single_cache(cache_paths[i].as_str(), now) {
                Ok(e) => {
                    proof {
                        assert(cache_paths@[i as int]@ == cache_paths.deep_view()[i as int]);
                    }
                    let ghost prev = out.deep_view();
                    let ghost ev = e@;
                    out.push(e);
                    proof {
                        assert(out.deep_view() =~~= prev.push(ev));
                    }
                },
                Err(e) => {
                    return Err(e);
                },
            }
        }
        Ok(out)
    }
}

/// Summary statistics for cache entries.
#[derive(Debug)]
pub struct CacheSummary {
    pub total_size: u64,
    pub total_count: usize,
    pub stale_count: usize,
    pub to_delete_count: usize,
    pub to_skip_count: usize,
    pub size_by_kind: Vec<(CacheKind, u64)>,
}

/// The entries of a given kind.
pub open spec fn of_kind(k: CacheKind) -> spec_fn(EntryView) -> bool {
    |e: EntryView| e.kind == k
}

/// Total bytes held by entries of one kind.
pub open spec fn sum_kind(s: Seq<EntryView>, k: CacheKind) -> int {
    sum_sizes(s.filter(of_kind(k)))
}

/// An entry the summary counts as actionable: planned Delete or Backup.
pub open spec fn is_actionable(e: EntryView) -> bool {
    e.planned_action == Some(PlannedAction::Delete) || e.planned_action == Some(
        PlannedAction::Backup,
    )
}

/// An entry planned Skip. An entry with nothing planned is counted neither
/// here nor as actionable, faithfully to the summary this models.
pub open spec fn is_skip_only(e: EntryView) -> bool {
    e.planned_action == Some(PlannedAction::Skip)
}

/// An entry marked stale.
pub open spec fn is_stale_entry(e: EntryView) -> bool {
    e.stale
}

impl CacheInspector {
    /// Sum of sizes over all entries; errors when over 64 bits.
    fn total_bytes(&self, entries: &Vec<CacheEntry>) -> (r: Option<u64>)
        ensures
            match r {
                Some(t) => t == sum_sizes(entries.deep_view()),
                None => sum_sizes(entries.deep_view()) > u64::MAX,
            },
    {
        let ghost s = entries.deep_view();
        let mut total: u64 = 0;
        let n = entries.len();
        for i in 0..n
            invariant
                n == entries@.len(),
                s == entries.deep_view(),
                total == sum_sizes(s.take(i as int)),
        {
            proof {
                assert(s.take(i + 1).drop_last() =~= s.take(i as int));
                assert(s.take(i + 1).last() == s[i as int]);
            }
            let sz = entries[i].size_bytes;
            if total > u64::MAX - sz {
                proof {
                    lemma_sum_take_le(s, i + 1);
                }
                return None;
            }
            total = total + sz;
        }
        assert(s.take(n as int) =~= s);
        Some(total)
    }

    /// Count of entries satisfying a compiled predicate is left to callers;
    /// this computes the bytes held by one kind.
    fn kind_bytes(&self, entries: &Vec<CacheEntry>, kind: CacheKind) -> (r: (u64, usize))
        requires
            sum_sizes(entries.deep_view()) <= u64::MAX,
        ensures
            r.0 == sum_kind(entries.deep_view(), kind),
            r.1 == entries.deep_view().filter(of_kind(kind)).len(),
    {
        let ghost s = entries.deep_view();
        let ghost pred = of_kind(kind);
        let mut total: u64 = 0;
        let mut count: usize = 0;
        let n = entries.len();
        for i in 0..n
            invariant
                n == entries@.len(),
                s == entries.deep_view(),
                pred == of_kind(kind),
                sum_sizes(s) <= u64::MAX,
                total == sum_sizes(s.take(i as int).filter(pred)),
                count == s.take(i as int).filter(pred).len(),
        {
            proof {
                reveal(Seq::filter);
                assert(s.take(i + 1).drop_last() =~= s.take(i as int));
                assert(s.take(i + 1).last() == s[i as int]);
                let f = s.take(i as int).filter(pred);
                if pred(s[i as int]) {
                    assert(s.take(i + 1).filter(pred) == f.push(s[i as int]));
                    assert(f.push(s[i as int]).drop_last() =~= f);
                    assert(sum_sizes(f.push(s[i as int])) == sum_sizes(f) + s[i as int].size_bytes);
                } else {
                    assert(s.take(i + 1).filter(pred) == f);
                }
                lemma_sum_filter_take_le(s, pred, i + 1);
                lemma_sum_filter_le(s, pred);
                s.take(i + 1).lemma_filter_len(pred);
            }
            if entries[i].kind == kind {
                total = total + entries[i].size_bytes;
                count = count + 1;
            }
        }
        assert(s.take(n as int) =~= s);
        (total, count)
    }

    fn count_matching_stale(&self, entries: &Vec<CacheEntry>) -> (r: usize)
        ensures
            r == entries.deep_view().filter(|e: EntryView| is_stale_entry(e)).len(),
    {
        count_filtered_stale(entries)
    }

    /// Get summary statistics for cache entries: totals, staleness and
    /// disposition counts, and bytes grouped by kind in a fixed kind order.
    pub fn get_summary(&self, entries: &Vec<CacheEntry>) -> (r: CacheSummary)
        requires
            sum_sizes(entries.deep_view()) <= u64::MAX,
        ensures
            r.total_size == sum_sizes(entries.deep_view()),
            r.total_count == entries@.len(),
            r.stale_count == entries.deep_view().filter(|e: EntryView| is_stale_entry(e)).len(),
            r.to_delete_count == entries.deep_view().filter(|e: EntryView| is_actionable(e)).len(),
            r.to_skip_count == entries.deep_view().filter(|e: EntryView| is_skip_only(e)).len(),
            forall|j: int| 0 <= j < r.size_by_kind@.len() ==> {
                let p = #[trigger] r.size_by_kind@[j];
                p.1 == sum_kind(entries.deep_view(), p.0)
                    && entries.deep_view().filter(of_kind(p.0)).len() > 0
            },
            forall|j1: int, j2: int|
                0 <= j1 < j2 < r.size_by_kind@.len()
                    ==> (#[trigger] r.size_by_kind@[j1]).0 != (#[trigger] r.size_by_kind@[j2]).0,
    {
        let total_size = match self.total_bytes(entries) {
            Some(t) => t,
            None => 0,  // unreachable: the requires bounds the sum
        };
        let total_count = entries.len();
        let stale_count = self.count_matching_stale(entries);
        let to_delete_count = count_filtered_actionable(entries);
        let to_skip_count = count_filtered_skip(entries);

        let kinds: [CacheKind; 8] = [
            CacheKind::JavaScript,
            CacheKind::Python,
            CacheKind::Rust,
            CacheKind::Java,
            CacheKind::MachineLearning,
            CacheKind::Npx,
            CacheKind::Docker,
            CacheKind::Generic,
        ];
        let mut size_by_kind: Vec<(CacheKind, u64)> = Vec::new();
        let mut ki: usize = 0;
        while ki < 8
            invariant
                sum_sizes(entries.deep_view()) <= u64::MAX,
                kinds@.len() == 8,
                ki <= 8,
                kinds@ =~= seq![
                    CacheKind::JavaScript,
                    CacheKind::Python,
                    CacheKind::Rust,
                    CacheKind::Java,
                    CacheKind::MachineLearning,
                    CacheKind::Npx,
                    CacheKind::Docker,
                    CacheKind::Generic,
                ],
                forall|j: int| 0 <= j < size_by_kind@.len() ==> {
                    let p = #[trigger] size_by_kind@[j];
                    p.1 == sum_kind(entries.deep_view(), p.0)
                        && entries.deep_view().filter(of_kind(p.0)).len() > 0
                },
                forall|j1: int, j2: int|
                    0 <= j1 < j2 < size_by_kind@.len()
                        ==> (#[trigger] size_by_kind@[j1]).0 != (#[trigger] size_by_kind@[j2]).0,
                forall|j: int| 0 <= j < size_by_kind@.len()
                    ==> exists|m: int| 0 <= m < ki && (#[trigger] size_by_kind@[j]).0 == kinds@[m],
                forall|m1: int, m2: int| 0 <= m1 < m2 < 8 ==> kinds@[m1] != kinds@[m2],
            decreases 8 - ki,
        {
            let k = kinds[ki];
            let (bytes, cnt) = self.kind_bytes(entries, k);
            if cnt > 0 {
                size_by_kind.push((k, bytes));
            }
            ki = ki + 1;
        }
        CacheSummary {
            total_size,
            total_count,
            stale_count,
            to_delete_count,
            to_skip_count,
            size_by_kind,
        }
    }
}

proof fn lemma_sum_take_le(s: Seq<EntryView>, i: int)
    requires
        0 <= i <= s.len(),
    ensures
        sum_sizes(s.take(i)) <= sum_sizes(s),
    decreases s.len() - i,
{
    if i < s.len() {
        assert(s.take(i + 1).drop_last() =~= s.take(i));
        lemma_sum_take_le(s, i + 1);
    } else {
        assert(s.take(i) =~= s);
    }
}

fn count_filtered_stale(entries: &Vec<CacheEntry>) -> (r: usize)
    ensures
        r == entries.deep_view().filter(|e: EntryView| is_stale_entry(e)).len(),
{
    let ghost s = entries.deep_view();
    let ghost pred = |e: EntryView| is_stale_entry(e);
    let mut count: usize = 0;
    let n = entries.len();
    for i in 0..n
        invariant
            n == entries@.len(),
            s == entries.deep_view(),
            pred == (|e: EntryView| is_stale_entry(e)),
            count == s.take(i as int).filter(pred).len(),
            count <= i,
    {
        proof {
            reveal(Seq::filter);
            assert(s.take(i + 1).drop_last() =~= s.take(i as int));
            assert(s.take(i + 1).last() == s[i as int]);
        }
        if entries[i].stale {
            count = count + 1;
        }
    }
    assert(s.take(n as int) =~= s);
    count
}

fn count_filtered_actionable(entries: &Vec<CacheEntry>) -> (r: usize)
    ensures
        r == entries.deep_view().filter(|e: EntryView| is_actionable(e)).len(),
{
    let ghost s = entries.deep_view();
    let ghost pred = |e: EntryView| is_actionable(e);
    let mut count: usize = 0;
    let n = entries.len();
    for i in 0..n
        invariant
            n == entries@.len(),
            s == entries.deep_view(),
            pred == (|e: EntryView| is_actionable(e)),
            count == s.take(i as int).filter(pred).len(),
            count <= i,
    {
        proof {
            reveal(Seq::filter);
            assert(s.take(i + 1).drop_last() =~= s.take(i as int));
            assert(s.take(i + 1).last() == s[i as int]);
        }
        let actionable = match entries[i].planned_action {
            Some(PlannedAction::Delete) => true,
            Some(PlannedAction::Backup) => true,
            _ => false,
        };
        if actionable {
            count = count + 1;
        }
    }
    assert(s.take(n as int) =~= s);
    count
}

fn count_filtered_skip(entries: &Vec<CacheEntry>) -> (r: usize)
    ensures
        r == entries.deep_view().filter(|e: EntryView| is_skip_only(e)).len(),
{
    let ghost s = entries.deep_view();
    let ghost pred = |e: EntryView| is_skip_only(e);
    let mut count: usize = 0;
    let n = entries.len();
    for i in 0..n
        invariant
            n == entries@.len(),
            s == entries.deep_view(),
            pred == (|e: EntryView| is_skip_only(e)),
            count == s.take(i as int).filter(pred).len(),
            count <= i,
    {
        proof {
            reveal(Seq::filter);
            assert(s.take(i + 1).drop_last() =~= s.take(i as int));
            assert(s.take(i + 1).last() == s[i as int]);
        }
        let skip = match entries[i].planned_action {
            Some(PlannedAction::Skip) => true,
            _ => false,
        };
        if skip {
            count = count + 1;
        }
    }
    assert(s.take(n as int) =~= s);
    count
}

impl CacheSummary {
    /// Get human-readable total size.
    pub fn total_size_human(&self) -> (r: String)
        ensures
            r@ == human_size_of(self.total_size),
    {
        format_size_decimal(self.total_size)
    }

    /// Get human-readable size by kind, in the same order as size_by_kind.
    pub fn size_by_kind_human(&self) -> (r: Vec<(CacheKind, String)>)
        ensures
            r@.len() == self.size_by_kind@.len(),
            forall|j: int| 0 <= j < r@.len() ==> (#[trigger] r@[j]).0 == self.size_by_kind@[j].0
                && r@[j].1@ == human_size_of(self.size_by_kind@[j].1),
    {
        let mut r: Vec<(CacheKind, String)> = Vec::new();
        let n = self.size_by_kind.len();
        for i in 0..n
            invariant
                n == self.size_by_kind@.len(),
                r@.len() == i,
                forall|j: int| 0 <= j < i ==> (#[trigger] r@[j]).0 == self.size_by_kind@[j].0
                    && r@[j].1@ == human_size_of(self.size_by_kind@[j].1),
        {
            let (k, sz) = self.size_by_kind[i];
            r.push((k, format_size_decimal(sz)));
        }
        r
    }
}

/// Stable insertion of an entry into a size-descending sequence: the new
/// element goes after every element at least as large.
pub open spec fn insert_desc(x: EntryView, s: Seq<EntryView>) -> Seq<EntryView>
    decreases s.len(),
{
    if s.len() == 0 {
        seq![x]
    } else if x.size_bytes > s.first().size_bytes {
        seq![x] + s
    } else {
        seq![s.first()] + insert_desc(x, s.drop_first())
    }
}

/// Stable descending sort by size: elements inserted left to right.
pub open spec fn sort_desc(s: Seq<EntryView>) -> Seq<EntryView>
    decreases s.len(),
{
    if s.len() == 0 {
        Seq::empty()
    } else {
        insert_desc(s.last(), sort_desc(s.drop_last()))
    }
}

proof fn lemma_insert_desc_len(x: EntryView, s: Seq<EntryView>)
    ensures
        insert_desc(x, s).len() == s.len() + 1,
    decreases s.len(),
{
    if s.len() > 0 && !(x.size_bytes > s.first().size_bytes) {
        lemma_insert_desc_len(x, s.drop_first());
    }
}

proof fn lemma_insert_desc_at(x: EntryView, s: Seq<EntryView>, p: int)
    requires
        0 <= p <= s.len(),
        forall|k: int| 0 <= k < p ==> (#[trigger] s[k]).size_bytes >= x.size_bytes,
        p < s.len() ==> x.size_bytes > s[p].size_bytes,
    ensures
        insert_desc(x, s) == s.take(p) + seq![x] + s.skip(p),
    decreases s.len(),
{
    if s.len() == 0 {
        assert(insert_desc(x, s) =~= s.take(p) + seq![x] + s.skip(p));
    } else if x.size_bytes > s.first().size_bytes {
        assert(p == 0);
        assert(insert_desc(x, s) =~= s.take(0) + seq![x] + s.skip(0));
    } else {
        assert(p >= 1) by {
            assert(s[0].size_bytes >= x.size_bytes || p == 0);
        }
        lemma_insert_desc_at(x, s.drop_first(), p - 1);
        assert(s.drop_first().take(p - 1) =~= s.skip(1).take(p - 1));
        assert(seq![s.first()] + (s.drop_first().take(p - 1) + seq![x] + s.drop_first().skip(p - 1))
            =~= s.take(p) + seq![x] + s.skip(p));
    }
}

impl CacheInspector {
    /// The `n` largest entries, size descending, ties kept in input order.
    pub fn get_largest_entries(&self, entries: &Vec<CacheEntry>, n: usize) -> (r: Vec<CacheEntry>)
        ensures
            r.deep_view() == sort_desc(entries.deep_view()).take(
                if n as int <= entries@.len() { n as int } else { entries@.len() as int },
            ),
    {
        let ghost s = entries.deep_view();
        let mut acc: Vec<CacheEntry> = Vec::new();
        let cnt = entries.len();
        proof {
            assert(acc.deep_view() =~= sort_desc(s.take(0)));
        }
        for i in 0..cnt
            invariant
                cnt == entries@.len(),
                s == entries.deep_view(),
                acc.deep_view() == sort_desc(s.take(i as int)),
                acc@.len() == i,
        {
            let x = entries[i].clone();
            let ghost sorted = acc.deep_view();
            proof {
                lemma_sort_desc_len(s.take(i as int));
            }
            let mut p: usize = 0;
            while p < acc.len() && acc[p].size_bytes >= x.size_bytes
                invariant
                    acc@.len() == i,
                    sorted == acc.deep_view(),
                    x@ == s[i as int],
                    p <= i,
                    forall|k: int| 0 <= k < p ==> (#[trigger] sorted[k]).size_bytes >= x@.size_bytes,
                decreases i - p,
            {
                p = p + 1;
            }
            proof {
                lemma_insert_desc_at(x@, sorted, p as int);
            }
            acc.insert(p, x);
            proof {
                assert(acc.deep_view() =~~= sorted.take(p as int) + seq![s[i as int]] + sorted.skip(
                    p as int,
                ));
                assert(s.take(i + 1).drop_last() =~= s.take(i as int));
                assert(s.take(i + 1).last() == s[i as int]);
                assert(acc.deep_view() == sort_desc(s.take(i + 1)));
            }
        }
        proof {
            assert(s.take(cnt as int) =~= s);
            lemma_sort_desc_len(s);
        }
        if n < acc.len() {
            acc.truncate(n);
            proof {
                assert(acc.deep_view() =~~= sort_desc(s).take(n as int));
            }
        } else {
            proof {
                assert(acc.deep_view() =~~= sort_desc(s).take(sort_desc(s).len() as int));
            }
        }
        acc
    }
}

proof fn lemma_sort_desc_len(s: Seq<EntryView>)
    ensures
        sort_desc(s).len() == s.len(),
    decreases s.len(),
{
    if s.len() > 0 {
        lemma_sort_desc_len(s.drop_last());
        lemma_insert_desc_len(s.last(), sort_desc(s.drop_last()));
    }
}

} // verus!
