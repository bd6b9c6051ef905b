//! The PyTorch cache: listing the cache's files with a cache type and
//! framework version parsed from each path, statistics grouped by both, and
//! a staleness-driven cleanup plan, as for the HuggingFace cache.
use vstd::prelude::*;

use crate::cache_entry::{CacheEntry, CacheKind, PlannedAction};
use crate::config::MergedConfig;
use crate::errors::CacheError;
use crate::inspect::spec_is_stale;
use crate::text::{
    joined, join_path, split_sep, split_sep_exec, to_chars, from_chars, chars_eq,
    starts_with_chars, has_substring, contains_chars, copy_range,
};
use crate::util::{
    path_exists, is_dir, is_file, get_size, get_most_recent_mtime, home_dir, walk_paths,
    format_size_decimal,
};

verus! {

/// The cache type and version the first `k` path segments assign: known
/// segment names set the type, a `torch_`-prefixed segment names a version,
/// and later segments win.
pub open spec fn torch_scan(parts: Seq<Seq<char>>, k: int) -> (Seq<char>, Option<Seq<char>>)
    decreases k,
{
    if k <= 0 {
        ("unknown"@, None)
    } else {
        let prev = torch_scan(parts, k - 1);
        let part = parts[k - 1];
        if part == "checkpoints"@ {
            ("checkpoints"@, prev.1)
        } else if part == "hub"@ {
            ("hub"@, prev.1)
        } else if part == "datasets"@ {
            ("datasets"@, prev.1)
        } else if part == "models"@ {
            ("models"@, prev.1)
        } else if part == "transformers"@ {
            ("transformers"@, prev.1)
        } else if has_substring(part, "torch"@) && has_substring(part, "_"@) {
            if "torch_"@.is_prefix_of(part) {
                (prev.0, Some(part.skip(6)))
            } else {
                prev
            }
        } else {
            prev
        }
    }
}

/// What parsing a cache path yields: the scan's type — or, when no segment
/// named one, the parent directory's name — and the version.
pub open spec fn spec_parse_torch_path(p: Seq<char>) -> (Seq<char>, Option<Seq<char>>) {
    let parts = split_sep(p, '/');
    let sv = torch_scan(parts, parts.len() as int);
    if sv.0 == "unknown"@ {
        if parts.len() >= 2 && parts[parts.len() - 2].len() > 0 {
            (parts[parts.len() - 2], sv.1)
        } else {
            ("unknown"@, sv.1)
        }
    } else {
        sv
    }
}

/// PyTorch cache entry.
#[derive(Debug, Clone)]
pub struct TorchCacheEntry {
    pub path: String,
    pub size_bytes: u64,
    pub last_used: i64,
    pub cache_type: String,
    pub version: Option<String>,
}

/// PyTorch cache statistics.
#[derive(Debug, Clone)]
pub struct TorchStats {
    pub total_size_bytes: u64,
    pub total_size_human: String,
    pub entry_count: usize,
    pub cache_types: Vec<(String, u64)>,
    pub versions: Vec<(String, u64)>,
}

/// PyTorch cache manager.
pub struct TorchCacheManager {
    pub config: MergedConfig,
}

impl TorchCacheManager {
    pub fn new(config: MergedConfig) -> (r: Self)
        ensures
            crate::config::config_view(r.config) == crate::config::config_view(config),
    {
        Self { config }
    }

    /// The PyTorch cache directory under the user's home.
    pub fn get_torch_cache_dir() -> (r: Result<String, CacheError>)
        ensures
            r matches Ok(p) ==> exists|h: Seq<char>| p@ == joined(joined(h, ".cache"@), "torch"@),
    {
        match home_dir() {
            Some(home) => {
                let c = join_path(home.as_str(), ".cache");
                let p = join_path(c.as_str(), "torch");
                proof {
                    assert(p@ == joined(joined(home@, ".cache"@), "torch"@));
                }
                Ok(p)
            },
            None => Err(CacheError::PathNotFound("~/.cache/torch".to_owned())),
        }
    }

    /// Whether the PyTorch cache exists.
    pub fn cache_exists(&self) -> bool {
        match Self::get_torch_cache_dir() {
            Ok(d) => path_exists(d.as_str()) && is_dir(d.as_str()),
            Err(_) => false,
        }
    }

    /// Whether a timestamp counts as stale under this configuration.
    pub fn is_stale(&self, last_used: i64, now: i64) -> (r: bool)
        ensures
            r == spec_is_stale(last_used, now, self.config.stale_days),
    {
        if now < last_used {
            return false;
        }
        let diff: u128 = (now as i128 - last_used as i128) as u128;
        diff / 86400 > self.config.stale_days as u128
    }

    /// Parse a cache path: the cache type and the framework version.
    pub fn parse_torch_path(&self, path: &str) -> (r: (String, Option<String>))
        ensures
            (
                r.0@,
                match r.1 {
                    Some(ref v) => Some(v@),
                    None => None,
                },
            ) == spec_parse_torch_path(path@),
    {
        let cs = to_chars(path);
        let parts = split_sep_exec(&cs, '/');
        let ghost gp = split_sep(path@, '/');
        let n = parts.len();
        let mut cache_type = "unknown".to_owned();
        let mut version: Option<String> = None;
        let checkpoints = to_chars("checkpoints");
        let hub = to_chars("hub");
        let datasets = to_chars("datasets");
        let models = to_chars("models");
        let transformers = to_chars("transformers");
        let torch_marker = to_chars("torch");
        let underscore = to_chars("_");
        let torch_prefix = to_chars("torch_");
        for i in 0..n
            invariant
                n == parts@.len(),
                parts.deep_view() == gp,
                gp == split_sep(path@, '/'),
                checkpoints@ == "checkpoints"@,
                hub@ == "hub"@,
                datasets@ == "datasets"@,
                models@ == "models"@,
                transformers@ == "transformers"@,
                torch_marker@ == "torch"@,
                underscore@ == "_"@,
                torch_prefix@ == "torch_"@,
                (
                    cache_type@,
                    match version {
                        Some(ref v) => Some(v@),
                        None => None,
                    },
                ) == torch_scan(gp, i as int),
        {
            proof {
                reveal_strlit("torch_");
                assert(parts@[i as int]@ == gp[i as int]);
            }
            let part = &parts[i];
            if chars_eq(part, &checkpoints) {
                cache_type = "checkpoints".to_owned();
            } else if chars_eq(part, &hub) {
                cache_type = "hub".to_owned();
            } else if chars_eq(part, &datasets) {
                cache_type = "datasets".to_owned();
            } else if chars_eq(part, &models) {
                cache_type = "models".to_owned();
            } else if chars_eq(part, &transformers) {
                cache_type = "transformers".to_owned();
            } else if contains_chars(part, &torch_marker) && contains_chars(part, &underscore) {
                if starts_with_chars(part, &torch_prefix) {
                    let plen = part.len();
                    let tail = copy_range(part, 6, plen);
                    proof {
                        assert(tail@ =~= gp[i as int].skip(6));
                    }
                    version = Some(from_chars(&tail));
                }
            }
        }
        // No segment named a type: fall back to the parent directory name.
        let unknown = to_chars("unknown");
        let ct = to_chars(cache_type.as_str());
        if chars_eq(&ct, &unknown) && n >= 2 {
            proof {
                assert(parts@[n - 2]@ == gp[n as int - 2]);
            }
            if parts[n - 2].len() > 0 {
                cache_type = from_chars(&parts[n - 2]);
            }
        }
        (cache_type, version)
    }

    /// List the cache's files, largest first, with type and version parsed
    /// from each path.
    pub fn list_cache(&self, now: i64) -> (r: Result<Vec<TorchCacheEntry>, CacheError>)
        ensures
            r matches Ok(v) ==> {
                &&& forall|a: int, b: int| 0 <= a < b < v@.len()
                    ==> (#[trigger] v@[a]).size_bytes >= (#[trigger] v@[b]).size_bytes
                &&& forall|j: int| 0 <= j < v@.len() ==> {
                    let e = #[trigger] v@[j];
                    (
                        e.cache_type@,
                        match e.version {
                            Some(ref x) => Some(x@),
                            None => None,
                        },
                    ) == spec_parse_torch_path(e.path@)
                }
            },
    {
        let cache_dir = match Self::get_torch_cache_dir() {
            Ok(d) => d,
            Err(e) => {
                return Err(e);
            },
        };
        let mut entries: Vec<TorchCacheEntry> = Vec::new();
        if !self.cache_exists() {
            return Ok(entries);
        }
        let visited = walk_paths(cache_dir.as_str(), 4);
        let nv = visited.len();
        for i in 0..nv
            invariant
                nv == visited@.len(),
                forall|j: int| 0 <= j < entries@.len() ==> {
                    let e = #[trigger] entries@[j];
                    (
                        e.cache_type@,
                        match e.version {
                            Some(ref x) => Some(x@),
                            None => None,
                        },
                    ) == spec_parse_torch_path(e.path@)
                },
        {
            if is_file(visited[i].as_str()) {
                let size = match get_size(visited[i].as_str()) {
                    Ok(s) => s,
                    Err(_) => 0,
                };
                let last_used = match get_most_recent_mtime(visited[i].as_str()) {
                    Ok(t) => t,
                    Err(_) => now,
                };
                let (cache_type, version) = self.parse_torch_path(visited[i].as_str());
                entries.push(
                    TorchCacheEntry {
                        path: visited[i].clone(),
                        size_bytes: size,
                        last_used,
                        cache_type,
                        version,
                    },
                );
            }
        }
        Ok(sort_torch_desc(entries))
    }

    /// Cache statistics: totals and bytes grouped by type and version.
    pub fn get_stats(&self, now: i64) -> (r: Result<TorchStats, CacheError>) {
        let entries = match self.list_cache(now) {
            Ok(v) => v,
            Err(e) => {
                return Err(e);
            },
        };
        let n = entries.len();
        let mut total_size: u64 = 0;
        let mut cache_types: Vec<(String, u64)> = Vec::new();
        let mut versions: Vec<(String, u64)> = Vec::new();
        for i in 0..n
            invariant
                n == entries@.len(),
                crate::hf::distinct_keys(cache_types@),
                crate::hf::distinct_keys(versions@),
        {
            let sz = entries[i].size_bytes;
            if total_size > u64::MAX - sz {
                total_size = u64::MAX;
            } else {
                total_size = total_size + sz;
            }
            crate::hf::upsert_size(&mut cache_types, &entries[i].cache_type, sz);
            match &entries[i].version {
                Some(v) => {
                    crate::hf::upsert_size(&mut versions, v, sz);
                },
                None => {},
            }
        }
        Ok(
            TorchStats {
                total_size_bytes: total_size,
                total_size_human: format_size_decimal(total_size),
                entry_count: n,
                cache_types,
                versions,
            },
        )
    }

    /// Plan the cleanup: every cache file becomes an entry whose staleness
    /// alone decides it, backup when stale and skip otherwise.
    pub fn clean_cache(&self, now: i64) -> (r: Result<Vec<CacheEntry>, CacheError>)
        ensures
            r matches Ok(v) ==> forall|j: int| 0 <= j < v@.len() ==> {
                let e = #[trigger] v.deep_view()[j];
                e.kind == CacheKind::MachineLearning
                    && e.stale == spec_is_stale(e.last_used, now, self.config.stale_days)
                    && e.planned_action == Some(
                    if e.stale {
                        PlannedAction::Backup
                    } else {
                        PlannedAction::Skip
                    },
                )
            },
    {
        if !self.cache_exists() {
            return Ok(Vec::new());
        }
        let entries = match self.list_cache(now) {
            Ok(v) => v,
            Err(e) => {
                return Err(e);
            },
        };
        let mut cache_entries: Vec<CacheEntry> = Vec::new();
        let n = entries.len();
        for i in 0..n
            invariant
                n == entries@.len(),
                forall|j: int| 0 <= j < cache_entries@.len() ==> {
                    let e = #[trigger] cache_entries.deep_view()[j];
                    e.kind == CacheKind::MachineLearning
                        && e.stale == spec_is_stale(e.last_used, now, self.config.stale_days)
                        && e.planned_action == Some(
                        if e.stale {
                            PlannedAction::Backup
                        } else {
                            PlannedAction::Skip
                        },
                    )
                },
        {
            let is_stale = self.is_stale(entries[i].last_used, now);
            let planned_action = if is_stale {
                PlannedAction::Backup
            } else {
                PlannedAction::Skip
            };
            let e = CacheEntry::new(
                entries[i].path.clone(),
                CacheKind::MachineLearning,
                entries[i].size_bytes,
                entries[i].last_used,
                is_stale,
            ).with_planned_action(planned_action);
            let ghost prev = cache_entries.deep_view();
            let ghost ev = e@;
            cache_entries.push(e);
            proof {
                assert(cache_entries.deep_view() =~~= prev.push(ev));
            }
        }
        Ok(cache_entries)
    }
}

/// `e` is one of the entries of `s`.
pub open spec fn one_of_torch(e: TorchCacheEntry, s: Seq<TorchCacheEntry>) -> bool {
    exists|k: int| 0 <= k < s.len() && e == #[trigger] s[k]
}

/// Sorts cache entries by size, descending; every output entry is one of
/// the inputs.
fn sort_torch_desc(entries: Vec<TorchCacheEntry>) -> (r: Vec<TorchCacheEntry>)
    ensures
        r@.len() == entries@.len(),
        forall|a: int, b: int| 0 <= a < b < r@.len()
            ==> (#[trigger] r@[a]).size_bytes >= (#[trigger] r@[b]).size_bytes,
        forall|j: int| 0 <= j < r@.len() ==> one_of_torch(#[trigger] r@[j], entries@),
{
    let ghost orig = entries@;
    let mut rest = entries;
    let mut acc: Vec<TorchCacheEntry> = Vec::new();
    let mut i: usize = 0;
    let n = rest.len();
    proof {
        assert(rest@ =~= orig.skip(0));
    }
    while i < n
        invariant
            n == orig.len(),
            i <= n,
            rest@ == orig.skip(i as int),
            acc@.len() == i,
            forall|a: int, b: int| 0 <= a < b < acc@.len()
                ==> (#[trigger] acc@[a]).size_bytes >= (#[trigger] acc@[b]).size_bytes,
            forall|j: int| 0 <= j < acc@.len() ==> one_of_torch(#[trigger] acc@[j], orig),
        decreases n - i,
    {
        let x = rest.remove(0);
        proof {
            assert(x == orig[i as int]);
            assert(orig.skip(i as int).remove(0) =~= orig.skip(i + 1));
        }
        let mut p: usize = 0;
        let ghost sorted = acc@;
        while p < acc.len() && acc[p].size_bytes >= x.size_bytes
            invariant
                acc@ == sorted,
                acc@.len() == i,
                p <= i,
                forall|k: int| 0 <= k < p ==> (#[trigger] acc@[k]).size_bytes >= x.size_bytes,
            decreases i - p,
        {
            p = p + 1;
        }
        proof {
            if (p as int) < sorted.len() {
                assert(sorted[p as int].size_bytes < x.size_bytes);
            }
        }
        acc.insert(p, x);
        proof {
            assert(acc@ =~= sorted.take(p as int) + seq![orig[i as int]] + sorted.skip(p as int));
            assert forall|a: int, b: int| 0 <= a < b < acc@.len()
                implies (#[trigger] acc@[a]).size_bytes >= (#[trigger] acc@[b]).size_bytes by {
                if b < p {
                    assert(acc@[a] == sorted[a] && acc@[b] == sorted[b]);
                } else if b == p {
                    assert(acc@[a] == sorted[a]);
                    assert(acc@[b] == orig[i as int]);
                } else if a < p {
                    assert(acc@[a] == sorted[a] && acc@[b] == sorted[b - 1]);
                    assert(sorted[b - 1].size_bytes <= sorted[p as int].size_bytes);
                } else if a == p {
                    assert(acc@[a] == orig[i as int]);
                    assert(acc@[b] == sorted[b - 1]);
                    assert(sorted[b - 1].size_bytes <= sorted[p as int].size_bytes);
                } else {
                    assert(acc@[a] == sorted[a - 1] && acc@[b] == sorted[b - 1]);
                }
            }
            assert forall|j: int| 0 <= j < acc@.len() implies one_of_torch(
                #[trigger] acc@[j],
                orig,
            ) by {
                if j < p {
                    assert(acc@[j] == sorted[j]);
                } else if j == p {
                    assert(acc@[j] == orig[i as int]);
                } else {
                    assert(acc@[j] == sorted[j - 1]);
                }
            }
        }
        i = i + 1;
    }
    acc
}

} // verus!
