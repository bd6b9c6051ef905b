//! The HuggingFace cache: listing the hub's files with repository and model
//! names parsed out of their paths, statistics grouped by repository, and a
//! staleness-driven cleanup plan. Here, unlike the generic planner, staleness
//! alone decides: stale entries are backed up, fresh ones are skipped.
use vstd::prelude::*;

use crate::cache_entry::{CacheEntry, CacheKind, PlannedAction};
use crate::config::MergedConfig;
use crate::errors::CacheError;
use crate::inspect::spec_is_stale;
use crate::text::{
    joined, base_name, join_path, split_sep, split_sep_exec, to_chars, from_chars, chars_eq,
    starts_with_chars, replace_all, replace_all_chars, copy_range,
};
use crate::util::{
    path_exists, is_dir, is_file, get_size, get_most_recent_mtime, home_dir, walk_paths,
    format_size_decimal,
};

verus! {

/// Everything after the last dot, kept when the dot is past the first
/// character of the base name; `unknown` otherwise.
pub open spec fn after_last_dot(b: Seq<char>) -> Seq<char>
    decreases b.len(),
{
    if b.len() == 0 {
        b
    } else if b.last() == '.' {
        Seq::empty()
    } else {
        after_last_dot(b.drop_last()).push(b.last())
    }
}

/// The extension a path's base name carries, or `unknown`.
pub open spec fn ext_of(p: Seq<char>) -> Seq<char> {
    let b = base_name(p);
    if exists|i: int| 1 <= i < b.len() && b[i] == '.' {
        after_last_dot(b)
    } else {
        "unknown"@
    }
}

/// One hub path segment rewritten to a repository name: the `models--`
/// marker dropped and the `--` separators turned into slashes.
pub open spec fn hub_repo_name(part: Seq<char>) -> Seq<char> {
    replace_all(replace_all(part, "models--"@, Seq::empty()), "--"@, "/"@)
}

/// The repository and model names the first `k` path segments assign: a
/// `hub` segment followed by a `models--` name sets both; a `datasets`
/// segment names only the repository; later segments win.
pub open spec fn hf_scan(parts: Seq<Seq<char>>, k: int) -> (Option<Seq<char>>, Option<Seq<char>>)
    decreases k,
{
    if k <= 0 {
        (None, None)
    } else {
        let prev = hf_scan(parts, k - 1);
        let i = k - 1;
        if parts[i] == "hub"@ && i + 1 < parts.len() {
            if "models--"@.is_prefix_of(parts[i + 1]) {
                (Some(hub_repo_name(parts[i + 1])), Some(hub_repo_name(parts[i + 1])))
            } else {
                prev
            }
        } else if parts[i] == "datasets"@ && i + 1 < parts.len() {
            (Some(parts[i + 1]), prev.1)
        } else {
            prev
        }
    }
}

/// What parsing a cache path yields: repository, model, and file type.
pub open spec fn spec_parse_hf_path(p: Seq<char>) -> (
    Option<Seq<char>>,
    Option<Seq<char>>,
    Seq<char>,
) {
    let parts = split_sep(p, '/');
    let rm = hf_scan(parts, parts.len() as int);
    (rm.0, rm.1, ext_of(p))
}

/// HuggingFace cache entry.
#[derive(Debug, Clone)]
pub struct HfCacheEntry {
    pub path: String,
    pub size_bytes: u64,
    pub last_used: i64,
    pub repo_name: Option<String>,
    pub model_id: Option<String>,
    pub file_type: String,
}

/// HuggingFace cache statistics.
#[derive(Debug, Clone)]
pub struct HfStats {
    pub total_size_bytes: u64,
    pub total_size_human: String,
    pub entry_count: usize,
    pub repo_count: usize,
    pub model_count: usize,
    pub top_repos: Vec<(String, u64)>,
    pub top_models: Vec<(String, u64)>,
}

/// HuggingFace cache manager.
pub struct HfCacheManager {
    pub config: MergedConfig,
}

impl HfCacheManager {
    pub fn new(config: MergedConfig) -> (r: Self)
        ensures
            crate::config::config_view(r.config) == crate::config::config_view(config),
    {
        Self { config }
    }

    /// The HuggingFace cache directory under the user's home.
    pub fn get_hf_cache_dir() -> (r: Result<String, CacheError>)
        ensures
            r matches Ok(p) ==> exists|h: Seq<char>|
                p@ == joined(joined(h, ".cache"@), "huggingface"@),
    {
        match home_dir() {
            Some(home) => {
                let c = join_path(home.as_str(), ".cache");
                let p = join_path(c.as_str(), "huggingface");
                proof {
                    assert(p@ == joined(joined(home@, ".cache"@), "huggingface"@));
                }
                Ok(p)
            },
            None => Err(CacheError::PathNotFound("~/.cache/huggingface".to_owned())),
        }
    }

    /// Whether the HuggingFace cache exists.
    pub fn cache_exists(&self) -> bool {
        match Self::get_hf_cache_dir() {
            Ok(d) => path_exists(d.as_str()) && is_dir(d.as_str()),
            Err(_) => false,
        }
    }

    /// Whether a timestamp counts as stale under this configuration.
    pub fn is_stale(&self, last_used: i64, now: i64) -> (r: bool)
        ensures
            r == spec_is_stale(last_used, now, self.config.stale_days),
    {
        if now < last_used {
            return false;
        }
        let diff: u128 = (now as i128 - last_used as i128) as u128;
        diff / 86400 > self.config.stale_days as u128
    }

    /// Parse a cache path: repository and model names, and the file type.
    pub fn parse_hf_path(&self, path: &str) -> (r: (Option<String>, Option<String>, String))
        ensures
            (
                match r.0 {
                    Some(ref v) => Some(v@),
                    None => None,
                },
                match r.1 {
                    Some(ref v) => Some(v@),
                    None => None,
                },
                r.2@,
            ) == spec_parse_hf_path(path@),
    {
        let cs = to_chars(path);
        let parts = split_sep_exec(&cs, '/');
        let ghost gp = split_sep(path@, '/');
        let n = parts.len();
        let mut repo: Option<String> = None;
        let mut model: Option<String> = None;
        let hub = to_chars("hub");
        let datasets = to_chars("datasets");
        let models_marker = to_chars("models--");
        let dashes = to_chars("--");
        let slash = to_chars("/");
        let empty: Vec<char> = Vec::new();
        for i in 0..n
            invariant
                n == parts@.len(),
                parts.deep_view() == gp,
                gp == split_sep(path@, '/'),
                hub@ == "hub"@,
                datasets@ == "datasets"@,
                models_marker@ == "models--"@,
                dashes@ == "--"@,
                slash@ == "/"@,
                empty@ == Seq::<char>::empty(),
                (
                    match repo {
                        Some(ref v) => Some(v@),
                        None => None,
                    },
                    match model {
                        Some(ref v) => Some(v@),
                        None => None,
                    },
                ) == hf_scan(gp, i as int),
        {
            proof {
                reveal_strlit("models--");
                reveal_strlit("--");
                assert(parts@[i as int]@ == gp[i as int]);
                if i + 1 < n {
                    assert(parts@[i as int + 1]@ == gp[i as int + 1]);
                }
            }
            if chars_eq(&parts[i], &hub) && i + 1 < n {
                if starts_with_chars(&parts[i + 1], &models_marker) {
                    let stripped = replace_all_chars(&parts[i + 1], &models_marker, &empty);
                    let name = replace_all_chars(&stripped, &dashes, &slash);
                    proof {
                        assert(name@ == hub_repo_name(gp[i as int + 1]));
                    }
                    let nm = from_chars(&name);
                    repo = Some(nm.clone());
                    model = Some(nm);
                }
            } else if chars_eq(&parts[i], &datasets) && i + 1 < n {
                repo = Some(from_chars(&parts[i + 1]));
            }
        }
        let file_type = extension_of(path);
        (repo, model, file_type)
    }

    /// List the cache's files, largest first, with names parsed from each
    /// path.
    pub fn list_cache(&self, now: i64) -> (r: Result<Vec<HfCacheEntry>, CacheError>)
        ensures
            r matches Ok(v) ==> {
                &&& forall|a: int, b: int| 0 <= a < b < v@.len()
                    ==> (#[trigger] v@[a]).size_bytes >= (#[trigger] v@[b]).size_bytes
                &&& forall|j: int| 0 <= j < v@.len() ==> {
                    let e = #[trigger] v@[j];
                    (
                        match e.repo_name {
                            Some(ref x) => Some(x@),
                            None => None,
                        },
                        match e.model_id {
                            Some(ref x) => Some(x@),
                            None => None,
                        },
                        e.file_type@,
                    ) == spec_parse_hf_path(e.path@)
                }
            },
    {
        let cache_dir = match Self::get_hf_cache_dir() {
            Ok(d) => d,
            Err(e) => {
                return Err(e);
            },
        };
        let mut entries: Vec<HfCacheEntry> = Vec::new();
        if !self.cache_exists() {
            return Ok(entries);
        }
        let visited = walk_paths(cache_dir.as_str(), 3);
        let nv = visited.len();
        for i in 0..nv
            invariant
                nv == visited@.len(),
                forall|j: int| 0 <= j < entries@.len() ==> {
                    let e = #[trigger] entries@[j];
                    (
                        match e.repo_name {
                            Some(ref x) => Some(x@),
                            None => None,
                        },
                        match e.model_id {
                            Some(ref x) => Some(x@),
                            None => None,
                        },
                        e.file_type@,
                    ) == spec_parse_hf_path(e.path@)
                },
        {
            if is_file(visited[i].as_str()) {
                let size = match get_size(visited[i].as_str()) {
                    Ok(s) => s,
                    Err(_) => 0,
                };
                let last_used = match get_most_recent_mtime(visited[i].as_str()) {
                    Ok(t) => t,
                    Err(_) => now,
                };
                let (repo_name, model_id, file_type) = self.parse_hf_path(visited[i].as_str());
                entries.push(
                    HfCacheEntry {
                        path: visited[i].clone(),
                        size_bytes: size,
                        last_used,
                        repo_name,
                        model_id,
                        file_type,
                    },
                );
            }
        }
        Ok(sort_hf_desc(entries))
    }

    /// Cache statistics: totals, and the largest repositories and models.
    pub fn get_stats(&self, now: i64) -> (r: Result<HfStats, CacheError>) {
        let entries = match self.list_cache(now) {
            Ok(v) => v,
            Err(e) => {
                return Err(e);
            },
        };
        let n = entries.len();
        let mut total_size: u64 = 0;
        let mut repo_sizes: Vec<(String, u64)> = Vec::new();
        let mut model_sizes: Vec<(String, u64)> = Vec::new();
        for i in 0..n
            invariant
                n == entries@.len(),
                distinct_keys(repo_sizes@),
                distinct_keys(model_sizes@),
        {
            let sz = entries[i].size_bytes;
            if total_size > u64::MAX - sz {
                total_size = u64::MAX;
            } else {
                total_size = total_size + sz;
            }
            match &entries[i].repo_name {
                Some(repo) => {
                    upsert_size(&mut repo_sizes, repo, sz);
                },
                None => {},
            }
            match &entries[i].model_id {
                Some(model) => {
                    upsert_size(&mut model_sizes, model, sz);
                },
                None => {},
            }
        }
        let repo_count = repo_sizes.len();
        let model_count = model_sizes.len();
        let mut top_repos = sort_sizes_desc(repo_sizes);
        if top_repos.len() > 10 {
            top_repos.truncate(10);
        }
        let mut top_models = sort_sizes_desc(model_sizes);
        if top_models.len() > 10 {
            top_models.truncate(10);
        }
        Ok(
            HfStats {
                total_size_bytes: total_size,
                total_size_human: format_size_decimal(total_size),
                entry_count: n,
                repo_count,
                model_count,
                top_repos,
                top_models,
            },
        )
    }

    /// Plan the cleanup: every cache file — restricted to one model when one
    /// is named — becomes an entry whose staleness alone decides it, backup
    /// when stale and skip otherwise.
    pub fn clean_cache(&self, model_id: Option<&str>, now: i64) -> (r: Result<
        Vec<CacheEntry>,
        CacheError,
    >)
        ensures
            r matches Ok(v) ==> forall|j: int| 0 <= j < v@.len() ==> {
                let e = #[trigger] v.deep_view()[j];
                e.kind == CacheKind::MachineLearning
                    && e.stale == spec_is_stale(e.last_used, now, self.config.stale_days)
                    && e.planned_action == Some(
                    if e.stale {
                        PlannedAction::Backup
                    } else {
                        PlannedAction::Skip
                    },
                )
            },
    {
        if !self.cache_exists() {
            return Ok(Vec::new());
        }
        let entries = match self.list_cache(now) {
            Ok(v) => v,
            Err(e) => {
                return Err(e);
            },
        };
        let mut cache_entries: Vec<CacheEntry> = Vec::new();
        let n = entries.len();
        for i in 0..n
            invariant
                n == entries@.len(),
                forall|j: int| 0 <= j < cache_entries@.len() ==> {
                    let e = #[trigger] cache_entries.deep_view()[j];
                    e.kind == CacheKind::MachineLearning
                        && e.stale == spec_is_stale(e.last_used, now, self.config.stale_days)
                        && e.planned_action == Some(
                        if e.stale {
                            PlannedAction::Backup
                        } else {
                            PlannedAction::Skip
                        },
                    )
                },
        {
            let keep = match model_id {
                Some(target) => match &entries[i].model_id {
                    Some(m) => crate::text::str_eq(m.as_str(), target),
                    None => false,
                },
                None => true,
            };
            if keep {
                let is_stale = self.is_stale(entries[i].last_used, now);
                let planned_action = if is_stale {
                    PlannedAction::Backup
                } else {
                    PlannedAction::Skip
                };
                let e = CacheEntry::new(
                    entries[i].path.clone(),
                    CacheKind::MachineLearning,
                    entries[i].size_bytes,
                    entries[i].last_used,
                    is_stale,
                ).with_planned_action(planned_action);
                let ghost prev = cache_entries.deep_view();
                let ghost ev = e@;
                cache_entries.push(e);
                proof {
                    assert(cache_entries.deep_view() =~~= prev.push(ev));
                }
            }
        }
        Ok(cache_entries)
    }
}

/// The extension of a path's base name, or `unknown`.
pub fn extension_of(path: &str) -> (r: String)
    ensures
        r@ == ext_of(path@),
{
    let cs = to_chars(path);
    let b = crate::text::base_name_chars(&cs);
    let n = b.len();
    let mut j: usize = n;
    while j > 0 && b[j - 1] != '.'
        invariant
            n == b@.len(),
            j <= n,
            forall|k: int| j <= k < n ==> b@[k] != '.',
        decreases j,
    {
        j = j - 1;
    }
    if j >= 2 {
        // A dot past the first character: the suffix after it.
        proof {
            assert(b@[j - 1] == '.');
            assert(1 <= j - 1 < b@.len());
            lemma_after_last_dot(b@, j as int);
        }
        let suffix = copy_range(&b, j, n);
        from_chars(&suffix)
    } else {
        proof {
            if exists|i: int| 1 <= i < b@.len() && b@[i] == '.' {
                let w = choose|i: int| 1 <= i < b@.len() && b@[i] == '.';
                assert(b@[w] != '.');
            }
        }
        "unknown".to_owned()
    }
}

proof fn lemma_after_last_dot(b: Seq<char>, j: int)
    requires
        1 <= j <= b.len(),
        b[j - 1] == '.',
        forall|k: int| j <= k < b.len() ==> b[k] != '.',
    ensures
        after_last_dot(b) == b.subrange(j, b.len() as int),
    decreases b.len(),
{
    if j == b.len() {
        assert(b.last() == '.');
        assert(after_last_dot(b) =~= b.subrange(j, b.len() as int));
    } else {
        assert(b.last() != '.');
        lemma_after_last_dot(b.drop_last(), j);
        assert(b.drop_last().subrange(j, b.len() - 1) =~= b.subrange(j, b.len() - 1));
        assert(after_last_dot(b) =~= b.subrange(j, b.len() as int));
    }
}

/// Association keys are pairwise distinct.
pub open spec fn distinct_keys(s: Seq<(String, u64)>) -> bool {
    forall|a: int, b: int| 0 <= a < b < s.len() ==> (#[trigger] s[a]).0@ != (#[trigger] s[b]).0@
}

/// Add `size` to the named key's total, inserting the key when absent; the
/// totals saturate.
pub fn upsert_size(acc: &mut Vec<(String, u64)>, key: &String, size: u64)
    requires
        distinct_keys(old(acc)@),
    ensures
        distinct_keys(final(acc)@),
{
    let n = acc.len();
    let mut i: usize = 0;
    while i < n
        invariant
            n == acc@.len(),
            i <= n,
            distinct_keys(acc@),
            forall|k: int| 0 <= k < i ==> (#[trigger] acc@[k]).0@ != key@,
        decreases n - i,
    {
        if crate::text::str_eq(acc[i].0.as_str(), key.as_str()) {
            let cur = acc[i].1;
            let updated = if cur > u64::MAX - size {
                u64::MAX
            } else {
                cur + size
            };
            let k2 = acc[i].0.clone();
            let ghost prev = acc@;
            acc.set(i, (k2, updated));
            proof {
                assert(acc@[i as int].0@ == prev[i as int].0@);
                assert(forall|a: int| 0 <= a < acc@.len() && a != i
                    ==> #[trigger] acc@[a] == prev[a]);
            }
            return ;
        }
        i = i + 1;
    }
    let ghost prev = acc@;
    acc.push((key.clone(), size));
    proof {
        assert(acc@ =~= prev.push((acc@[prev.len() as int].0, size)));
        assert(acc@[prev.len() as int].0@ == key@);
        assert(forall|a: int| 0 <= a < prev.len() ==> #[trigger] acc@[a] == prev[a]);
    }
}

/// Sorts an association list by total, descending.
fn sort_sizes_desc(items: Vec<(String, u64)>) -> (r: Vec<(String, u64)>)
    ensures
        r@.len() == items@.len(),
        forall|a: int, b: int| 0 <= a < b < r@.len()
            ==> (#[trigger] r@[a]).1 >= (#[trigger] r@[b]).1,
{
    let ghost orig = items@;
    let mut rest = items;
    let mut acc: Vec<(String, u64)> = Vec::new();
    let mut i: usize = 0;
    let n = rest.len();
    proof {
        assert(rest@ =~= orig.skip(0));
    }
    while i < n
        invariant
            n == orig.len(),
            i <= n,
            rest@ == orig.skip(i as int),
            acc@.len() == i,
            forall|a: int, b: int| 0 <= a < b < acc@.len()
                ==> (#[trigger] acc@[a]).1 >= (#[trigger] acc@[b]).1,
        decreases n - i,
    {
        let x = rest.remove(0);
        proof {
            assert(orig.skip(i as int).remove(0) =~= orig.skip(i + 1));
        }
        let mut p: usize = 0;
        let ghost sorted = acc@;
        while p < acc.len() && acc[p].1 >= x.1
            invariant
                acc@ == sorted,
                acc@.len() == i,
                p <= i,
                forall|k: int| 0 <= k < p ==> (#[trigger] acc@[k]).1 >= x.1,
            decreases i - p,
        {
            p = p + 1;
        }
        proof {
            if (p as int) < sorted.len() {
                assert(sorted[p as int].1 < x.1);
            }
        }
        let ghost xv = x;
        acc.insert(p, x);
        proof {
            assert(acc@ =~= sorted.take(p as int) + seq![xv] + sorted.skip(p as int));
            assert forall|a: int, b: int| 0 <= a < b < acc@.len()
                implies (#[trigger] acc@[a]).1 >= (#[trigger] acc@[b]).1 by {
                if b < p {
                    assert(acc@[a] == sorted[a] && acc@[b] == sorted[b]);
                } else if b == p {
                    assert(acc@[a] == sorted[a]);
                    assert(acc@[b] == xv);
                } else if a < p {
                    assert(acc@[a] == sorted[a] && acc@[b] == sorted[b - 1]);
                    assert(sorted[b - 1].1 <= sorted[p as int].1);
                } else if a == p {
                    assert(acc@[a] == xv);
                    assert(acc@[b] == sorted[b - 1]);
                    assert(sorted[b - 1].1 <= sorted[p as int].1);
                } else {
                    assert(acc@[a] == sorted[a - 1] && acc@[b] == sorted[b - 1]);
                }
            }
        }
        i = i + 1;
    }
    acc
}

/// `e` is one of the entries of `s`.
pub open spec fn one_of_hf(e: HfCacheEntry, s: Seq<HfCacheEntry>) -> bool {
    exists|k: int| 0 <= k < s.len() && e == #[trigger] s[k]
}

/// Sorts cache entries by size, descending; every output entry is one of
/// the inputs.
fn sort_hf_desc(entries: Vec<HfCacheEntry>) -> (r: Vec<HfCacheEntry>)
    ensures
        r@.len() == entries@.len(),
        forall|a: int, b: int| 0 <= a < b < r@.len()
            ==> (#[trigger] r@[a]).size_bytes >= (#[trigger] r@[b]).size_bytes,
        forall|j: int| 0 <= j < r@.len() ==> one_of_hf(#[trigger] r@[j], entries@),
{
    let ghost orig = entries@;
    let mut rest = entries;
    let mut acc: Vec<HfCacheEntry> = Vec::new();
    let mut i: usize = 0;
    let n = rest.len();
    proof {
        assert(rest@ =~= orig.skip(0));
    }
    while i < n
        invariant
            n == orig.len(),
            i <= n,
            rest@ == orig.skip(i as int),
            acc@.len() == i,
            forall|a: int, b: int| 0 <= a < b < acc@.len()
                ==> (#[trigger] acc@[a]).size_bytes >= (#[trigger] acc@[b]).size_bytes,
            forall|j: int| 0 <= j < acc@.len() ==> one_of_hf(#[trigger] acc@[j], orig),
        decreases n - i,
    {
        let x = rest.remove(0);
        proof {
            assert(x == orig[i as int]);
            assert(orig.skip(i as int).remove(0) =~= orig.skip(i + 1));
        }
        let mut p: usize = 0;
        let ghost sorted = acc@;
        while p < acc.len() && acc[p].size_bytes >= x.size_bytes
            invariant
                acc@ == sorted,
                acc@.len() == i,
                p <= i,
                forall|k: int| 0 <= k < p ==> (#[trigger] acc@[k]).size_bytes >= x.size_bytes,
            decreases i - p,
        {
            p = p + 1;
        }
        proof {
            if (p as int) < sorted.len() {
                assert(sorted[p as int].size_bytes < x.size_bytes);
            }
        }
        acc.insert(p, x);
        proof {
            assert(acc@ =~= sorted.take(p as int) + seq![orig[i as int]] + sorted.skip(p as int));
            assert forall|a: int, b: int| 0 <= a < b < acc@.len()
                implies (#[trigger] acc@[a]).size_bytes >= (#[trigger] acc@[b]).size_bytes by {
                if b < p {
                    assert(acc@[a] == sorted[a] && acc@[b] == sorted[b]);
                } else if b == p {
                    assert(acc@[a] == sorted[a]);
                    assert(acc@[b] == orig[i as int]);
                } else if a < p {
                    assert(acc@[a] == sorted[a] && acc@[b] == sorted[b - 1]);
                    assert(sorted[b - 1].size_bytes <= sorted[p as int].size_bytes);
                } else if a == p {
                    assert(acc@[a] == orig[i as int]);
                    assert(acc@[b] == sorted[b - 1]);
                    assert(sorted[b - 1].size_bytes <= sorted[p as int].size_bytes);
                } else {
                    assert(acc@[a] == sorted[a - 1] && acc@[b] == sorted[b - 1]);
                }
            }
            assert forall|j: int| 0 <= j < acc@.len() implies one_of_hf(
                #[trigger] acc@[j],
                orig,
            ) by {
                if j < p {
                    assert(acc@[j] == sorted[j]);
                } else if j == p {
                    assert(acc@[j] == orig[i as int]);
                } else {
                    assert(acc@[j] == sorted[j - 1]);
                }
            }
        }
        i = i + 1;
    }
    acc
}

} // verus!
