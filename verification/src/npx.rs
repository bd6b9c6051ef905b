//! The npx cache: one store under the npm directory, listed whole and per
//! cached package, with the same staleness and disposition rules as the
//! generic pipeline.
use vstd::prelude::*;

use crate::cache_entry::{CacheEntry, CacheKind, EntryView, PlannedAction};
use crate::config::MergedConfig;
use crate::errors::CacheError;
use crate::inspect::spec_is_stale;
use crate::text::{joined, base_name_str, join_path};
use crate::util::{
    path_exists, is_dir, get_size, get_most_recent_mtime, home_dir, walk_paths, list_dir,
    create_dir_all_path, move_dir_path, remove_dir_path, get_backup_dir, create_backup_dir_name,
    human_size_of, format_size_decimal,
};

verus! {

/// What package.json parsing names for a cached package: nothing for a
/// text that is not JSON, else the `name` field, the `version` field, and
/// the first dependency key, each when present. JSON reading is a function
/// of the file text alone.
pub uninterp spec fn package_json_fields(s: Seq<char>) -> Option<
    (Option<Seq<char>>, Option<Seq<char>>, Option<Seq<char>>),
>;

/// Relies on serde_json: parses a package.json text — None when it is not
/// valid JSON — and hands out its `name`, `version`, and first dependency
/// key, each when present.
#[verifier::external_body]
fn parse_package_json_fields(content: &str) -> (r: Option<
    (Option<String>, Option<String>, Option<String>),
>)
    ensures
        (match r {
            Some((ref name, ref version, ref dep)) => Some(
                (
                    match name {
                        Some(v) => Some(v@),
                        None => None,
                    },
                    match version {
                        Some(v) => Some(v@),
                        None => None,
                    },
                    match dep {
                        Some(v) => Some(v@),
                        None => None,
                    },
                ),
            ),
            None => None,
        }) == package_json_fields(content@),
{
    let package: serde_json::Value = match serde_json::from_str(content) {
        Ok(v) => v,
        Err(_) => return None,
    };
    let name = package["name"].as_str().map(|s| s.to_string());
    let version = package["version"].as_str().map(|s| s.to_string());
    let first_dep = package["dependencies"].as_object().and_then(|deps| deps.keys().next().cloned());
    Some((name, version, first_dep))
}

/// The display name and version a package.json text yields, or nothing for
/// a text that is not JSON: the `name` field when present, else the first
/// dependency, else the given fallback; the `version` field when present.
pub fn package_info_from_json(content: &str, fallback: &str) -> (r: Option<(String, Option<String>)>)
    ensures
        match r {
            Some((ref name, ref version)) => package_json_fields(content@) matches Some(f)
                && name@ == (match f.0 {
                    Some(n) => n,
                    None => match f.2 {
                        Some(d) => d,
                        None => fallback@,
                    },
                })
                && (match version {
                    Some(v) => Some(v@),
                    None => None,
                }) == f.1,
            None => package_json_fields(content@) is None,
        },
{
    match parse_package_json_fields(content) {
        Some((jname, jversion, first_dep)) => {
            let name = match jname {
                Some(s) => s,
                None => match first_dep {
                    Some(d) => d,
                    None => fallback.to_owned(),
                },
            };
            Some((name, jversion))
        },
        None => None,
    }
}

/// One cached npx package.
#[derive(Debug, Clone)]
pub struct NpxPackage {
    pub name: String,
    pub version: Option<String>,
    pub size_bytes: u64,
    pub last_used: i64,
    pub path: String,
    pub stale: bool,
}

/// npx cache statistics.
#[derive(Debug, Clone)]
pub struct NpxStats {
    pub total_size: u64,
    pub total_count: usize,
    pub stale_count: usize,
    pub exists: bool,
}

/// npx cache manager.
pub struct NpxCacheManager {
    pub config: MergedConfig,
}

impl NpxCacheManager {
    /// Create a new npx cache manager.
    pub fn new(config: MergedConfig) -> (r: Self)
        ensures
            crate::config::config_view(r.config) == crate::config::config_view(config),
    {
        Self { config }
    }

    /// The npx cache directory: the `_npx` store under the npm directory in
    /// the user's home.
    pub fn get_npx_cache_dir() -> (r: Result<String, CacheError>)
        ensures
            r matches Ok(p) ==> exists|h: Seq<char>| p@ == joined(joined(h, ".npm"@), "_npx"@),
    {
        match home_dir() {
            Some(home) => {
                let npm = join_path(home.as_str(), ".npm");
                let p = join_path(npm.as_str(), "_npx");
                proof {
                    assert(p@ == joined(joined(home@, ".npm"@), "_npx"@));
                }
                Ok(p)
            },
            None => Err(CacheError::PathNotFound("~/.npm/_npx".to_owned())),
        }
    }

    /// Whether the npx cache exists on disk.
    pub fn npx_cache_exists() -> bool {
        match Self::get_npx_cache_dir() {
            Ok(p) => path_exists(p.as_str()) && is_dir(p.as_str()),
            Err(_) => false,
        }
    }

    /// Whether a timestamp counts as stale under this configuration.
    pub fn is_stale(&self, last_used: i64, now: i64) -> (r: bool)
        ensures
            r == spec_is_stale(last_used, now, self.config.stale_days),
    {
        if now < last_used {
            return false;
        }
        let diff: u128 = (now as i128 - last_used as i128) as u128;
        diff / 86400 > self.config.stale_days as u128
    }

    /// The action planned for npx stores: backup under safe delete, direct
    /// deletion otherwise.
    pub fn determine_planned_action(&self) -> (r: PlannedAction)
        ensures
            r == if self.config.safe_delete {
                PlannedAction::Backup
            } else {
                PlannedAction::Delete
            },
    {
        if self.config.safe_delete {
            PlannedAction::Backup
        } else {
            PlannedAction::Delete
        }
    }

    /// List the npx cache: one entry for the store as a whole, then one per
    /// top-level cached item.
    pub fn list_npx_cache(&self, now: i64) -> (r: Result<Vec<CacheEntry>, CacheError>)
        ensures
            r matches Ok(v) ==> forall|j: int| 0 <= j < v@.len() ==> {
                let e = #[trigger] v.deep_view()[j];
                e.kind == CacheKind::Npx
                    && e.stale == spec_is_stale(e.last_used, now, self.config.stale_days)
                    && e.planned_action == Some(
                    if self.config.safe_delete {
                        PlannedAction::Backup
                    } else {
                        PlannedAction::Delete
                    },
                )
            },
    {
        let npx_cache_dir = match Self::get_npx_cache_dir() {
            Ok(p) => p,
            Err(e) => {
                return Err(e);
            },
        };
        let mut entries: Vec<CacheEntry> = Vec::new();
        if !path_exists(npx_cache_dir.as_str()) {
            return Ok(entries);
        }
        let total_size = match get_size(npx_cache_dir.as_str()) {
            Ok(s) => s,
            Err(m) => {
                return Err(CacheError::InspectFailed(m));
            },
        };
        let last_used = match get_most_recent_mtime(npx_cache_dir.as_str()) {
            Ok(t) => t,
            Err(m) => {
                return Err(CacheError::InspectFailed(m));
            },
        };
        let stale = self.is_stale(last_used, now);
        let e = CacheEntry::new(npx_cache_dir.clone(), CacheKind::Npx, total_size, last_used, stale)
            .with_planned_action(self.determine_planned_action());
        let ghost prev = entries.deep_view();
        let ghost ev = e@;
        entries.push(e);
        proof {
            assert(entries.deep_view() =~~= prev.push(ev));
        }
        match list_dir(npx_cache_dir.as_str()) {
            Ok((dirs, _files)) => {
                let nd = dirs.len();
                for i in 0..nd
                    invariant
                        nd == dirs@.len(),
                        forall|j: int| 0 <= j < entries@.len() ==> {
                            let e = #[trigger] entries.deep_view()[j];
                            e.kind == CacheKind::Npx
                                && e.stale == spec_is_stale(
                                e.last_used,
                                now,
                                self.config.stale_days,
                            )
                                && e.planned_action == Some(
                                if self.config.safe_delete {
                                    PlannedAction::Backup
                                } else {
                                    PlannedAction::Delete
                                },
                            )
                        },
                {
                    if !crate::text::str_eq(dirs[i].as_str(), npx_cache_dir.as_str()) && is_dir(
                        dirs[i].as_str(),
                    ) {
                        let size = match get_size(dirs[i].as_str()) {
                            Ok(s) => s,
                            Err(_) => 0,
                        };
                        let last_used = match get_most_recent_mtime(dirs[i].as_str()) {
                            Ok(t) => t,
                            Err(_) => 0,
                        };
                        let stale = self.is_stale(last_used, now);
                        let e = CacheEntry::new(
                            dirs[i].clone(),
                            CacheKind::Npx,
                            size,
                            last_used,
                            stale,
                        ).with_planned_action(self.determine_planned_action());
                        let ghost prev = entries.deep_view();
                        let ghost ev = e@;
                        entries.push(e);
                        proof {
                            assert(entries.deep_view() =~~= prev.push(ev));
                        }
                    }
                }
            },
            Err(_) => {},
        }
        Ok(entries)
    }

    /// Total size of the npx cache in bytes; zero when absent.
    pub fn get_npx_cache_size(&self) -> (r: Result<u64, CacheError>) {
        let npx_cache_dir = match Self::get_npx_cache_dir() {
            Ok(p) => p,
            Err(e) => {
                return Err(e);
            },
        };
        if path_exists(npx_cache_dir.as_str()) {
            match get_size(npx_cache_dir.as_str()) {
                Ok(s) => Ok(s),
                Err(m) => Err(CacheError::InspectFailed(m)),
            }
        } else {
            Ok(0)
        }
    }

    /// Clear the npx cache: a move to a fresh timestamped backup under safe
    /// delete, a permanent removal otherwise. An absent cache is a success.
    pub fn clear_npx_cache(&self, project_root: &str, now: i64) -> (r: Result<(), CacheError>)
        requires
            0 <= now < crate::timefmt::max_timestamp(),
    {
        let npx_cache_dir = match Self::get_npx_cache_dir() {
            Ok(p) => p,
            Err(e) => {
                return Err(e);
            },
        };
        if !path_exists(npx_cache_dir.as_str()) {
            return Ok(());
        }
        if self.config.safe_delete {
            self.safe_delete_npx_cache(npx_cache_dir.as_str(), project_root, now)
        } else {
            self.hard_delete_npx_cache(npx_cache_dir.as_str())
        }
    }

    /// Move the npx cache into a fresh timestamped backup directory.
    fn safe_delete_npx_cache(&self, npx_cache_dir: &str, project_root: &str, now: i64) -> (r:
        Result<(), CacheError>)
        requires
            0 <= now < crate::timefmt::max_timestamp(),
    {
        let backup_dir = get_backup_dir(project_root);
        let stamp = create_backup_dir_name(now);
        let timestamped = join_path(backup_dir.as_str(), stamp.as_str());
        let npx_backup = join_path(timestamped.as_str(), "npx");
        match create_dir_all_path(npx_backup.as_str()) {
            Ok(()) => {},
            Err(m) => {
                return Err(CacheError::BackupRootFailed(m));
            },
        }
        match move_dir_path(npx_cache_dir, npx_backup.as_str()) {
            Ok(()) => Ok(()),
            Err(m) => Err(CacheError::MoveFailed(m)),
        }
    }

    /// Remove the npx cache permanently.
    fn hard_delete_npx_cache(&self, npx_cache_dir: &str) -> (r: Result<(), CacheError>) {
        match remove_dir_path(npx_cache_dir) {
            Ok(()) => Ok(()),
            Err(m) => Err(CacheError::RemoveFailed(m)),
        }
    }

    /// npx cache statistics: exact totals over the listing. A byte total
    /// beyond 64 bits is the one failure.
    pub fn get_npx_stats(&self, now: i64) -> (r: Result<NpxStats, CacheError>) {
        let entries = match self.list_npx_cache(now) {
            Ok(v) => v,
            Err(e) => {
                return Err(e);
            },
        };
        match crate::cache_entry::total_bytes_checked(&entries) {
            Some(_) => {},
            None => {
                return Err(CacheError::SizeOverflow);
            },
        }
        Ok(npx_stats_of(&entries, Self::npx_cache_exists()))
    }

    /// List cached packages with per-package details, gathered from each
    /// directory under the store holding a package.json.
    pub fn list_packages(&self, now: i64) -> (r: Result<Vec<NpxPackage>, CacheError>)
        ensures
            r matches Ok(v) ==> forall|j: int| 0 <= j < v@.len()
                ==> (#[trigger] v@[j]).stale == spec_is_stale(
                    v@[j].last_used,
                    now,
                    self.config.stale_days,
                ),
    {
        let npx_cache_dir = match Self::get_npx_cache_dir() {
            Ok(p) => p,
            Err(e) => {
                return Err(e);
            },
        };
        let mut packages: Vec<NpxPackage> = Vec::new();
        if !path_exists(npx_cache_dir.as_str()) {
            return Ok(packages);
        }
        let visited = walk_paths(npx_cache_dir.as_str(), 3);
        let n = visited.len();
        for i in 0..n
            invariant
                n == visited@.len(),
                forall|j: int| 0 <= j < packages@.len()
                    ==> (#[trigger] packages@[j]).stale == spec_is_stale(
                        packages@[j].last_used,
                        now,
                        self.config.stale_days,
                    ),
        {
            let dir = &visited[i];
            if is_dir(dir.as_str()) {
                let package_json = join_path(dir.as_str(), "package.json");
                if path_exists(package_json.as_str()) {
                    match crate::util::read_text_file(package_json.as_str()) {
                        Ok(content) => {
                            let fallback = base_name_str(dir.as_str());
                            match package_info_from_json(content.as_str(), fallback.as_str()) {
                                Some((name, jversion)) => {
                            let size = match get_size(dir.as_str()) {
                                Ok(s) => s,
                                Err(_) => 0,
                            };
                            let last_used = match get_most_recent_mtime(dir.as_str()) {
                                Ok(t) => t,
                                Err(_) => now,
                            };
                            let stale = self.is_stale(last_used, now);
                            packages.push(
                                NpxPackage {
                                    name,
                                    version: jversion,
                                    size_bytes: size,
                                    last_used,
                                    path: dir.clone(),
                                    stale,
                                },
                            );
                                },
                                // A package.json that is not JSON names no
                                // package: the directory is skipped.
                                None => {},
                            }
                        },
                        Err(_) => {},
                    }
                }
            }
        }
        // Largest first, as listings are read.
        let sorted = sort_packages_desc(packages);
        Ok(sorted)
    }
}

/// `p` is one of the packages of `s`.
pub open spec fn one_of_packages(p: NpxPackage, s: Seq<NpxPackage>) -> bool {
    exists|k: int| 0 <= k < s.len() && p == #[trigger] s[k]
}

/// Sorts packages by size, descending; every output package is one of the
/// inputs.
fn sort_packages_desc(packages: Vec<NpxPackage>) -> (r: Vec<NpxPackage>)
    ensures
        r@.len() == packages@.len(),
        forall|a: int, b: int| 0 <= a < b < r@.len()
            ==> (#[trigger] r@[a]).size_bytes >= (#[trigger] r@[b]).size_bytes,
        forall|j: int| 0 <= j < r@.len() ==> one_of_packages(#[trigger] r@[j], packages@),
{
    let ghost orig = packages@;
    let mut rest = packages;
    let mut acc: Vec<NpxPackage> = Vec::new();
    let mut i: usize = 0;
    let n = rest.len();
    proof {
        assert(rest@ =~= orig.skip(0));
    }
    while i < n
        invariant
            n == orig.len(),
            i <= n,
            rest@ == orig.skip(i as int),
            acc@.len() == i,
            forall|a: int, b: int| 0 <= a < b < acc@.len()
                ==> (#[trigger] acc@[a]).size_bytes >= (#[trigger] acc@[b]).size_bytes,
            forall|j: int| 0 <= j < acc@.len() ==> one_of_packages(#[trigger] acc@[j], orig),
        decreases n - i,
    {
        let x = rest.remove(0);
        proof {
            assert(x == orig.skip(i as int)[0]);
            assert(x == orig[i as int]);
            assert(orig.skip(i as int).remove(0) =~= orig.skip(i + 1));
        }
        let mut p: usize = 0;
        let ghost sorted = acc@;
        while p < acc.len() && acc[p].size_bytes >= x.size_bytes
            invariant
                acc@ == sorted,
                acc@.len() == i,
                p <= i,
                forall|k: int| 0 <= k < p ==> (#[trigger] acc@[k]).size_bytes >= x.size_bytes,
            decreases i - p,
        {
            p = p + 1;
        }
        proof {
            if (p as int) < sorted.len() {
                assert(sorted[p as int].size_bytes < x.size_bytes);
            }
        }
        acc.insert(p, x);
        proof {
            assert(acc@ =~= sorted.take(p as int) + seq![orig[i as int]] + sorted.skip(p as int));
            assert forall|a: int, b: int| 0 <= a < b < acc@.len()
                implies (#[trigger] acc@[a]).size_bytes >= (#[trigger] acc@[b]).size_bytes by {
                if b < p {
                    assert(acc@[a] == sorted[a] && acc@[b] == sorted[b]);
                } else if b == p {
                    assert(acc@[a] == sorted[a]);
                    assert(acc@[b] == orig[i as int]);
                } else if a < p {
                    assert(acc@[a] == sorted[a] && acc@[b] == sorted[b - 1]);
                    assert(sorted[a].size_bytes >= x.size_bytes);
                    assert(sorted[b - 1].size_bytes <= sorted[p as int].size_bytes);
                } else if a == p {
                    assert(acc@[a] == orig[i as int]);
                    assert(acc@[b] == sorted[b - 1]);
                    assert(sorted[b - 1].size_bytes <= sorted[p as int].size_bytes);
                } else {
                    assert(acc@[a] == sorted[a - 1] && acc@[b] == sorted[b - 1]);
                }
            }
            assert forall|j: int| 0 <= j < acc@.len() implies one_of_packages(
                #[trigger] acc@[j],
                orig,
            ) by {
                if j < p {
                    assert(acc@[j] == sorted[j]);
                } else if j == p {
                    assert(acc@[j] == orig[i as int]);
                } else {
                    assert(acc@[j] == sorted[j - 1]);
                }
            }
        }
        i = i + 1;
    }
    acc
}

/// The statistics one entry list yields: its byte total, its length, and
/// how many of its entries are stale.
pub fn npx_stats_of(entries: &Vec<CacheEntry>, cache_present: bool) -> (r: NpxStats)
    requires
        crate::cache_entry::sum_sizes(entries.deep_view()) <= u64::MAX,
    ensures
        r.total_size == crate::cache_entry::sum_sizes(entries.deep_view()),
        r.total_count == entries@.len(),
        r.stale_count == entries.deep_view().filter(|e: EntryView| e.stale).len(),
        r.exists == cache_present,
{
    let ghost s = entries.deep_view();
    let ghost pred = |e: EntryView| e.stale;
    let mut total_size: u64 = 0;
    let mut stale_count: usize = 0;
    let n = entries.len();
    proof {
        reveal(Seq::filter);
        assert(s.take(0).filter(pred) =~= Seq::<EntryView>::empty());
    }
    for i in 0..n
        invariant
            n == entries@.len(),
            s == entries.deep_view(),
            pred == (|e: EntryView| e.stale),
            crate::cache_entry::sum_sizes(s) <= u64::MAX,
            total_size == crate::cache_entry::sum_sizes(s.take(i as int)),
            stale_count == s.take(i as int).filter(pred).len(),
            stale_count <= i,
    {
        proof {
            reveal(Seq::filter);
            assert(s.take(i + 1).drop_last() =~= s.take(i as int));
            assert(s.take(i + 1).last() == s[i as int]);
            assert(crate::cache_entry::sum_sizes(s.take(i + 1))
                == crate::cache_entry::sum_sizes(s.take(i as int)) + s[i as int].size_bytes);
            crate::cache_entry::lemma_sum_take_le_entries(s, i + 1);
        }
        total_size = total_size + entries[i].size_bytes;
        if entries[i].stale {
            stale_count = stale_count + 1;
        }
    }
    proof {
        assert(s.take(n as int) =~= s);
    }
    NpxStats { total_size, total_count: n, stale_count, exists: cache_present }
}

impl NpxStats {
    /// Get human-readable total size.
    pub fn total_size_human(&self) -> (r: String)
        ensures
            r@ == human_size_of(self.total_size),
    {
        format_size_decimal(self.total_size)
    }
}

/// Whether an npx executable is on PATH.
pub fn is_npx_available() -> bool {
    crate::util::binary_available("npx")
}

} // verus!
