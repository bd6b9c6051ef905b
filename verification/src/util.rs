//! Filesystem and environment primitives. The trusted wrappers here are the
//! library's only window onto the outside world; everything that computes on
//! their results is verified.
use vstd::prelude::*;
use std::path::Path;

use crate::text::{joined, to_chars, join_path, starts_with_chars};

verus! {

/// What `humansize::format_size` with decimal units prints for a byte count:
/// a function of the count alone.
pub uninterp spec fn human_size_of(n: u64) -> Seq<char>;

/// Relies on humansize::format_size with decimal units; the result depends on
/// the byte count alone, and an exact count below 1000 is printed in bytes.
#[verifier::external_body]
pub fn format_size_decimal(n: u64) -> (r: String)
    ensures
        r@ == human_size_of(n),
{
    humansize::format_size(n, humansize::DECIMAL)
}

/// Whether a path matches at least one of a set of glob patterns, as
/// globset decides it: a function of the path and the patterns alone.
/// Patterns that do not compile are ignored.
pub uninterp spec fn glob_matches(path: Seq<char>, patterns: Seq<Seq<char>>) -> bool;

/// Relies on globset: compiles the patterns (ignoring invalid ones, as a
/// GlobSetBuilder caller must choose to) and matches the path against the set.
#[verifier::external_body]
pub fn matches_any_glob(path: &str, patterns: &Vec<String>) -> (r: bool)
    ensures
        r == glob_matches(path@, patterns.deep_view()),
{
    let mut builder = globset::GlobSetBuilder::new();
    for pattern in patterns {
        if let Ok(glob) = globset::Glob::new(pattern) {
            let _ = builder.add(glob);
        }
    }
    match builder.build() {
        Ok(glob_set) => glob_set.is_match(Path::new(path)),
        Err(_) => false,
    }
}

/// Relies on std's Path::exists.
#[verifier::external_body]
pub fn path_exists(path: &str) -> bool {
    Path::new(path).exists()
}

/// Relies on std's Path::is_file.
#[verifier::external_body]
pub fn is_file(path: &str) -> bool {
    Path::new(path).is_file()
}

/// Relies on std's Path::is_dir.
#[verifier::external_body]
pub fn is_dir(path: &str) -> bool {
    Path::new(path).is_dir()
}

/// Relies on std's Path::metadata: the size of one file, in bytes.
#[verifier::external_body]
pub fn file_size(path: &str) -> (r: Result<u64, String>) {
    match Path::new(path).metadata() {
        Ok(m) => Ok(m.len()),
        Err(e) => Err(e.to_string()),
    }
}

/// Relies on std's Path::metadata and chrono's conversion from SystemTime:
/// a path's modification time as whole seconds since the Unix epoch.
#[verifier::external_body]
pub fn mtime_unix(path: &str) -> (r: Result<i64, String>) {
    match Path::new(path).metadata().and_then(|m| m.modified()) {
        Ok(t) => Ok(chrono::DateTime::<chrono::Utc>::from(t).timestamp()),
        Err(e) => Err(e.to_string()),
    }
}

/// Relies on chrono's Utc::now: the wall clock as whole seconds since the
/// Unix epoch. Nothing is promised of a clock.
#[verifier::external_body]
pub fn now_unix() -> i64 {
    chrono::Utc::now().timestamp()
}

/// Relies on walkdir: every path under `path` (itself included) up to
/// `max_depth` levels down, not following symlinks; unreadable entries are
/// skipped, as the walk's caller must choose to.
#[verifier::external_body]
pub fn walk_paths(path: &str, max_depth: usize) -> (r: Vec<String>) {
    walkdir::WalkDir::new(path)
        .follow_links(false)
        .max_depth(max_depth)
        .into_iter()
        .filter_map(|e| e.ok())
        .map(|e| e.path().to_string_lossy().to_string())
        .collect()
}

/// Relies on fs_extra's get_dir_content2 at depth one: the directories (the
/// root itself among them) and the files directly under `path`.
#[verifier::external_body]
pub fn list_dir(path: &str) -> (r: Result<(Vec<String>, Vec<String>), String>) {
    let mut options = fs_extra::dir::DirOptions::new();
    options.depth = 1;
    match fs_extra::dir::get_dir_content2(path, &options) {
        Ok(c) => Ok((c.directories, c.files)),
        Err(e) => Err(e.to_string()),
    }
}

/// Relies on fs_extra's dir::move_dir with copy_inside, which moves the
/// directory `from` so that its content appears at exactly `to` when `to`
/// does not exist yet; an existing `to` receives `from` nested under its
/// own name.
#[verifier::external_body]
pub fn move_dir_path(from: &str, to: &str) -> (r: Result<(), String>) {
    let options = fs_extra::dir::CopyOptions::new().copy_inside(true);
    match fs_extra::dir::move_dir(from, to, &options) {
        Ok(_) => Ok(()),
        Err(e) => Err(e.to_string()),
    }
}

/// Relies on fs_extra's file::move_file, which moves the file `from` to
/// exactly `to`.
#[verifier::external_body]
pub fn move_file_path(from: &str, to: &str) -> (r: Result<(), String>) {
    let options = fs_extra::file::CopyOptions::new();
    match fs_extra::file::move_file(from, to, &options) {
        Ok(_) => Ok(()),
        Err(e) => Err(e.to_string()),
    }
}

/// Relies on fs_extra's dir::remove, which removes a directory recursively
/// and succeeds on an already absent path.
#[verifier::external_body]
pub fn remove_dir_path(path: &str) -> (r: Result<(), String>) {
    match fs_extra::dir::remove(path) {
        Ok(()) => Ok(()),
        Err(e) => Err(e.to_string()),
    }
}

/// Relies on fs_extra's file::remove, which removes one file and succeeds on
/// an already absent path.
#[verifier::external_body]
pub fn remove_file_path(path: &str) -> (r: Result<(), String>) {
    match fs_extra::file::remove(path) {
        Ok(()) => Ok(()),
        Err(e) => Err(e.to_string()),
    }
}

/// Relies on fs_extra's dir::create_all, which creates a directory and its
/// missing parents.
#[verifier::external_body]
pub fn create_dir_all_path(path: &str) -> (r: Result<(), String>) {
    match fs_extra::dir::create_all(path, false) {
        Ok(()) => Ok(()),
        Err(e) => Err(e.to_string()),
    }
}

/// Relies on fs_extra's file::read_to_string.
#[verifier::external_body]
pub fn read_text_file(path: &str) -> (r: Result<String, String>) {
    match fs_extra::file::read_to_string(path) {
        Ok(s) => Ok(s),
        Err(e) => Err(e.to_string()),
    }
}

/// Relies on dirs::home_dir: the user's home directory, if the platform
/// reports one.
#[verifier::external_body]
pub fn home_dir() -> (r: Option<String>) {
    dirs::home_dir().map(|p| p.to_string_lossy().to_string())
}

/// Relies on which::which: whether an executable of this name is on PATH.
#[verifier::external_body]
pub fn binary_available(name: &str) -> bool {
    which::which(name).is_ok()
}

/// Relies on std's Path::canonicalize; None when the path cannot be resolved.
#[verifier::external_body]
pub fn canonicalize_path(path: &str) -> (r: Option<String>) {
    match Path::new(path).canonicalize() {
        Ok(p) => Some(p.to_string_lossy().to_string()),
        Err(_) => None,
    }
}

/// What `expand_home` produces: `~`-prefixed paths are re-anchored at the
/// home directory when one exists.
pub open spec fn expanded_home(path: Seq<char>, home: Option<Seq<char>>) -> Seq<char> {
    if path.len() >= 1 && path.first() == '~' {
        match home {
            Some(h) => h + path.skip(1),
            None => path,
        }
    } else {
        path
    }
}

/// Expands a leading `~` to the home directory.
pub fn expand_home(path: &str) -> (r: String)
    ensures
        exists|home: Option<Seq<char>>|
            r@ == expanded_home(path@, home)
            && (home is Some ==> home->0.len() > 0),
{
    let n = path.unicode_len();
    if n >= 1 && path.get_char(0) == '~' {
        match home_dir() {
            Some(h) => {
                if h.as_str().unicode_len() == 0 {
                    let r = path.to_owned();
                    assert(r@ == expanded_home(path@, None));
                    r
                } else {
                    let mut r = h.clone();
                    let rest = path.substring_char(1, n);
                    r.append(rest);
                    assert(r@ == expanded_home(path@, Some(h@)));
                    r
                }
            },
            None => {
                let r = path.to_owned();
                assert(r@ == expanded_home(path@, None));
                r
            },
        }
    } else {
        let r = path.to_owned();
        assert(r@ == expanded_home(path@, Option::<Seq<char>>::None));
        r
    }
}

/// Resolves a path: expands `~`, then canonicalizes where the filesystem can,
/// and otherwise keeps the expanded form.
pub fn normalize_path(path: &str) -> (r: Result<String, String>)
    ensures
        r is Ok,
{
    let expanded = expand_home(path);
    match canonicalize_path(expanded.as_str()) {
        Some(c) => Ok(c),
        None => Ok(expanded),
    }
}

/// Total size in bytes of `path`: a file's own length, or the sum of the
/// file sizes under a directory, unreadable entries skipped. The sum is
/// reported as an error if it cannot be held in 64 bits.
pub fn get_size(path: &str) -> (r: Result<u64, String>) {
    if is_file(path) {
        file_size(path)
    } else if is_dir(path) {
        let entries = walk_paths(path, usize::MAX);
        let mut total: u64 = 0;
        let n = entries.len();
        for i in 0..n
            invariant
                n == entries@.len(),
        {
            if is_file(entries[i].as_str()) {
                let sz = match file_size(entries[i].as_str()) {
                    Ok(s) => s,
                    Err(_) => 0,
                };
                if total > u64::MAX - sz {
                    return Err("directory size exceeds 64 bits".to_owned());
                }
                total = total + sz;
            }
        }
        Ok(total)
    } else {
        Ok(0)
    }
}

/// The modification time of `path` itself, as seconds since the epoch.
pub fn get_mtime(path: &str) -> (r: Result<i64, String>) {
    mtime_unix(path)
}

/// The most recent modification time across the files under `path`: only
/// leaf files count, never a directory's own timestamp. A path that holds
/// no readable file falls back to its own modification time.
pub fn get_most_recent_mtime(path: &str) -> (r: Result<i64, String>) {
    let entries = walk_paths(path, usize::MAX);
    let mut most_recent: Option<i64> = None;
    let n = entries.len();
    for i in 0..n
        invariant
            n == entries@.len(),
    {
        if is_file(entries[i].as_str()) {
            match mtime_unix(entries[i].as_str()) {
                Ok(t) => {
                    let newer = match most_recent {
                        Some(m) => t > m,
                        None => true,
                    };
                    if newer {
                        most_recent = Some(t);
                    }
                },
                Err(_) => {},
            }
        }
    }
    match most_recent {
        Some(m) => Ok(m),
        None => mtime_unix(path),
    }
}

/// Whether `path` resolves to a location under `project_root`. Paths that
/// cannot be resolved are not considered inside.
pub fn is_within_project(path: &str, project_root: &str) -> bool {
    match canonicalize_path(path) {
        Some(canonical) => {
            let root = match canonicalize_path(project_root) {
                Some(c) => c,
                None => project_root.to_owned(),
            };
            let c = to_chars(canonical.as_str());
            let p = to_chars(root.as_str());
            starts_with_chars(&c, &p)
        },
        None => false,
    }
}

/// The backup root: a fixed directory name under the project root.
pub fn get_backup_dir(project_root: &str) -> (r: String)
    ensures
        r@ == joined(project_root@, ".cachekill-backup"@),
{
    join_path(project_root, ".cachekill-backup")
}

/// A timestamped backup directory name, `YYYY-MM-DD_HH-MM-SS` in UTC.
pub fn create_backup_dir_name(now: i64) -> (r: String)
    requires
        0 <= now < crate::timefmt::max_timestamp(),
    ensures
        exists|y: int, mo: int, d: int, h: int, mi: int, s: int|
            crate::timefmt::stamp_of_unix(now as int, y, mo, d, h, mi, s)
            && r@ == crate::timefmt::stamp_chars(y, mo, d, h, mi, s),
{
    crate::timefmt::format_timestamp(now)
}

/// A path is excluded when the exclude list is non-empty and it matches at
/// least one of its patterns; an empty list excludes nothing.
pub open spec fn spec_excluded(path: Seq<char>, patterns: Seq<Seq<char>>) -> bool {
    patterns.len() > 0 && glob_matches(path, patterns)
}

/// A path is included when no include patterns are configured, or it
/// matches at least one.
pub open spec fn spec_included(path: Seq<char>, patterns: Seq<Seq<char>>) -> bool {
    patterns.len() == 0 || glob_matches(path, patterns)
}

/// A path is excluded when it matches at least one exclude pattern; an
/// empty exclude list excludes nothing.
pub fn should_exclude_path(path: &str, exclude_patterns: &Vec<String>) -> (r: bool)
    ensures
        r == spec_excluded(path@, exclude_patterns.deep_view()),
{
    if exclude_patterns.len() == 0 {
        return false;
    }
    matches_any_glob(path, exclude_patterns)
}

/// With no include patterns every path is included; otherwise a path must
/// match at least one.
pub fn should_include_path(path: &str, include_patterns: &Vec<String>) -> (r: bool)
    ensures
        r == spec_included(path@, include_patterns.deep_view()),
{
    if include_patterns.len() == 0 {
        return true;
    }
    matches_any_glob(path, include_patterns)
}

} // verus!
