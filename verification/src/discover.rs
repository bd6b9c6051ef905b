//! The discoverer: detects the project type from marker files and probes a
//! fixed table of cache locations per ecosystem, under the project root and
//! the home directory. Every produced path passes the include/exclude rules.
use vstd::prelude::*;

use crate::cache_entry::{CacheKind, LanguageFilter};
use crate::config::MergedConfig;
use crate::errors::CacheError;
use crate::text::{join_path, to_chars, contains_chars};
use crate::util::{path_exists, is_dir, home_dir, read_text_file, walk_paths, matches_any_glob, spec_included, spec_excluded};

verus! {

/// Detected project type.
#[derive(Debug, Clone, PartialEq, Eq, Structural)]
pub enum ProjectType {
    JavaScript,
    Python,
    Rust,
    Java,
    MachineLearning,
    Mixed,
    Unknown,
}

/// What marker flags decide: no marker means Unknown, exactly one ecosystem
/// means that ecosystem, more than one means Mixed.
pub open spec fn spec_detected(js: bool, py: bool, rust: bool, java: bool, ml: bool) -> ProjectType {
    let count = (if js { 1int } else { 0int }) + (if py { 1int } else { 0int })
        + (if rust { 1int } else { 0int }) + (if java { 1int } else { 0int })
        + (if ml { 1int } else { 0int });
    if count == 0 {
        ProjectType::Unknown
    } else if count > 1 {
        ProjectType::Mixed
    } else if js {
        ProjectType::JavaScript
    } else if py {
        ProjectType::Python
    } else if rust {
        ProjectType::Rust
    } else if java {
        ProjectType::Java
    } else {
        ProjectType::MachineLearning
    }
}

/// A path passes the configured include/exclude rules: no include patterns
/// or one matched, and no exclude pattern matched.
pub open spec fn passes_screen(c: &MergedConfig, p: Seq<char>) -> bool {
    spec_included(p, c.paths.deep_view()) && !spec_excluded(p, c.exclude.deep_view())
}

/// The list names no path twice.
pub open spec fn distinct_paths(s: Seq<Seq<char>>) -> bool {
    forall|a: int, b: int| 0 <= a < b < s.len() ==> s[a] != s[b]
}

/// Cache discovery result.
#[derive(Debug)]
pub struct DiscoveryResult {
    pub project_type: ProjectType,
    pub cache_entries: Vec<String>,
    pub project_root: String,
}

impl ProjectType {
    /// The decision step of detection, from one flag per ecosystem marker
    /// family found in the project root.
    pub fn detect_from_markers(js: bool, py: bool, rust: bool, java: bool, ml: bool) -> (r: Self)
        ensures
            r == spec_detected(js, py, rust, java, ml),
    {
        let mut count: u32 = 0;
        if js {
            count = count + 1;
        }
        if py {
            count = count + 1;
        }
        if rust {
            count = count + 1;
        }
        if java {
            count = count + 1;
        }
        if ml {
            count = count + 1;
        }
        if count == 0 {
            ProjectType::Unknown
        } else if count > 1 {
            ProjectType::Mixed
        } else if js {
            ProjectType::JavaScript
        } else if py {
            ProjectType::Python
        } else if rust {
            ProjectType::Rust
        } else if java {
            ProjectType::Java
        } else {
            ProjectType::MachineLearning
        }
    }

    /// Detect the project type from marker files under `project_root`.
    /// Probing is best effort: an unreadable file counts as absent.
    pub fn detect(project_root: &str) -> (r: Result<Self, CacheError>)
        ensures
            r is Ok,
    {
        let js = probe_file(project_root, "package.json") || probe_file(project_root, "yarn.lock")
            || probe_file(project_root, "pnpm-lock.yaml") || probe_file(project_root, "bun.lockb");
        let py = probe_file(project_root, "pyproject.toml") || probe_file(
            project_root,
            "requirements.txt",
        ) || probe_file(project_root, "setup.py") || probe_file(project_root, "Pipfile")
            || probe_file(project_root, "poetry.lock");
        let rust = probe_file(project_root, "Cargo.toml");
        let java = probe_file(project_root, "pom.xml") || probe_file(project_root, "build.gradle")
            || probe_file(project_root, "build.gradle.kts") || probe_file(project_root, "gradlew");
        let ml = (probe_file(project_root, "requirements.txt") && requirements_mention_ml(
            project_root,
        )) || probe_file(project_root, ".dvc");
        Ok(Self::detect_from_markers(js, py, rust, java, ml))
    }

    /// Get cache kinds for this project type.
    pub fn get_cache_kinds(&self) -> (r: Vec<CacheKind>)
        ensures
            r@ == match *self {
                ProjectType::JavaScript => seq![CacheKind::JavaScript, CacheKind::Generic],
                ProjectType::Python => seq![CacheKind::Python, CacheKind::Generic],
                ProjectType::Rust => seq![CacheKind::Rust, CacheKind::Generic],
                ProjectType::Java => seq![CacheKind::Java, CacheKind::Generic],
                ProjectType::MachineLearning => seq![
                    CacheKind::MachineLearning,
                    CacheKind::Python,
                    CacheKind::Generic,
                ],
                ProjectType::Mixed => seq![
                    CacheKind::JavaScript,
                    CacheKind::Python,
                    CacheKind::Rust,
                    CacheKind::Java,
                    CacheKind::MachineLearning,
                    CacheKind::Generic,
                ],
                ProjectType::Unknown => seq![CacheKind::Generic],
            },
    {
        let mut r: Vec<CacheKind> = Vec::new();
        match self {
            ProjectType::JavaScript => {
                r.push(CacheKind::JavaScript);
                r.push(CacheKind::Generic);
            },
            ProjectType::Python => {
                r.push(CacheKind::Python);
                r.push(CacheKind::Generic);
            },
            ProjectType::Rust => {
                r.push(CacheKind::Rust);
                r.push(CacheKind::Generic);
            },
            ProjectType::Java => {
                r.push(CacheKind::Java);
                r.push(CacheKind::Generic);
            },
            ProjectType::MachineLearning => {
                r.push(CacheKind::MachineLearning);
                r.push(CacheKind::Python);
                r.push(CacheKind::Generic);
            },
            ProjectType::Mixed => {
                r.push(CacheKind::JavaScript);
                r.push(CacheKind::Python);
                r.push(CacheKind::Rust);
                r.push(CacheKind::Java);
                r.push(CacheKind::MachineLearning);
                r.push(CacheKind::Generic);
            },
            ProjectType::Unknown => {
                r.push(CacheKind::Generic);
            },
        }
        proof {
            assert(r@ =~= match *self {
                ProjectType::JavaScript => seq![CacheKind::JavaScript, CacheKind::Generic],
                ProjectType::Python => seq![CacheKind::Python, CacheKind::Generic],
                ProjectType::Rust => seq![CacheKind::Rust, CacheKind::Generic],
                ProjectType::Java => seq![CacheKind::Java, CacheKind::Generic],
                ProjectType::MachineLearning => seq![
                    CacheKind::MachineLearning,
                    CacheKind::Python,
                    CacheKind::Generic,
                ],
                ProjectType::Mixed => seq![
                    CacheKind::JavaScript,
                    CacheKind::Python,
                    CacheKind::Rust,
                    CacheKind::Java,
                    CacheKind::MachineLearning,
                    CacheKind::Generic,
                ],
                ProjectType::Unknown => seq![CacheKind::Generic],
            });
        }
        r
    }
}

/// Whether a marker file exists under the root.
fn probe_file(project_root: &str, name: &str) -> bool {
    let p = join_path(project_root, name);
    path_exists(p.as_str())
}

/// Whether the root's requirements file names an ML framework. A file that
/// cannot be read counts as mentioning none.
fn requirements_mention_ml(project_root: &str) -> bool {
    let p = join_path(project_root, "requirements.txt");
    let content = match read_text_file(p.as_str()) {
        Ok(c) => c,
        Err(_) => String::new(),
    };
    let cs = to_chars(content.as_str());
    contains_chars(&cs, &to_chars("torch")) || contains_chars(&cs, &to_chars("tensorflow"))
        || contains_chars(&cs, &to_chars("huggingface"))
}

/// Push `path` when it exists, is a directory, and passes the include/exclude rules.
fn probe_cache_dir(caches: &mut Vec<String>, path: String, config: &MergedConfig)
    requires
        forall|j: int| 0 <= j < old(caches)@.len()
            ==> passes_screen(config, #[trigger] old(caches).deep_view()[j]),
    ensures
        forall|j: int| 0 <= j < final(caches)@.len()
            ==> passes_screen(config, #[trigger] final(caches).deep_view()[j]),
{
    if path_exists(path.as_str()) && is_dir(path.as_str()) {
        if config.should_process_path(path.as_str()) {
            let ghost prev = caches.deep_view();
            let ghost pv = path@;
            caches.push(path);
            proof {
                assert(caches.deep_view() =~~= prev.push(pv));
            }
        }
    }
}

/// Push `path` when it exists (a file or a directory) and passes the include/exclude rules.
fn probe_cache_path(caches: &mut Vec<String>, path: String, config: &MergedConfig)
    requires
        forall|j: int| 0 <= j < old(caches)@.len()
            ==> passes_screen(config, #[trigger] old(caches).deep_view()[j]),
    ensures
        forall|j: int| 0 <= j < final(caches)@.len()
            ==> passes_screen(config, #[trigger] final(caches).deep_view()[j]),
{
    if path_exists(path.as_str()) {
        if config.should_process_path(path.as_str()) {
            let ghost prev = caches.deep_view();
            let ghost pv = path@;
            caches.push(path);
            proof {
                assert(caches.deep_view() =~~= prev.push(pv));
            }
        }
    }
}

impl DiscoveryResult {
    /// Discover JavaScript/TypeScript caches under the root.
    pub fn discover_js_caches(project_root: &str, config: &MergedConfig) -> (r: Vec<String>)
        ensures
            forall|j: int| 0 <= j < r@.len()
                ==> passes_screen(config, #[trigger] r.deep_view()[j]),
    {
        let patterns: [&str; 13] = [
            "node_modules",
            ".next",
            ".nuxt",
            ".vite",
            ".cache",
            "dist",
            "coverage",
            ".turbo",
            ".parcel-cache",
            "build",
            "out",
            ".next/cache",
            ".nuxt/dist",
        ];
        let mut caches: Vec<String> = Vec::new();
        let mut i: usize = 0;
        while i < 13
            invariant
                forall|j: int| 0 <= j < caches@.len()
                    ==> passes_screen(config, #[trigger] caches.deep_view()[j]),
                patterns@.len() == 13,
                i <= 13,
            decreases 13 - i,
        {
            let p = join_path(project_root, patterns[i]);
            probe_cache_dir(&mut caches, p, config);
            i = i + 1;
        }
        caches
    }

    /// Discover Python caches under the root, and `__pycache__` directories
    /// one level down.
    pub fn discover_py_caches(project_root: &str, config: &MergedConfig) -> (r: Vec<String>)
        ensures
            forall|j: int| 0 <= j < r@.len()
                ==> passes_screen(config, #[trigger] r.deep_view()[j]),
    {
        let patterns: [&str; 11] = [
            "__pycache__",
            ".pytest_cache",
            ".venv",
            "venv",
            ".tox",
            ".mypy_cache",
            ".ruff_cache",
            ".pip-cache",
            ".coverage",
            "htmlcov",
            ".pytest_cache",
        ];
        let mut caches: Vec<String> = Vec::new();
        let mut i: usize = 0;
        while i < 11
            invariant
                forall|j: int| 0 <= j < caches@.len()
                    ==> passes_screen(config, #[trigger] caches.deep_view()[j]),
                patterns@.len() == 11,
                i <= 11,
            decreases 11 - i,
        {
            let p = join_path(project_root, patterns[i]);
            probe_cache_dir(&mut caches, p, config);
            i = i + 1;
        }
        // Probe one level of subdirectories for interpreter caches.
        let children = walk_paths(project_root, 1);
        let n = children.len();
        let mut k: usize = 0;
        while k < n
            invariant
                n == children@.len(),
                k <= n,
                forall|j: int| 0 <= j < caches@.len()
                    ==> passes_screen(config, #[trigger] caches.deep_view()[j]),
            decreases n - k,
        {
            if is_dir(children[k].as_str()) {
                let p = join_path(children[k].as_str(), "__pycache__");
                probe_cache_dir(&mut caches, p, config);
            }
            k = k + 1;
        }
        caches
    }

    /// Discover Rust caches under the root.
    pub fn discover_rust_caches(project_root: &str, config: &MergedConfig) -> (r: Vec<String>)
        ensures
            forall|j: int| 0 <= j < r@.len()
                ==> passes_screen(config, #[trigger] r.deep_view()[j]),
    {
        let mut caches: Vec<String> = Vec::new();
        let p = join_path(project_root, "target");
        probe_cache_dir(&mut caches, p, config);
        let p = join_path(project_root, ".cargo");
        probe_cache_dir(&mut caches, p, config);
        caches
    }

    /// Discover Java caches under the root and the Maven repository in the
    /// home directory.
    pub fn discover_java_caches(project_root: &str, config: &MergedConfig) -> (r: Vec<String>)
        ensures
            forall|j: int| 0 <= j < r@.len()
                ==> passes_screen(config, #[trigger] r.deep_view()[j]),
    {
        let patterns: [&str; 4] = [".gradle", "build", "target", ".m2"];
        let mut caches: Vec<String> = Vec::new();
        let mut i: usize = 0;
        while i < 4
            invariant
                forall|j: int| 0 <= j < caches@.len()
                    ==> passes_screen(config, #[trigger] caches.deep_view()[j]),
                patterns@.len() == 4,
                i <= 4,
            decreases 4 - i,
        {
            let p = join_path(project_root, patterns[i]);
            probe_cache_dir(&mut caches, p, config);
            i = i + 1;
        }
        match home_dir() {
            Some(home) => {
                let m2 = join_path(home.as_str(), ".m2");
                let repo = join_path(m2.as_str(), "repository");
                probe_cache_dir(&mut caches, repo, config);
            },
            None => {},
        }
        caches
    }

    /// Discover ML caches under the root and the global framework caches in
    /// the home directory.
    pub fn discover_ml_caches(project_root: &str, config: &MergedConfig) -> (r: Vec<String>)
        ensures
            forall|j: int| 0 <= j < r@.len()
                ==> passes_screen(config, #[trigger] r.deep_view()[j]),
    {
        let patterns: [&str; 4] = [".dvc/cache", ".dvc/tmp", "wandb", ".wandb"];
        let mut caches: Vec<String> = Vec::new();
        let mut i: usize = 0;
        while i < 4
            invariant
                forall|j: int| 0 <= j < caches@.len()
                    ==> passes_screen(config, #[trigger] caches.deep_view()[j]),
                patterns@.len() == 4,
                i <= 4,
            decreases 4 - i,
        {
            let p = join_path(project_root, patterns[i]);
            probe_cache_dir(&mut caches, p, config);
            i = i + 1;
        }
        match home_dir() {
            Some(home) => {
                let cache = join_path(home.as_str(), ".cache");
                let p = join_path(cache.as_str(), "huggingface");
                probe_cache_dir(&mut caches, p, config);
                let p = join_path(cache.as_str(), "torch");
                probe_cache_dir(&mut caches, p, config);
                let p = join_path(cache.as_str(), "transformers");
                probe_cache_dir(&mut caches, p, config);
            },
            None => {},
        }
        caches
    }

    /// Discover generic temp and cache directories under the root.
    pub fn discover_generic_caches(project_root: &str, config: &MergedConfig) -> (r: Vec<String>)
        ensures
            forall|j: int| 0 <= j < r@.len()
                ==> passes_screen(config, #[trigger] r.deep_view()[j]),
    {
        let patterns: [&str; 5] = ["tmp", "temp", ".cache", "cache", ".tmp"];
        let mut caches: Vec<String> = Vec::new();
        let mut i: usize = 0;
        while i < 5
            invariant
                forall|j: int| 0 <= j < caches@.len()
                    ==> passes_screen(config, #[trigger] caches.deep_view()[j]),
                patterns@.len() == 5,
                i <= 5,
            decreases 5 - i,
        {
            let p = join_path(project_root, patterns[i]);
            probe_cache_dir(&mut caches, p, config);
            i = i + 1;
        }
        caches
    }

    /// Expand the user-supplied path patterns: literal paths are existence
    /// checked, glob patterns are resolved by walking the project root.
    pub fn discover_custom_paths(project_root: &str, config: &MergedConfig) -> (r: Vec<String>)
        ensures
            forall|j: int| 0 <= j < r@.len()
                ==> passes_screen(config, #[trigger] r.deep_view()[j]),
    {
        let mut caches: Vec<String> = Vec::new();
        let np = config.paths.len();
        let mut i: usize = 0;
        while i < np
            invariant
                np == config.paths@.len(),
                i <= np,
                forall|j: int| 0 <= j < caches@.len()
                    ==> passes_screen(config, #[trigger] caches.deep_view()[j]),
            decreases np - i,
        {
            let pattern = &config.paths[i];
            let pchars = to_chars(pattern.as_str());
            let star = to_chars("*");
            let qmark = to_chars("?");
            if contains_chars(&pchars, &star) || contains_chars(&pchars, &qmark) {
                let mut single: Vec<String> = Vec::new();
                single.push(pattern.clone());
                let visited = walk_paths(project_root, usize::MAX);
                let nv = visited.len();
                let mut k: usize = 0;
                while k < nv
                    invariant
                        nv == visited@.len(),
                        k <= nv,
                        forall|j: int| 0 <= j < caches@.len()
                            ==> passes_screen(config, #[trigger] caches.deep_view()[j]),
                    decreases nv - k,
                {
                    if matches_any_glob(visited[k].as_str(), &single) {
                        if config.should_process_path(visited[k].as_str()) {
                            let ghost prev = caches.deep_view();
                            let ghost pv = visited@[k as int]@;
                            caches.push(visited[k].clone());
                            proof {
                                assert(caches.deep_view() =~~= prev.push(pv));
                            }
                        }
                    }
                    k = k + 1;
                }
            } else {
                let head = pattern.as_str().unicode_len();
                let absolute = head >= 1 && pattern.as_str().get_char(0) == '/';
                let cache_path = if absolute {
                    pattern.clone()
                } else {
                    join_path(project_root, pattern.as_str())
                };
                probe_cache_path(&mut caches, cache_path, config);
            }
            i = i + 1;
        }
        caches
    }

    /// Discover cache entries for the project rooted at `project_root`.
    /// Under the Auto filter the probes follow the detected project type;
    /// under a specific filter only that ecosystem's probes run. Every
    /// returned path passes the include/exclude rules.
    pub fn discover(config: &MergedConfig, project_root: &str) -> (r: Result<
        DiscoveryResult,
        CacheError,
    >)
        ensures
            match r {
                Ok(d) => d.project_root@ == project_root@ && distinct_paths(
                    d.cache_entries.deep_view(),
                ) && forall|j: int|
                    0 <= j < d.cache_entries@.len()
                        ==> passes_screen(config, #[trigger] d.cache_entries.deep_view()[j]),
                Err(_) => false,
            },
    {
        let project_type = match ProjectType::detect(project_root) {
            Ok(t) => t,
            Err(e) => {
                return Err(e);
            },
        };
        let mut cache_entries: Vec<String> = Vec::new();
        if config.lang == LanguageFilter::Auto {
            match project_type {
                ProjectType::JavaScript => {
                    append_screened(&mut cache_entries, Self::discover_js_caches(project_root, config), config);
                },
                ProjectType::Python => {
                    append_screened(&mut cache_entries, Self::discover_py_caches(project_root, config), config);
                },
                ProjectType::Rust => {
                    append_screened(&mut cache_entries, Self::discover_rust_caches(project_root, config), config);
                },
                ProjectType::Java => {
                    append_screened(&mut cache_entries, Self::discover_java_caches(project_root, config), config);
                },
                ProjectType::MachineLearning => {
                    append_screened(&mut cache_entries, Self::discover_ml_caches(project_root, config), config);
                },
                _ => {
                    append_screened(&mut cache_entries, Self::discover_js_caches(project_root, config), config);
                    append_screened(&mut cache_entries, Self::discover_py_caches(project_root, config), config);
                    append_screened(&mut cache_entries, Self::discover_rust_caches(project_root, config), config);
                    append_screened(&mut cache_entries, Self::discover_java_caches(project_root, config), config);
                    append_screened(&mut cache_entries, Self::discover_ml_caches(project_root, config), config);
                },
            }
        } else {
            if config.lang == LanguageFilter::JavaScript {
                append_screened(&mut cache_entries, Self::discover_js_caches(project_root, config), config);
            }
            if config.lang == LanguageFilter::Python {
                append_screened(&mut cache_entries, Self::discover_py_caches(project_root, config), config);
            }
            if config.lang == LanguageFilter::Rust {
                append_screened(&mut cache_entries, Self::discover_rust_caches(project_root, config), config);
            }
            if config.lang == LanguageFilter::Java {
                append_screened(&mut cache_entries, Self::discover_java_caches(project_root, config), config);
            }
            if config.lang == LanguageFilter::MachineLearning {
                append_screened(&mut cache_entries, Self::discover_ml_caches(project_root, config), config);
            }
        }
        if config.all {
            append_screened(&mut cache_entries, Self::discover_generic_caches(project_root, config), config);
        }
        if config.paths.len() > 0 {
            append_screened(&mut cache_entries, Self::discover_custom_paths(project_root, config), config);
        }
        // Overlapping probes may land on one directory twice; a duplicate
        // would have its bytes counted twice downstream.
        let ghost raw = cache_entries.deep_view();
        let cache_entries = dedup_paths(cache_entries);
        proof {
            assert forall|j: int| 0 <= j < cache_entries@.len() implies passes_screen(
                config,
                #[trigger] cache_entries.deep_view()[j],
            ) by {
                assert(appears_in(cache_entries.deep_view()[j], raw));
                let k0 = choose|k0: int|
                    0 <= k0 < raw.len() && #[trigger] raw[k0] == cache_entries.deep_view()[j];
                assert(passes_screen(config, raw[k0]));
            }
        }
        Ok(DiscoveryResult { project_type, cache_entries, project_root: project_root.to_owned() })
    }
}

/// `p` is one of the paths of `s`.
pub open spec fn appears_in(p: Seq<char>, s: Seq<Seq<char>>) -> bool {
    exists|j: int| 0 <= j < s.len() && #[trigger] s[j] == p
}

/// Drop repeated paths, keeping first occurrences: probes for different
/// ecosystems can land on the same directory, and a path counted twice
/// would be a path whose bytes are counted twice.
fn dedup_paths(v: Vec<String>) -> (r: Vec<String>)
    ensures
        distinct_paths(r.deep_view()),
        forall|j: int| 0 <= j < r@.len()
            ==> appears_in(#[trigger] r.deep_view()[j], v.deep_view()),
        forall|k: int| 0 <= k < v@.len()
            ==> appears_in(#[trigger] v.deep_view()[k], r.deep_view()),
{
    let ghost inv = v.deep_view();
    let mut out: Vec<String> = Vec::new();
    let n = v.len();
    for i in 0..n
        invariant
            n == v@.len(),
            inv == v.deep_view(),
            distinct_paths(out.deep_view()),
            forall|j: int| 0 <= j < out@.len()
                ==> appears_in(#[trigger] out.deep_view()[j], inv),
            forall|k: int| 0 <= k < i ==> appears_in(#[trigger] inv[k], out.deep_view()),
    {
        proof {
            assert(v@[i as int]@ == inv[i as int]);
        }
        let m = out.len();
        let ghost item_view = inv[i as int];
        let mut present = false;
        let mut p: usize = 0;
        while p < m
            invariant
                m == out@.len(),
                p <= m,
                i < n == v@.len(),
                inv == v.deep_view(),
                item_view == inv[i as int],
                item_view == v@[i as int]@,
                present ==> appears_in(item_view, out.deep_view()),
                !present ==> forall|j: int| 0 <= j < p
                    ==> #[trigger] out.deep_view()[j] != item_view,
            decreases m - p,
        {
            proof {
                assert(out@[p as int]@ == out.deep_view()[p as int]);
            }
            if crate::text::str_eq(out[p].as_str(), v[i].as_str()) {
                proof {
                    assert(out.deep_view()[p as int] == item_view);
                    assert(appears_in(item_view, out.deep_view()));
                }
                present = true;
            }
            p = p + 1;
        }
        if !present {
            let item = v[i].clone();
            let ghost prev = out.deep_view();
            let ghost iv = item@;
            out.push(item);
            proof {
                assert(out.deep_view() =~~= prev.push(iv));
                assert(iv == item_view);
                assert forall|a: int, b: int| 0 <= a < b < out.deep_view().len()
                    implies out.deep_view()[a] != out.deep_view()[b] by {
                    if b == out.deep_view().len() - 1 {
                        assert(out.deep_view()[a] == prev[a]);
                    } else {
                        assert(out.deep_view()[a] == prev[a] && out.deep_view()[b] == prev[b]);
                    }
                }
                assert forall|j: int| 0 <= j < out@.len() implies appears_in(
                    #[trigger] out.deep_view()[j],
                    inv,
                ) by {
                    if j == out@.len() - 1 {
                        assert(inv[i as int] == out.deep_view()[j]);
                        assert(appears_in(out.deep_view()[j], inv));
                    } else {
                        assert(out.deep_view()[j] == prev[j]);
                    }
                }
                assert forall|k: int| 0 <= k < i + 1 implies appears_in(
                    #[trigger] inv[k],
                    out.deep_view(),
                ) by {
                    if k == i as int {
                        assert(out.deep_view()[out@.len() - 1] == inv[k]);
                        assert(appears_in(inv[k], out.deep_view()));
                    } else {
                        let j0 = choose|j0: int|
                            0 <= j0 < prev.len() && #[trigger] prev[j0] == inv[k];
                        assert(out.deep_view()[j0] == prev[j0]);
                        assert(appears_in(inv[k], out.deep_view()));
                    }
                }
            }
        }
    }
    out
}

/// Append rule-passing paths onto a rule-passing accumulator.
fn append_screened(acc: &mut Vec<String>, mut more: Vec<String>, config: &MergedConfig)
    requires
        forall|j: int| 0 <= j < old(acc)@.len()
            ==> passes_screen(config, #[trigger] old(acc).deep_view()[j]),
        forall|j: int| 0 <= j < more@.len()
            ==> passes_screen(config, #[trigger] more.deep_view()[j]),
    ensures
        forall|j: int| 0 <= j < final(acc)@.len()
            ==> passes_screen(config, #[trigger] final(acc).deep_view()[j]),
{
    let n = more.len();
    let ghost mv = more.deep_view();
    for i in 0..n
        invariant
            n == more@.len(),
            mv == more.deep_view(),
            forall|j: int| 0 <= j < acc@.len()
                ==> passes_screen(config, #[trigger] acc.deep_view()[j]),
            forall|j: int| 0 <= j < mv.len() ==> passes_screen(config, #[trigger] mv[j]),
    {
        let ghost prev = acc.deep_view();
        let item = more[i].clone();
        let ghost iv = item@;
        acc.push(item);
        proof {
            assert(acc.deep_view() =~~= prev.push(iv));
            assert(iv == mv[i as int]);
        }
    }
}

} // verus!
