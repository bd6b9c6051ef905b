//! Configuration: the file-loaded settings, the command-line arguments, and
//! the merged view the pipeline runs on. Loading the file itself is I/O and
//! lives outside the library; merging and the include/exclude rules are here.
use vstd::prelude::*;

use crate::cache_entry::LanguageFilter;
use crate::text::{trimmed, split_commas, split_commas_exec, trim_chars, from_chars, to_chars};
use crate::util::{path_exists, expand_home, expanded_home, spec_excluded, spec_included};

verus! {

/// Configuration loaded from a `.cachekillrc` file.
#[derive(Debug, Clone)]
pub struct Config {
    /// Default language filter.
    pub default_lang: Option<LanguageFilter>,
    /// Default stale days threshold.
    pub stale_days: Option<u32>,
    /// Whether safe delete is enabled by default.
    pub safe_delete: Option<bool>,
    /// Default backup directory.
    pub backup_dir: Option<String>,
    /// Include patterns for additional paths.
    pub include_paths: Option<Vec<String>>,
    /// Exclude patterns for paths to skip.
    pub exclude_paths: Option<Vec<String>>,
    /// Whether to include Docker cleanup by default.
    pub include_docker: Option<bool>,
    /// Whether to include the npx cache by default.
    pub include_npx: Option<bool>,
}

impl Default for Config {
    /// The built-in defaults: safe delete on, fourteen stale days, and the
    /// backup root and version-control internals excluded.
    fn default() -> (r: Self)
        ensures
            r.default_lang == Some(LanguageFilter::Auto),
            r.stale_days == Some(14u32),
            r.safe_delete == Some(true),
            r.backup_dir matches Some(b) && b@ == ".cachekill-backup"@,
            r.include_paths is None,
            r.exclude_paths matches Some(e) && e.deep_view()
                == seq![".git"@, ".cachekill-backup"@, "node_modules/.cache"@],
            r.include_docker == Some(false),
            r.include_npx == Some(false),
    {
        let mut excludes: Vec<String> = Vec::new();
        excludes.push(".git".to_owned());
        excludes.push(".cachekill-backup".to_owned());
        excludes.push("node_modules/.cache".to_owned());
        proof {
            assert(excludes.deep_view()
                =~~= seq![".git"@, ".cachekill-backup"@, "node_modules/.cache"@]);
        }
        Self {
            default_lang: Some(LanguageFilter::Auto),
            stale_days: Some(14),
            safe_delete: Some(true),
            backup_dir: Some(".cachekill-backup".to_owned()),
            include_paths: None,
            exclude_paths: Some(excludes),
            include_docker: Some(false),
            include_npx: Some(false),
        }
    }
}

/// Command-line arguments that override the configuration file.
#[derive(Debug, Clone)]
pub struct CliArgs {
    pub list: bool,
    pub dry_run: bool,
    pub force: bool,
    pub json: bool,
    pub lang: Option<LanguageFilter>,
    pub paths: Option<Vec<String>>,
    pub exclude: Option<Vec<String>>,
    pub stale_days: Option<u32>,
    pub safe_delete: Option<bool>,
    pub backup_dir: Option<String>,
    pub docker: bool,
    pub npx: bool,
    pub restore_last: bool,
    pub all: bool,
    pub js_pm: bool,
}

/// Merged configuration combining the file and the CLI arguments.
#[derive(Debug)]
pub struct MergedConfig {
    pub list: bool,
    pub dry_run: bool,
    pub force: bool,
    pub json: bool,
    pub lang: LanguageFilter,
    pub paths: Vec<String>,
    pub exclude: Vec<String>,
    pub stale_days: u32,
    pub safe_delete: bool,
    pub backup_dir: String,
    pub docker: bool,
    pub npx: bool,
    pub restore_last: bool,
    pub all: bool,
    pub js_pm: bool,
}

/// What one merged configuration says, as mathematics: the fields with
/// their text fields as character sequences.
pub open spec fn config_view(c: MergedConfig) -> (bool, bool, bool, bool, LanguageFilter, Seq<
    Seq<char>,
>, Seq<Seq<char>>, u32, bool, Seq<char>, bool, bool, bool, bool, bool) {
    (
        c.list,
        c.dry_run,
        c.force,
        c.json,
        c.lang,
        c.paths.deep_view(),
        c.exclude.deep_view(),
        c.stale_days,
        c.safe_delete,
        c.backup_dir@,
        c.docker,
        c.npx,
        c.restore_last,
        c.all,
        c.js_pm,
    )
}

impl Clone for MergedConfig {
    fn clone(&self) -> (r: Self)
        ensures
            config_view(r) == config_view(*self),
    {
        MergedConfig {
            list: self.list,
            dry_run: self.dry_run,
            force: self.force,
            json: self.json,
            lang: self.lang,
            paths: self.paths.clone(),
            exclude: self.exclude.clone(),
            stale_days: self.stale_days,
            safe_delete: self.safe_delete,
            backup_dir: self.backup_dir.clone(),
            docker: self.docker,
            npx: self.npx,
            restore_last: self.restore_last,
            all: self.all,
            js_pm: self.js_pm,
        }
    }
}

impl Config {
    /// Find the `.cachekillrc` file in `start_dir` or its parents; when none
    /// exists, the bare file name, as a caller probing it will find nothing.
    pub fn find_config_file(start_dir: &str) -> (r: String) {
        let mut current = to_chars(start_dir);
        loop
            decreases current@.len(),
        {
            let cur = from_chars(&current);
            let candidate = crate::text::join_path(cur.as_str(), ".cachekillrc");
            if path_exists(candidate.as_str()) {
                return candidate;
            }
            // Walk to the parent: cut at the last separator, keeping a root slash.
            let mut j: usize = current.len();
            while j > 0 && current[j - 1] != '/'
                invariant
                    j <= current@.len(),
                decreases j,
            {
                j = j - 1;
            }
            if j == 0 {
                // No separator left: no parent to probe.
                return ".cachekillrc".to_owned();
            }
            if j == 1 && current.len() == 1 {
                // At the filesystem root already.
                return ".cachekillrc".to_owned();
            }
            let keep = if j == 1 { 1 } else { j - 1 };
            let parent = crate::text::copy_range(&current, 0, keep);
            current = parent;
        }
    }

    /// Merge the file configuration with CLI arguments; every CLI value wins
    /// over the file's, and the file's over the built-in default.
    pub fn merge_with_cli(&self, cli_args: &CliArgs) -> (r: MergedConfig)
        ensures
            r.list == cli_args.list,
            r.dry_run == cli_args.dry_run,
            r.force == cli_args.force,
            r.json == cli_args.json,
            r.lang == match cli_args.lang {
                Some(l) => l,
                None => match self.default_lang {
                    Some(l) => l,
                    None => LanguageFilter::Auto,
                },
            },
            r.paths.deep_view() == match cli_args.paths {
                Some(p) => p.deep_view(),
                None => match self.include_paths {
                    Some(p) => p.deep_view(),
                    None => Seq::<Seq<char>>::empty(),
                },
            },
            r.exclude.deep_view() == match cli_args.exclude {
                Some(e) => e.deep_view(),
                None => match self.exclude_paths {
                    Some(e) => e.deep_view(),
                    None => Seq::<Seq<char>>::empty(),
                },
            },
            r.stale_days == match cli_args.stale_days {
                Some(d) => d,
                None => match self.stale_days {
                    Some(d) => d,
                    None => 14u32,
                },
            },
            r.safe_delete == match cli_args.safe_delete {
                Some(s) => s,
                None => match self.safe_delete {
                    Some(s) => s,
                    None => true,
                },
            },
            r.backup_dir@ == match cli_args.backup_dir {
                Some(b) => b@,
                None => match self.backup_dir {
                    Some(b) => b@,
                    None => ".cachekill-backup"@,
                },
            },
            r.docker == (cli_args.docker || self.include_docker == Some(true)),
            r.npx == (cli_args.npx || self.include_npx == Some(true)),
            r.restore_last == cli_args.restore_last,
            r.all == cli_args.all,
            r.js_pm == cli_args.js_pm,
    {
        let lang = match cli_args.lang {
            Some(l) => l,
            None => match self.default_lang {
                Some(l) => l,
                None => LanguageFilter::Auto,
            },
        };
        let paths = match &cli_args.paths {
            Some(p) => p.clone(),
            None => match &self.include_paths {
                Some(p) => p.clone(),
                None => Vec::new(),
            },
        };
        let exclude = match &cli_args.exclude {
            Some(e) => e.clone(),
            None => match &self.exclude_paths {
                Some(e) => e.clone(),
                None => Vec::new(),
            },
        };
        let stale_days = match cli_args.stale_days {
            Some(d) => d,
            None => match self.stale_days {
                Some(d) => d,
                None => 14,
            },
        };
        let safe_delete = match cli_args.safe_delete {
            Some(s) => s,
            None => match self.safe_delete {
                Some(s) => s,
                None => true,
            },
        };
        let backup_dir = match &cli_args.backup_dir {
            Some(b) => b.clone(),
            None => match &self.backup_dir {
                Some(b) => b.clone(),
                None => ".cachekill-backup".to_owned(),
            },
        };
        let docker = cli_args.docker || match self.include_docker {
            Some(d) => d,
            None => false,
        };
        let npx = cli_args.npx || match self.include_npx {
            Some(n) => n,
            None => false,
        };
        MergedConfig {
            list: cli_args.list,
            dry_run: cli_args.dry_run,
            force: cli_args.force,
            json: cli_args.json,
            lang,
            paths,
            exclude,
            stale_days,
            safe_delete,
            backup_dir,
            docker,
            npx,
            restore_last: cli_args.restore_last,
            all: cli_args.all,
            js_pm: cli_args.js_pm,
        }
    }
}

impl Default for MergedConfig {
    /// A merged configuration with nothing asked for: safe delete on,
    /// fourteen stale days, no patterns, no integrations.
    fn default() -> (r: Self)
        ensures
            !r.list && !r.dry_run && !r.force && !r.json,
            r.lang == LanguageFilter::Auto,
            r.paths.deep_view() == Seq::<Seq<char>>::empty(),
            r.exclude.deep_view() == Seq::<Seq<char>>::empty(),
            r.stale_days == 14u32,
            r.safe_delete,
            r.backup_dir@ == "~/.cachekill-backup"@,
            !r.docker && !r.npx && !r.restore_last && !r.all && !r.js_pm,
    {
        let paths: Vec<String> = Vec::new();
        let exclude: Vec<String> = Vec::new();
        proof {
            assert(paths.deep_view() =~~= Seq::<Seq<char>>::empty());
            assert(exclude.deep_view() =~~= Seq::<Seq<char>>::empty());
        }
        Self {
            list: false,
            dry_run: false,
            force: false,
            json: false,
            lang: LanguageFilter::Auto,
            paths,
            exclude,
            stale_days: 14,
            safe_delete: true,
            backup_dir: "~/.cachekill-backup".to_owned(),
            docker: false,
            npx: false,
            restore_last: false,
            all: false,
            js_pm: false,
        }
    }
}

impl MergedConfig {
    /// The backup directory, with a leading `~` expanded.
    pub fn get_backup_dir(&self) -> (r: String)
        ensures
            exists|home: Option<Seq<char>>|
                r@ == expanded_home(self.backup_dir@, home)
                && (home is Some ==> home->0.len() > 0),
    {
        expand_home(self.backup_dir.as_str())
    }

    /// A path passes the include side of the rules when no include patterns
    /// are configured, or it matches one.
    pub fn should_include_path(&self, path: &str) -> (r: bool)
        ensures
            r == spec_included(path@, self.paths.deep_view()),
    {
        crate::util::should_include_path(path, &self.paths)
    }

    /// A path is excluded when it matches an exclude pattern; an empty
    /// exclude list excludes nothing.
    pub fn should_exclude_path(&self, path: &str) -> (r: bool)
        ensures
            r == spec_excluded(path@, self.exclude.deep_view()),
    {
        crate::util::should_exclude_path(path, &self.exclude)
    }

    /// Included and not excluded.
    pub fn should_process_path(&self, path: &str) -> (r: bool)
        ensures
            r == (spec_included(path@, self.paths.deep_view())
                && !spec_excluded(path@, self.exclude.deep_view())),
    {
        self.should_include_path(path) && !self.should_exclude_path(path)
    }
}

/// The raw command line, one field per flag.
#[derive(Debug, Clone)]
pub struct Cli {
    pub list: bool,
    pub dry_run: bool,
    pub force: bool,
    pub yes: bool,
    pub json: bool,
    pub lang: Option<String>,
    pub paths: Option<String>,
    pub exclude: Option<String>,
    pub stale_days: Option<u32>,
    pub safe_delete: Option<bool>,
    pub backup_dir: Option<String>,
    pub docker: bool,
    pub npx: bool,
    pub restore_last: bool,
    pub all: bool,
    pub doctor: bool,
    pub ci: Option<String>,
    pub hf: bool,
    pub torch: bool,
    pub vercel: bool,
    pub cloudflare: bool,
    pub model: Option<String>,
    pub project: Option<String>,
    pub zone: Option<String>,
    pub token: Option<String>,
}

/// Splits a comma-separated argument into trimmed items.
fn split_arg_list(s: &str) -> (r: Vec<String>)
    ensures
        r.deep_view() == split_commas(s@).map_values(|t: Seq<char>| trimmed(t)),
{
    let cs = to_chars(s);
    let parts = split_commas_exec(&cs);
    let mut r: Vec<String> = Vec::new();
    let n = parts.len();
    for i in 0..n
        invariant
            n == parts@.len(),
            parts.deep_view() == split_commas(s@),
            r.deep_view() == parts.deep_view().take(i as int).map_values(|t: Seq<char>| trimmed(t)),
    {
        let t = trim_chars(&parts[i]);
        let s2 = from_chars(&t);
        let ghost prev = r.deep_view();
        r.push(s2);
        proof {
            assert(parts@[i as int]@ == parts.deep_view()[i as int]);
            assert(s2@ == trimmed(parts.deep_view()[i as int]));
            assert(r.deep_view() =~~= prev.push(s2@));
            assert(prev.push(s2@) =~~= parts.deep_view().take(i + 1).map_values(|t: Seq<char>| trimmed(t)));
        }
    }
    proof {
        assert(parts.deep_view().take(n as int) =~= parts.deep_view());
    }
    r
}

impl Cli {
    /// Convert the raw command line to the override set the merge consumes:
    /// `--yes` folds into force, the language tag is parsed (an unknown tag
    /// counts as unset), and list arguments are split on commas and trimmed.
    pub fn to_cli_args(&self) -> (r: CliArgs)
        ensures
            r.list == self.list,
            r.dry_run == self.dry_run,
            r.force == (self.force || self.yes),
            r.json == self.json,
            r.lang == match self.lang {
                Some(s) => crate::cache_entry::parsed_filter(s@),
                None => None,
            },
            match (&r.paths, &self.paths) {
                (Some(rp), Some(sp)) => rp.deep_view()
                    == split_commas(sp@).map_values(|t: Seq<char>| trimmed(t)),
                (None, None) => true,
                _ => false,
            },
            match (&r.exclude, &self.exclude) {
                (Some(re), Some(se)) => re.deep_view()
                    == split_commas(se@).map_values(|t: Seq<char>| trimmed(t)),
                (None, None) => true,
                _ => false,
            },
            r.stale_days == self.stale_days,
            r.safe_delete == self.safe_delete,
            match (&r.backup_dir, &self.backup_dir) {
                (Some(rb), Some(sb)) => rb@ == sb@,
                (None, None) => true,
                _ => false,
            },
            r.docker == self.docker,
            r.npx == self.npx,
            r.restore_last == self.restore_last,
            r.all == self.all,
            !r.js_pm,
    {
        let lang = match &self.lang {
            Some(s) => match LanguageFilter::parse(s.as_str()) {
                Ok(l) => Some(l),
                Err(_) => None,
            },
            None => None,
        };
        let paths = match &self.paths {
            Some(s) => Some(split_arg_list(s.as_str())),
            None => None,
        };
        let exclude = match &self.exclude {
            Some(s) => Some(split_arg_list(s.as_str())),
            None => None,
        };
        let backup_dir = match &self.backup_dir {
            Some(b) => Some(b.clone()),
            None => None,
        };
        CliArgs {
            list: self.list,
            dry_run: self.dry_run,
            force: self.force || self.yes,
            json: self.json,
            lang,
            paths,
            exclude,
            stale_days: self.stale_days,
            safe_delete: self.safe_delete,
            backup_dir,
            docker: self.docker,
            npx: self.npx,
            restore_last: self.restore_last,
            all: self.all,
            js_pm: false,
        }
    }
}

} // verus!
