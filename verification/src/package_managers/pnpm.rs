//! The pnpm cache handler: the content-addressed store and the metadata
//! cache under the user's home.
use vstd::prelude::*;

use crate::cache_entry::{CacheEntry, CacheKind, PlannedAction};
use crate::config::MergedConfig;
use crate::errors::CacheError;
use crate::text::join_path;
use crate::util::home_dir;

use super::common::{existing_dir, make_entry};
use super::traits::CacheManager;

verus! {

pub struct PnpmManager {
    pub config: MergedConfig,
}

impl PnpmManager {
    pub fn new(config: MergedConfig) -> (r: Self)
        ensures
            crate::config::config_view(r.config) == crate::config::config_view(config),
    {
        Self { config }
    }
}

fn store_dir() -> Option<String> {
    match home_dir() {
        Some(home) => {
            let p = join_path(home.as_str(), ".local");
            let p = join_path(p.as_str(), "share");
            let p = join_path(p.as_str(), "pnpm");
            let p = join_path(p.as_str(), "store");
            Some(join_path(p.as_str(), "v3"))
        },
        None => None,
    }
}

fn meta_cache_dir() -> Option<String> {
    match home_dir() {
        Some(home) => {
            let p = join_path(home.as_str(), ".cache");
            Some(join_path(p.as_str(), "pnpm"))
        },
        None => None,
    }
}

impl CacheManager for PnpmManager {
    fn name(&self) -> &'static str {
        "pnpm"
    }

    fn list(&self, project_root: &str, now: i64) -> (r: Result<Vec<CacheEntry>, CacheError>)
        ensures
            r matches Ok(v) ==> forall|j: int| 0 <= j < v@.len() ==> {
                let e = #[trigger] v.deep_view()[j];
                e.kind == CacheKind::JavaScript && e.planned_action == Some(PlannedAction::Delete)
            },
    {
        let mut entries: Vec<CacheEntry> = Vec::new();
        match store_dir() {
            Some(dir) => {
                if existing_dir(dir.as_str()) {
                    match make_entry(dir, &self.config, now) {
                        Ok(e) => {
                            let ghost prev = entries.deep_view();
                            let ghost ev = e@;
                            entries.push(e);
                            proof {
                                assert(entries.deep_view() =~~= prev.push(ev));
                            }
                        },
                        Err(e) => {
                            return Err(e);
                        },
                    }
                }
            },
            None => {},
        }
        match meta_cache_dir() {
            Some(dir) => {
                if existing_dir(dir.as_str()) {
                    match make_entry(dir, &self.config, now) {
                        Ok(e) => {
                            let ghost prev = entries.deep_view();
                            let ghost ev = e@;
                            entries.push(e);
                            proof {
                                assert(entries.deep_view() =~~= prev.push(ev));
                            }
                        },
                        Err(e) => {
                            return Err(e);
                        },
                    }
                }
            },
            None => {},
        }
        Ok(entries)
    }

    fn exclude_patterns(&self, project_root: &str) -> Vec<String> {
        let mut patterns: Vec<String> = Vec::new();
        match store_dir() {
            Some(d) => {
                patterns.push(d);
            },
            None => {},
        }
        match meta_cache_dir() {
            Some(d) => {
                patterns.push(d);
            },
            None => {},
        }
        patterns
    }
}

} // verus!
