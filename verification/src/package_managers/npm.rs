//! The npm cache handler: the `.npm` store in the user's home.
use vstd::prelude::*;

use crate::cache_entry::{CacheEntry, CacheKind, PlannedAction};
use crate::config::MergedConfig;
use crate::errors::CacheError;
use crate::text::join_path;
use crate::util::home_dir;

use super::common::{existing_dir, make_entry};
use super::traits::CacheManager;

verus! {

pub struct NpmManager {
    pub config: MergedConfig,
}

impl NpmManager {
    pub fn new(config: MergedConfig) -> (r: Self)
        ensures
            crate::config::config_view(r.config) == crate::config::config_view(config),
    {
        Self { config }
    }

    fn cache_dir() -> Option<String> {
        match home_dir() {
            Some(home) => Some(join_path(home.as_str(), ".npm")),
            None => None,
        }
    }
}

impl CacheManager for NpmManager {
    fn name(&self) -> &'static str {
        "npm"
    }

    fn list(&self, project_root: &str, now: i64) -> (r: Result<Vec<CacheEntry>, CacheError>)
        ensures
            r matches Ok(v) ==> forall|j: int| 0 <= j < v@.len() ==> {
                let e = #[trigger] v.deep_view()[j];
                e.kind == CacheKind::JavaScript && e.planned_action == Some(PlannedAction::Delete)
            },
    {
        let mut entries: Vec<CacheEntry> = Vec::new();
        match Self::cache_dir() {
            Some(dir) => {
                if existing_dir(dir.as_str()) {
                    match make_entry(dir, &self.config, now) {
                        Ok(e) => {
                            let ghost prev = entries.deep_view();
                            let ghost ev = e@;
                            entries.push(e);
                            proof {
                                assert(entries.deep_view() =~~= prev.push(ev));
                            }
                        },
                        Err(e) => {
                            return Err(e);
                        },
                    }
                }
            },
            None => {},
        }
        Ok(entries)
    }

    fn exclude_patterns(&self, project_root: &str) -> Vec<String> {
        let mut patterns: Vec<String> = Vec::new();
        match Self::cache_dir() {
            Some(dir) => {
                patterns.push(dir);
            },
            None => {},
        }
        patterns
    }
}

} // verus!
