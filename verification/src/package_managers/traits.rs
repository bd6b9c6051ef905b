//! The capability every package-manager cache handler offers.
use vstd::prelude::*;

use crate::cache_entry::{CacheEntry, CacheKind, PlannedAction};
use crate::errors::CacheError;

verus! {

/// Trait implemented by each package-manager cache handler. Every handler
/// lists JavaScript stores planned for direct deletion.
pub trait CacheManager {
    /// A short static name.
    fn name(&self) -> &'static str;

    /// List cache entries for this package manager.
    fn list(&self, project_root: &str, now: i64) -> (r: Result<Vec<CacheEntry>, CacheError>)
        ensures
            r matches Ok(v) ==> forall|j: int| 0 <= j < v@.len() ==> {
                let e = #[trigger] v.deep_view()[j];
                e.kind == CacheKind::JavaScript && e.planned_action == Some(PlannedAction::Delete)
            },
    ;

    /// Paths that should be excluded from backups.
    fn exclude_patterns(&self, project_root: &str) -> Vec<String>;
}

} // verus!
