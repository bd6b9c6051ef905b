//! What every package-manager handler shares: the disposition for manager
//! stores and the entry construction.
use vstd::prelude::*;

use crate::cache_entry::{CacheEntry, CacheKind, PlannedAction};
use crate::config::MergedConfig;
use crate::errors::CacheError;
use crate::inspect::spec_is_stale;
use crate::util::{path_exists, is_dir, get_size, get_most_recent_mtime};

verus! {

/// Manager stores are not backed up: they have no direct effect on any
/// project and are safe to delete outright.
pub fn planned_action(_config: &MergedConfig) -> (r: PlannedAction)
    ensures
        r == PlannedAction::Delete,
{
    PlannedAction::Delete
}

/// Build the entry for one manager store directory.
pub fn make_entry(dir: String, config: &MergedConfig, now: i64) -> (r: Result<
    CacheEntry,
    CacheError,
>)
    ensures
        r matches Ok(e) ==> e@.path == dir@ && e@.kind == CacheKind::JavaScript
            && e@.planned_action == Some(PlannedAction::Delete) && e@.stale == spec_is_stale(
            e@.last_used,
            now,
            config.stale_days,
        ),
{
    let size = match get_size(dir.as_str()) {
        Ok(s) => s,
        Err(m) => {
            return Err(CacheError::InspectFailed(m));
        },
    };
    let last_used = match get_most_recent_mtime(dir.as_str()) {
        Ok(t) => t,
        Err(m) => {
            return Err(CacheError::InspectFailed(m));
        },
    };
    let stale = if now < last_used {
        false
    } else {
        (now as i128 - last_used as i128) as u128 / 86400 > config.stale_days as u128
    };
    Ok(
        CacheEntry::new(dir, CacheKind::JavaScript, size, last_used, stale).with_planned_action(
            planned_action(config),
        ),
    )
}

/// Whether a path names an existing directory.
pub fn existing_dir(p: &str) -> bool {
    path_exists(p) && is_dir(p)
}

} // verus!
