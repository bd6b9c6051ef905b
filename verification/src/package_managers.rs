//! JavaScript package-manager stores: one handler per manager, all feeding
//! the same entry shape into the shared pipeline.
pub mod common;
pub mod npm;
pub mod pnpm;
pub mod traits;
pub mod yarn;

use vstd::prelude::*;

use crate::cache_entry::{CacheEntry, CacheKind, PlannedAction};
use crate::config::MergedConfig;
use crate::errors::CacheError;
use crate::package_managers::traits::CacheManager;

verus! {

/// The three JavaScript package-manager handlers under one roof.
pub struct PackageManagers {
    pub config: MergedConfig,
}

impl PackageManagers {
    pub fn new(config: MergedConfig) -> (r: Self)
        ensures
            crate::config::config_view(r.config) == crate::config::config_view(config),
    {
        Self { config }
    }

    /// Every store of every handler: JavaScript entries planned for direct
    /// deletion.
    pub fn list_all(&self, project_root: &str, now: i64) -> (r: Result<Vec<CacheEntry>, CacheError>)
        ensures
            r matches Ok(v) ==> forall|j: int| 0 <= j < v@.len() ==> {
                let e = #[trigger] v.deep_view()[j];
                e.kind == CacheKind::JavaScript && e.planned_action == Some(PlannedAction::Delete)
            },
    {
        let mut all: Vec<CacheEntry> = Vec::new();
        let npm_manager = npm::NpmManager::new(self.config.clone());
        match npm_manager.list(project_root, now) {
            Ok(entries) => {
                append_pm_entries(&mut all, entries);
            },
            Err(e) => {
                return Err(e);
            },
        }
        let pnpm_manager = pnpm::PnpmManager::new(self.config.clone());
        match pnpm_manager.list(project_root, now) {
            Ok(entries) => {
                append_pm_entries(&mut all, entries);
            },
            Err(e) => {
                return Err(e);
            },
        }
        let yarn_manager = yarn::YarnManager::new(self.config.clone());
        match yarn_manager.list(project_root, now) {
            Ok(entries) => {
                append_pm_entries(&mut all, entries);
            },
            Err(e) => {
                return Err(e);
            },
        }
        Ok(all)
    }
}

/// Append package-manager entries onto an accumulator of the same shape.
fn append_pm_entries(acc: &mut Vec<CacheEntry>, mut more: Vec<CacheEntry>)
    requires
        forall|j: int| 0 <= j < old(acc)@.len() ==> {
            let e = #[trigger] old(acc).deep_view()[j];
            e.kind == CacheKind::JavaScript && e.planned_action == Some(PlannedAction::Delete)
        },
        forall|j: int| 0 <= j < more@.len() ==> {
            let e = #[trigger] more.deep_view()[j];
            e.kind == CacheKind::JavaScript && e.planned_action == Some(PlannedAction::Delete)
        },
    ensures
        forall|j: int| 0 <= j < final(acc)@.len() ==> {
            let e = #[trigger] final(acc).deep_view()[j];
            e.kind == CacheKind::JavaScript && e.planned_action == Some(PlannedAction::Delete)
        },
{
    let n = more.len();
    let ghost mv = more.deep_view();
    for i in 0..n
        invariant
            n == more@.len(),
            mv == more.deep_view(),
            forall|j: int| 0 <= j < acc@.len() ==> {
                let e = #[trigger] acc.deep_view()[j];
                e.kind == CacheKind::JavaScript && e.planned_action == Some(PlannedAction::Delete)
            },
            forall|j: int| 0 <= j < mv.len() ==> (#[trigger] mv[j]).kind == CacheKind::JavaScript
                && mv[j].planned_action == Some(PlannedAction::Delete),
    {
        let item = more[i].clone();
        let ghost prev = acc.deep_view();
        let ghost iv = item@;
        proof {
            assert(iv == mv[i as int]);
        }
        acc.push(item);
        proof {
            assert(acc.deep_view() =~~= prev.push(iv));
        }
    }
}

/// Add the package-manager stores to an entry list when the configuration
/// asks for them. With the flag off this is a successful no-op; with it on,
/// the existing entries stay in place and everything appended is a
/// JavaScript store planned for direct deletion. A failing handler leaves
/// the list untouched.
pub fn add_js_pm_entries(
    entries: &mut Vec<CacheEntry>,
    config: &MergedConfig,
    project_root: &str,
    now: i64,
) -> (r: Result<(), CacheError>)
    ensures
        !config.js_pm ==> r is Ok && final(entries)@ == old(entries)@,
        r is Err ==> final(entries)@ == old(entries)@,
        final(entries)@.len() >= old(entries)@.len(),
        final(entries)@.subrange(0, old(entries)@.len() as int) == old(entries)@,
        forall|j: int| old(entries)@.len() <= j < final(entries)@.len() ==> {
            let e = #[trigger] final(entries).deep_view()[j];
            e.kind == CacheKind::JavaScript && e.planned_action == Some(PlannedAction::Delete)
        },
{
    proof {
        assert(entries@.subrange(0, entries@.len() as int) =~= entries@);
    }
    if !config.js_pm {
        return Ok(());
    }
    let pm = PackageManagers::new(config.clone());
    match pm.list_all(project_root, now) {
        Ok(pm_entries) => {
            let ghost base = entries@;
            let ghost mv = pm_entries.deep_view();
            let np = pm_entries.len();
            for i in 0..np
                invariant
                    np == pm_entries@.len(),
                    mv == pm_entries.deep_view(),
                    forall|j: int| 0 <= j < mv.len() ==> (#[trigger] mv[j]).kind
                        == CacheKind::JavaScript && mv[j].planned_action == Some(
                        PlannedAction::Delete,
                    ),
                    entries@.len() == base.len() + i,
                    entries@.subrange(0, base.len() as int) == base,
                    forall|j: int| base.len() <= j < entries@.len() ==> {
                        let e = #[trigger] entries.deep_view()[j];
                        e.kind == CacheKind::JavaScript && e.planned_action == Some(
                            PlannedAction::Delete,
                        )
                    },
            {
                let item = pm_entries[i].clone();
                let ghost prevq = entries@;
                let ghost prevd = entries.deep_view();
                let ghost iv = item@;
                proof {
                    assert(iv == mv[i as int]);
                }
                entries.push(item);
                proof {
                    assert(entries.deep_view() =~~= prevd.push(iv));
                    assert(entries@.subrange(0, base.len() as int)
                        =~= prevq.subrange(0, base.len() as int));
                }
            }
            Ok(())
        },
        Err(e) => Err(e),
    }
}

} // verus!
