//! Non-interactive cache management for build pipelines: one pass of the
//! discover–inspect–execute pipeline, with a machine-readable summary.
use vstd::prelude::*;

use crate::actions::ActionExecutor;
use crate::cache_entry::{total_bytes_checked, backup_bytes_checked};
use crate::config::MergedConfig;
use crate::discover::DiscoveryResult;
use crate::errors::CacheError;
use crate::inspect::CacheInspector;
use crate::text::u64_to_dec;
use crate::util::format_size_decimal;

verus! {

/// CI mode for non-interactive cache management.
#[derive(Debug, Clone, Copy, PartialEq, Eq, Structural)]
pub enum CiMode {
    Prebuild,
    Postbuild,
}

/// The tag a CI mode prints as.
pub open spec fn mode_tag(m: CiMode) -> Seq<char> {
    match m {
        CiMode::Prebuild => "prebuild"@,
        CiMode::Postbuild => "postbuild"@,
    }
}

impl CiMode {
    /// The tag this mode prints as.
    pub fn name(&self) -> (r: String)
        ensures
            r@ == mode_tag(*self),
    {
        match self {
            CiMode::Prebuild => "prebuild".to_owned(),
            CiMode::Postbuild => "postbuild".to_owned(),
        }
    }
}

/// CI execution result.
#[derive(Debug)]
pub struct CiResult {
    pub mode: CiMode,
    pub entries_processed: usize,
    pub freed_bytes: u64,
    pub backup_dir: Option<String>,
    pub timestamp: i64,
    pub status: String,
    pub summary: Vec<(String, String)>,
}

/// CI cache manager.
pub struct CiCacheManager {
    pub config: MergedConfig,
    pub mode: CiMode,
}

impl CiCacheManager {
    pub fn new(config: MergedConfig, mode: CiMode) -> (r: Self)
        ensures
            crate::config::config_view(r.config) == crate::config::config_view(config),
            r.mode == mode,
    {
        Self { config, mode }
    }

    /// Build the machine-readable summary: the mode, counts, freed bytes in
    /// both raw and human form, the backup directory when one was made, and
    /// the timestamp.
    pub fn create_summary(
        &self,
        entries: usize,
        freed_bytes: u64,
        backup_dir: Option<&String>,
        now: i64,
    ) -> (r: Vec<(String, String)>)
        requires
            0 <= now < crate::timefmt::max_timestamp(),
        ensures
            r@.len() == if backup_dir is Some {
                6int
            } else {
                5int
            },
    {
        let mut summary: Vec<(String, String)> = Vec::new();
        summary.push(("mode".to_owned(), self.mode.name()));
        summary.push(("entries_processed".to_owned(), u64_to_dec(entries as u64)));
        summary.push(("freed_bytes".to_owned(), u64_to_dec(freed_bytes)));
        summary.push(("freed_human".to_owned(), format_size_decimal(freed_bytes)));
        match backup_dir {
            Some(b) => {
                summary.push(("backup_dir".to_owned(), b.clone()));
            },
            None => {},
        }
        summary.push(("timestamp".to_owned(), crate::timefmt::format_rfc3339_utc(now)));
        summary
    }

    /// One CI pass at time `now`, rooted at `project_root`: discover and
    /// inspect; prebuild only analyzes, postbuild frees space — a dry run
    /// reports what it would free, otherwise a safe delete moves the planned
    /// entries to a backup. A byte total beyond 64 bits is the one
    /// arithmetic failure.
    pub fn execute(&self, project_root: &str, now: i64) -> (r: Result<CiResult, CacheError>)
        requires
            0 <= now < crate::timefmt::max_timestamp(),
        ensures
            r matches Ok(cr) ==> cr.mode == self.mode,
    {
        let discovery = match DiscoveryResult::discover(&self.config, project_root) {
            Ok(d) => d,
            Err(e) => {
                return Err(e);
            },
        };
        if discovery.cache_entries.len() == 0 {
            let summary = self.create_summary(0, 0, None, now);
            return Ok(
                CiResult {
                    mode: self.mode,
                    entries_processed: 0,
                    freed_bytes: 0,
                    backup_dir: None,
                    timestamp: now,
                    status: "nothing_to_do".to_owned(),
                    summary,
                },
            );
        }
        let inspector = CacheInspector::new(self.config.clone());
        let entries = match inspector.inspect_caches(&discovery.cache_entries, now) {
            Ok(v) => v,
            Err(e) => {
                return Err(e);
            },
        };
        if entries.len() == 0 {
            let summary = self.create_summary(0, 0, None, now);
            return Ok(
                CiResult {
                    mode: self.mode,
                    entries_processed: 0,
                    freed_bytes: 0,
                    backup_dir: None,
                    timestamp: now,
                    status: "nothing_to_do".to_owned(),
                    summary,
                },
            );
        }
        let (freed_bytes, backup_dir) = match self.mode {
            CiMode::Prebuild => (0u64, Option::<String>::None),
            CiMode::Postbuild => {
                if self.config.dry_run {
                    match total_bytes_checked(&entries) {
                        Some(total) => (total, None),
                        None => {
                            return Err(CacheError::SizeOverflow);
                        },
                    }
                } else {
                    match backup_bytes_checked(&entries) {
                        Some(_) => {},
                        None => {
                            return Err(CacheError::SizeOverflow);
                        },
                    }
                    let executor = ActionExecutor::new(
                        self.config.clone(),
                        project_root.to_owned(),
                    );
                    match executor.safe_delete(&entries, now) {
                        Ok(result) => (result.total_size, Some(result.backup_dir)),
                        Err(e) => {
                            return Err(e);
                        },
                    }
                }
            },
        };
        let status = if freed_bytes > 0 {
            "success".to_owned()
        } else {
            "no_action".to_owned()
        };
        let n = entries.len();
        let summary = self.create_summary(
            n,
            freed_bytes,
            match &backup_dir {
                Some(b) => Some(b),
                None => None,
            },
            now,
        );
        Ok(
            CiResult {
                mode: self.mode,
                entries_processed: n,
                freed_bytes,
                backup_dir,
                timestamp: now,
                status,
                summary,
            },
        )
    }
}

} // verus!
