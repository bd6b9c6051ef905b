//! The executor: the dry-run partition and the physical operations — move to
//! a timestamped backup, permanent removal, restore from a backup — each with
//! per-entry failure isolation.
use vstd::prelude::*;

use crate::cache_entry::{
    CacheEntry, EntryView, PlannedAction, sum_sizes, is_delete_planned, is_backup_planned,
    is_skip_planned, lemma_sum_sizes_nonneg, lemma_sum_filter_take_le, lemma_sum_take_le_entries,
};
use crate::config::MergedConfig;
use crate::errors::CacheError;
use crate::text::{joined, base_name, base_name_str, join_path, str_eq};
use crate::util::{
    path_exists, is_dir, get_backup_dir, create_backup_dir_name, create_dir_all_path,
    move_dir_path, move_file_path, remove_dir_path, remove_file_path, list_dir, mtime_unix,
    get_size, human_size_of, format_size_decimal,
};

verus! {

/// Action executor for cache operations. The project root anchors the backup
/// root and restore targets, so tests and repeated invocations can inject a
/// location instead of reading the working directory ad hoc.
pub struct ActionExecutor {
    pub config: MergedConfig,
    pub project_root: String,
}

/// Dry run result: the input entries partitioned by planned action.
#[derive(Debug)]
pub struct DryRunResult {
    pub to_delete: Vec<CacheEntry>,
    pub to_backup: Vec<CacheEntry>,
    pub to_skip: Vec<CacheEntry>,
    pub total_size: u64,
    pub total_count: usize,
}

impl DryRunResult {
    /// Get human-readable total size.
    pub fn total_size_human(&self) -> (r: String)
        ensures
            r@ == human_size_of(self.total_size),
    {
        format_size_decimal(self.total_size)
    }
}

/// One successful backup move.
#[derive(Debug)]
pub struct BackupEntry {
    pub original_path: String,
    pub backup_path: String,
    pub size: u64,
}

/// The mathematical image of a backup record.
pub ghost struct BackupEntryView {
    pub original_path: Seq<char>,
    pub backup_path: Seq<char>,
    pub size: u64,
}

impl DeepView for BackupEntry {
    type V = BackupEntryView;

    open spec fn deep_view(&self) -> BackupEntryView {
        BackupEntryView {
            original_path: self.original_path@,
            backup_path: self.backup_path@,
            size: self.size,
        }
    }
}

/// One failed move or removal, with its cause.
#[derive(Debug)]
pub struct FailedEntry {
    pub path: String,
    pub error: String,
}

/// The mathematical image of a failure record.
pub ghost struct FailedEntryView {
    pub path: Seq<char>,
    pub error: Seq<char>,
}

impl DeepView for FailedEntry {
    type V = FailedEntryView;

    open spec fn deep_view(&self) -> FailedEntryView {
        FailedEntryView { path: self.path@, error: self.error@ }
    }
}

/// Safe delete result.
#[derive(Debug)]
pub struct SafeDeleteResult {
    pub backed_up: Vec<BackupEntry>,
    pub failed: Vec<FailedEntry>,
    pub total_size: u64,
    pub backup_dir: String,
}

/// Hard delete result.
#[derive(Debug)]
pub struct HardDeleteResult {
    pub deleted: Vec<String>,
    pub failed: Vec<FailedEntry>,
    pub total_size: u64,
}

/// Restore result.
#[derive(Debug)]
pub struct RestoreResult {
    pub restored: Vec<String>,
    pub failed: Vec<FailedEntry>,
    pub backup_dir: String,
}

/// Cleanup result.
#[derive(Debug)]
pub struct CleanupResult {
    pub removed: Vec<String>,
    pub total_freed: u64,
}

/// Total bytes recorded across backup records.
pub open spec fn sum_backup_sizes(s: Seq<BackupEntryView>) -> int
    decreases s.len(),
{
    if s.len() == 0 {
        0
    } else {
        sum_backup_sizes(s.drop_last()) + s.last().size
    }
}

/// The outcome of a backup pass over `planned`: the planned entries split
/// into `done` and `miss` with nothing lost or double-counted (a multiset
/// equality), the records mirror `done` and `miss` position by position,
/// and the total is the bytes of what was actually moved.
pub open spec fn covers_planned_backups(
    planned: Seq<EntryView>,
    dir: Seq<char>,
    backed: Seq<BackupEntryView>,
    failed: Seq<FailedEntryView>,
    total: u64,
    done: Seq<EntryView>,
    miss: Seq<EntryView>,
) -> bool {
    &&& done.to_multiset().add(miss.to_multiset()) == planned.to_multiset()
    &&& backed.len() == done.len()
    &&& (forall|j: int| 0 <= j < done.len() ==> backup_record_for(done[j], dir, #[trigger] backed[j]))
    &&& failed.len() == miss.len()
    &&& (forall|j: int| 0 <= j < miss.len() ==> (#[trigger] failed[j]).path == miss[j].path)
    &&& total == sum_sizes(done)
}

/// The outcome of a deletion pass over `planned`, in the same shape: the
/// deleted paths and failure records mirror the split position by position.
pub open spec fn covers_planned_deletes(
    planned: Seq<EntryView>,
    deleted: Seq<Seq<char>>,
    failed: Seq<FailedEntryView>,
    total: u64,
    done: Seq<EntryView>,
    miss: Seq<EntryView>,
) -> bool {
    &&& done.to_multiset().add(miss.to_multiset()) == planned.to_multiset()
    &&& deleted.len() == done.len()
    &&& (forall|j: int| 0 <= j < done.len() ==> #[trigger] deleted[j] == done[j].path)
    &&& failed.len() == miss.len()
    &&& (forall|j: int| 0 <= j < miss.len() ==> (#[trigger] failed[j]).path == miss[j].path)
    &&& total == sum_sizes(done)
}

/// `p` is a location reconstructed at `root` from some item's base name.
pub open spec fn reconstructed_at(root: Seq<char>, p: Seq<char>) -> bool {
    exists|b: Seq<char>| p == joined(root, #[trigger] base_name(b))
}

/// A backup directory is old when its modification time lies strictly
/// before the cutoff of `days` days before `now`.
pub open spec fn spec_is_old(mtime: i64, now: i64, days: u32) -> bool {
    (mtime as int) < now - 86400 * (days as int)
}

/// A backup record for entry `e` into the backup directory `dir`: the
/// original path is the entry's, and the destination is the path's base name
/// under `dir`.
pub open spec fn backup_record_for(e: EntryView, dir: Seq<char>, b: BackupEntryView) -> bool {
    &&& b.original_path == e.path
    &&& b.size == e.size_bytes
    &&& b.backup_path == joined(dir, base_name(e.path))
}

impl ActionExecutor {
    /// Create a new action executor rooted at `project_root`.
    pub fn new(config: MergedConfig, project_root: String) -> (r: Self)
        ensures
            crate::config::config_view(r.config) == crate::config::config_view(config),
            r.project_root@ == project_root@,
    {
        Self { config, project_root }
    }

    /// Partition entries by planned action without touching the filesystem.
    /// Every entry lands in one bucket — entries with no planned action are
    /// kept with the skips — and the total accounts for every bucketed
    /// entry's bytes. The one failure is a byte total that exceeds 64 bits.
    pub fn dry_run(&self, entries: &Vec<CacheEntry>) -> (r: Result<DryRunResult, CacheError>)
        ensures
            match r {
                Ok(d) => {
                    let s = entries.deep_view();
                    &&& d.to_delete.deep_view() == s.filter(|e: EntryView| is_delete_planned(e))
                    &&& d.to_backup.deep_view() == s.filter(|e: EntryView| is_backup_planned(e))
                    &&& d.to_skip.deep_view() == s.filter(|e: EntryView| is_skip_planned(e))
                    &&& d.total_count == s.len()
                    &&& d.total_size == sum_sizes(s)
                },
                Err(e) => e is SizeOverflow && sum_sizes(entries.deep_view()) > u64::MAX,
            },
    {
        let ghost s = entries.deep_view();
        let ghost pd = |e: EntryView| is_delete_planned(e);
        let ghost pb = |e: EntryView| is_backup_planned(e);
        let ghost ps = |e: EntryView| is_skip_planned(e);
        let mut to_delete: Vec<CacheEntry> = Vec::new();
        let mut to_backup: Vec<CacheEntry> = Vec::new();
        let mut to_skip: Vec<CacheEntry> = Vec::new();
        let mut total_size: u64 = 0;
        let mut total_count: usize = 0;
        let n = entries.len();
        proof {
            assert(to_delete.deep_view() =~= s.take(0).filter(pd));
            assert(to_backup.deep_view() =~= s.take(0).filter(pb));
            assert(to_skip.deep_view() =~= s.take(0).filter(ps));
        }
        for i in 0..n
            invariant
                n == entries@.len(),
                s == entries.deep_view(),
                pd == (|e: EntryView| is_delete_planned(e)),
                pb == (|e: EntryView| is_backup_planned(e)),
                ps == (|e: EntryView| is_skip_planned(e)),
                to_delete.deep_view() == s.take(i as int).filter(pd),
                to_backup.deep_view() == s.take(i as int).filter(pb),
                to_skip.deep_view() == s.take(i as int).filter(ps),
                total_count == i,
                total_size == sum_sizes(s.take(i as int)),
        {
            proof {
                reveal(Seq::filter);
                assert(s.take(i + 1).drop_last() =~= s.take(i as int));
                assert(s.take(i + 1).last() == s[i as int]);
                assert(sum_sizes(s.take(i + 1)) == sum_sizes(s.take(i as int))
                    + s[i as int].size_bytes);
            }
            let entry = &entries[i];
            proof {
                assert(entry@ == s[i as int]);
            }
            if total_size > u64::MAX - entry.size_bytes {
                proof {
                    lemma_sum_take_le_entries(s, i + 1);
                }
                return Err(CacheError::SizeOverflow);
            }
            total_size = total_size + entry.size_bytes;
            match entry.planned_action {
                Some(PlannedAction::Delete) => {
                    let c = entry.clone();
                    let ghost prev = to_delete.deep_view();
                    to_delete.push(c);
                    proof {
                        assert(to_delete.deep_view() =~~= prev.push(s[i as int]));
                    }
                },
                Some(PlannedAction::Backup) => {
                    let c = entry.clone();
                    let ghost prev = to_backup.deep_view();
                    to_backup.push(c);
                    proof {
                        assert(to_backup.deep_view() =~~= prev.push(s[i as int]));
                    }
                },
                _ => {
                    let c = entry.clone();
                    let ghost prev = to_skip.deep_view();
                    to_skip.push(c);
                    proof {
                        assert(to_skip.deep_view() =~~= prev.push(s[i as int]));
                    }
                },
            }
            total_count = total_count + 1;
        }
        proof {
            assert(s.take(n as int) =~= s);
        }
        Ok(DryRunResult { to_delete, to_backup, to_skip, total_size, total_count })
    }

    /// Move one path into the backup directory under its base name. A
    /// vanished source is reported as such; otherwise the move primitive
    /// decides.
    fn move_to_backup(&self, source: &str, backup_dir: &str) -> (r: Result<String, String>)
        ensures
            r matches Ok(p) ==> p@ == joined(backup_dir@, base_name(source@)),
    {
        if !path_exists(source) {
            let mut m = "Source path does not exist: ".to_owned();
            m.append(source);
            return Err(m);
        }
        let base = base_name_str(source);
        let backup_path = join_path(backup_dir, base.as_str());
        if is_dir(source) {
            match move_dir_path(source, backup_path.as_str()) {
                Ok(()) => Ok(backup_path),
                Err(e) => Err(e),
            }
        } else {
            match move_file_path(source, backup_path.as_str()) {
                Ok(()) => Ok(backup_path),
                Err(e) => Err(e),
            }
        }
    }

    /// Move every entry planned Backup into one fresh timestamped backup
    /// directory. One entry's failure is recorded and does not stop the rest:
    /// every Backup entry lands in exactly one of the two output lists. The
    /// whole call fails only when the backup directory cannot be created.
    pub fn safe_delete(&self, entries: &Vec<CacheEntry>, now: i64) -> (r: Result<
        SafeDeleteResult,
        CacheError,
    >)
        requires
            0 <= now < crate::timefmt::max_timestamp(),
            sum_sizes(entries.deep_view().filter(|e: EntryView| is_backup_planned(e)))
                <= u64::MAX,
        ensures
            match r {
                Ok(d) => {
                    let s = entries.deep_view();
                    let planned = s.filter(|e: EntryView| is_backup_planned(e));
                    &&& exists|y: int, mo: int, dy: int, h: int, mi: int, sc: int|
                        crate::timefmt::stamp_of_unix(now as int, y, mo, dy, h, mi, sc)
                        && d.backup_dir@ == joined(
                            joined(self.project_root@, ".cachekill-backup"@),
                            crate::timefmt::stamp_chars(y, mo, dy, h, mi, sc),
                        )
                    &&& d.backed_up@.len() + d.failed@.len() == planned.len()
                    &&& exists|done: Seq<EntryView>, miss: Seq<EntryView>|
                        #[trigger] covers_planned_backups(
                            planned,
                            d.backup_dir@,
                            d.backed_up.deep_view(),
                            d.failed.deep_view(),
                            d.total_size,
                            done,
                            miss,
                        )
                    &&& d.total_size == sum_backup_sizes(d.backed_up.deep_view())
                    &&& d.total_size <= sum_sizes(planned)
                },
                Err(e) => e is BackupRootFailed,
            },
    {
        let backup_dir = get_backup_dir(self.project_root.as_str());
        let stamp = create_backup_dir_name(now);
        let timestamped = join_path(backup_dir.as_str(), stamp.as_str());
        match create_dir_all_path(timestamped.as_str()) {
            Ok(()) => {},
            Err(m) => {
                return Err(CacheError::BackupRootFailed(m));
            },
        }
        let ghost s = entries.deep_view();
        let ghost pb = |e: EntryView| is_backup_planned(e);
        let mut backed_up: Vec<BackupEntry> = Vec::new();
        let mut failed: Vec<FailedEntry> = Vec::new();
        let mut total_size: u64 = 0;
        let ghost mut done: Seq<EntryView> = Seq::empty();
        let ghost mut miss: Seq<EntryView> = Seq::empty();
        let n = entries.len();
        proof {
            broadcast use vstd::seq_lib::group_to_multiset_ensures;

            assert(s.take(0).filter(pb) =~= Seq::<EntryView>::empty());
            assert(Seq::<EntryView>::empty().to_multiset()
                =~= vstd::multiset::Multiset::<EntryView>::empty());
            assert(done.to_multiset().add(miss.to_multiset())
                =~= s.take(0).filter(pb).to_multiset());
        }
        for i in 0..n
            invariant
                n == entries@.len(),
                s == entries.deep_view(),
                pb == (|e: EntryView| is_backup_planned(e)),
                sum_sizes(s.filter(pb)) <= u64::MAX,
                done.len() + miss.len() == s.take(i as int).filter(pb).len(),
                done.to_multiset().add(miss.to_multiset()) == s.take(i as int).filter(
                    pb,
                ).to_multiset(),
                backed_up@.len() == done.len(),
                forall|j: int| 0 <= j < done.len()
                    ==> backup_record_for(done[j], timestamped@, #[trigger] backed_up.deep_view()[j]),
                failed@.len() == miss.len(),
                forall|j: int| 0 <= j < miss.len()
                    ==> (#[trigger] failed.deep_view()[j]).path == miss[j].path,
                total_size == sum_backup_sizes(backed_up.deep_view()),
                total_size == sum_sizes(done),
                sum_sizes(done) + sum_sizes(miss) == sum_sizes(s.take(i as int).filter(pb)),
        {
            proof {
                reveal(Seq::filter);
                assert(s.take(i + 1).drop_last() =~= s.take(i as int));
                assert(s.take(i + 1).last() == s[i as int]);
                let f = s.take(i as int).filter(pb);
                if pb(s[i as int]) {
                    assert(f.push(s[i as int]).drop_last() =~= f);
                    assert(sum_sizes(f.push(s[i as int])) == sum_sizes(f) + s[i as int].size_bytes);
                    vstd::seq_lib::to_multiset_build(f, s[i as int]);
                }
            }
            let entry = &entries[i];
            proof {
                assert(entry@ == s[i as int]);
            }
            let is_backup = match entry.planned_action {
                Some(PlannedAction::Backup) => true,
                _ => false,
            };
            if is_backup {
                match self.move_to_backup(entry.path.as_str(), timestamped.as_str()) {
                    Ok(backup_path) => {
                        let record = BackupEntry {
                            original_path: entry.path.clone(),
                            backup_path,
                            size: entry.size_bytes,
                        };
                        let ghost prev = backed_up.deep_view();
                        let ghost rv = record.deep_view();
                        proof {
                            lemma_sum_filter_take_le(s, pb, i + 1);
                            lemma_sum_sizes_nonneg(miss);
                            lemma_sum_backup_nonneg(prev);
                        }
                        backed_up.push(record);
                        proof {
                            assert(backed_up.deep_view() =~~= prev.push(rv));
                            assert(sum_backup_sizes(prev.push(rv)) == sum_backup_sizes(prev)
                                + rv.size) by {
                                assert(prev.push(rv).drop_last() =~= prev);
                            }
                            assert(backup_record_for(s[i as int], timestamped@, rv));
                            vstd::seq_lib::to_multiset_build(done, s[i as int]);
                            let old_done = done;
                            done = done.push(s[i as int]);
                            assert(sum_sizes(done) == sum_sizes(old_done)
                                + s[i as int].size_bytes) by {
                                assert(done.drop_last() =~= old_done);
                            }
                            assert(done.to_multiset().add(miss.to_multiset())
                                =~= s.take(i + 1).filter(pb).to_multiset());
                            assert forall|j: int| 0 <= j < done.len() implies backup_record_for(
                                done[j],
                                timestamped@,
                                #[trigger] backed_up.deep_view()[j],
                            ) by {
                                if j < done.len() - 1 {
                                    assert(backed_up.deep_view()[j] == prev[j]);
                                    assert(done[j] == old_done[j]);
                                } else {
                                    assert(backed_up.deep_view()[j] == rv);
                                    assert(done[j] == s[i as int]);
                                }
                            }
                        }
                        total_size = total_size + entry.size_bytes;
                    },
                    Err(error) => {
                        let record = FailedEntry { path: entry.path.clone(), error };
                        let ghost prev = failed.deep_view();
                        let ghost rv = record.deep_view();
                        failed.push(record);
                        proof {
                            assert(failed.deep_view() =~~= prev.push(rv));
                            vstd::seq_lib::to_multiset_build(miss, s[i as int]);
                            let old_miss = miss;
                            miss = miss.push(s[i as int]);
                            assert(sum_sizes(miss) == sum_sizes(old_miss)
                                + s[i as int].size_bytes) by {
                                assert(miss.drop_last() =~= old_miss);
                            }
                            assert(done.to_multiset().add(miss.to_multiset())
                                =~= s.take(i + 1).filter(pb).to_multiset());
                            assert forall|j: int| 0 <= j < miss.len() implies (
                            #[trigger] failed.deep_view()[j]).path == miss[j].path by {
                                if j < miss.len() - 1 {
                                    assert(failed.deep_view()[j] == prev[j]);
                                    assert(miss[j] == old_miss[j]);
                                } else {
                                    assert(failed.deep_view()[j] == rv);
                                    assert(miss[j] == s[i as int]);
                                }
                            }
                        }
                    },
                }
            }
        }
        proof {
            assert(s.take(n as int) =~= s);
            lemma_sum_sizes_nonneg(miss);
            assert(s.filter(pb) == s.filter(|e: EntryView| is_backup_planned(e)));
        }
        let result = SafeDeleteResult { backed_up, failed, total_size, backup_dir: timestamped };
        proof {
            assert(covers_planned_backups(
                entries.deep_view().filter(|e: EntryView| is_backup_planned(e)),
                result.backup_dir@,
                result.backed_up.deep_view(),
                result.failed.deep_view(),
                result.total_size,
                done,
                miss,
            ));
        }
        Ok(result)
    }

    /// Remove one path from disk; an already absent path counts as removed,
    /// which makes repeated hard deletion report success both times.
    fn delete_path(&self, path: &str) -> (r: Result<(), String>) {
        if !path_exists(path) {
            return Ok(());
        }
        if is_dir(path) {
            remove_dir_path(path)
        } else {
            remove_file_path(path)
        }
    }

    /// Permanently remove every entry planned Delete. One entry's failure is
    /// recorded and does not stop the rest: the Delete-planned entries split
    /// exactly into the deleted paths and the failure records, and the total
    /// is the bytes of what was actually removed.
    pub fn hard_delete(&self, entries: &Vec<CacheEntry>) -> (r: Result<
        HardDeleteResult,
        CacheError,
    >)
        requires
            sum_sizes(entries.deep_view().filter(|e: EntryView| is_delete_planned(e)))
                <= u64::MAX,
        ensures
            r matches Ok(d) ==> {
                let s = entries.deep_view();
                let planned = s.filter(|e: EntryView| is_delete_planned(e));
                &&& d.deleted@.len() + d.failed@.len() == planned.len()
                &&& exists|done: Seq<EntryView>, miss: Seq<EntryView>|
                    #[trigger] covers_planned_deletes(
                        planned,
                        d.deleted.deep_view(),
                        d.failed.deep_view(),
                        d.total_size,
                        done,
                        miss,
                    )
                &&& d.total_size <= sum_sizes(planned)
            },
            r is Ok,
    {
        let ghost s = entries.deep_view();
        let ghost pd = |e: EntryView| is_delete_planned(e);
        let mut deleted: Vec<String> = Vec::new();
        let mut failed: Vec<FailedEntry> = Vec::new();
        let mut total_size: u64 = 0;
        let ghost mut done: Seq<EntryView> = Seq::empty();
        let ghost mut miss: Seq<EntryView> = Seq::empty();
        let n = entries.len();
        proof {
            broadcast use vstd::seq_lib::group_to_multiset_ensures;

            assert(s.take(0).filter(pd) =~= Seq::<EntryView>::empty());
            assert(Seq::<EntryView>::empty().to_multiset()
                =~= vstd::multiset::Multiset::<EntryView>::empty());
            assert(done.to_multiset().add(miss.to_multiset())
                =~= s.take(0).filter(pd).to_multiset());
        }
        for i in 0..n
            invariant
                n == entries@.len(),
                s == entries.deep_view(),
                pd == (|e: EntryView| is_delete_planned(e)),
                sum_sizes(s.filter(pd)) <= u64::MAX,
                done.len() + miss.len() == s.take(i as int).filter(pd).len(),
                done.to_multiset().add(miss.to_multiset()) == s.take(i as int).filter(
                    pd,
                ).to_multiset(),
                deleted@.len() == done.len(),
                forall|j: int| 0 <= j < done.len()
                    ==> #[trigger] deleted.deep_view()[j] == done[j].path,
                failed@.len() == miss.len(),
                forall|j: int| 0 <= j < miss.len()
                    ==> (#[trigger] failed.deep_view()[j]).path == miss[j].path,
                total_size == sum_sizes(done),
                sum_sizes(done) + sum_sizes(miss) == sum_sizes(s.take(i as int).filter(pd)),
        {
            proof {
                reveal(Seq::filter);
                assert(s.take(i + 1).drop_last() =~= s.take(i as int));
                assert(s.take(i + 1).last() == s[i as int]);
                let f = s.take(i as int).filter(pd);
                if pd(s[i as int]) {
                    assert(f.push(s[i as int]).drop_last() =~= f);
                    assert(sum_sizes(f.push(s[i as int])) == sum_sizes(f) + s[i as int].size_bytes);
                    vstd::seq_lib::to_multiset_build(f, s[i as int]);
                }
            }
            let entry = &entries[i];
            proof {
                assert(entry@ == s[i as int]);
            }
            let is_delete = match entry.planned_action {
                Some(PlannedAction::Delete) => true,
                _ => false,
            };
            if is_delete {
                match self.delete_path(entry.path.as_str()) {
                    Ok(()) => {
                        let ghost prev = deleted.deep_view();
                        proof {
                            lemma_sum_filter_take_le(s, pd, i + 1);
                            lemma_sum_sizes_nonneg(miss);
                        }
                        deleted.push(entry.path.clone());
                        proof {
                            assert(deleted.deep_view() =~~= prev.push(s[i as int].path));
                            vstd::seq_lib::to_multiset_build(done, s[i as int]);
                            let old_done = done;
                            done = done.push(s[i as int]);
                            assert(sum_sizes(done) == sum_sizes(old_done)
                                + s[i as int].size_bytes) by {
                                assert(done.drop_last() =~= old_done);
                            }
                            assert(done.to_multiset().add(miss.to_multiset())
                                =~= s.take(i + 1).filter(pd).to_multiset());
                            assert forall|j: int| 0 <= j < done.len() implies #[trigger] deleted.deep_view()[j]
                                == done[j].path by {
                                if j < done.len() - 1 {
                                    assert(deleted.deep_view()[j] == prev[j]);
                                    assert(done[j] == old_done[j]);
                                } else {
                                    assert(deleted.deep_view()[j] == s[i as int].path);
                                    assert(done[j] == s[i as int]);
                                }
                            }
                        }
                        total_size = total_size + entry.size_bytes;
                    },
                    Err(error) => {
                        let record = FailedEntry { path: entry.path.clone(), error };
                        let ghost prev = failed.deep_view();
                        let ghost rv = record.deep_view();
                        failed.push(record);
                        proof {
                            assert(failed.deep_view() =~~= prev.push(rv));
                            vstd::seq_lib::to_multiset_build(miss, s[i as int]);
                            let old_miss = miss;
                            miss = miss.push(s[i as int]);
                            assert(sum_sizes(miss) == sum_sizes(old_miss)
                                + s[i as int].size_bytes) by {
                                assert(miss.drop_last() =~= old_miss);
                            }
                            assert(done.to_multiset().add(miss.to_multiset())
                                =~= s.take(i + 1).filter(pd).to_multiset());
                            assert forall|j: int| 0 <= j < miss.len() implies (
                            #[trigger] failed.deep_view()[j]).path == miss[j].path by {
                                if j < miss.len() - 1 {
                                    assert(failed.deep_view()[j] == prev[j]);
                                    assert(miss[j] == old_miss[j]);
                                } else {
                                    assert(failed.deep_view()[j] == rv);
                                    assert(miss[j] == s[i as int]);
                                }
                            }
                        }
                    },
                }
            }
        }
        proof {
            assert(s.take(n as int) =~= s);
            lemma_sum_sizes_nonneg(miss);
            assert(s.filter(pd) == s.filter(|e: EntryView| is_delete_planned(e)));
        }
        let result = HardDeleteResult { deleted, failed, total_size };
        proof {
            assert(covers_planned_deletes(
                entries.deep_view().filter(|e: EntryView| is_delete_planned(e)),
                result.deleted.deep_view(),
                result.failed.deep_view(),
                result.total_size,
                done,
                miss,
            ));
        }
        Ok(result)
    }

    /// The location an item restores to, reconstructed from the backed-up
    /// item's base name alone, re-anchored at the project root. This is a
    /// lossy reconstruction: the original parent directory is not recorded,
    /// so only items that lived directly under the root come back in place.
    pub fn get_original_path_from_backup(&self, backup_path: &str) -> (r: String)
        ensures
            r@ == joined(self.project_root@, base_name(backup_path@)),
    {
        let base = base_name_str(backup_path);
        join_path(self.project_root.as_str(), base.as_str())
    }

    /// Move one backed-up item back to its reconstructed location.
    fn restore_path(&self, backup_path: &str, original_path: &str) -> (r: Result<(), String>) {
        if !path_exists(backup_path) {
            let mut m = "Backup path does not exist: ".to_owned();
            m.append(backup_path);
            return Err(m);
        }
        if is_dir(backup_path) {
            move_dir_path(backup_path, original_path)
        } else {
            move_file_path(backup_path, original_path)
        }
    }

    /// Attempt one item's restore. Exactly one record is appended: the
    /// reconstructed location on success, a failure record naming that same
    /// location on failure. Lists of reconstructed locations stay so.
    fn restore_one(
        &self,
        backup_path: &str,
        restored: &mut Vec<String>,
        failed: &mut Vec<FailedEntry>,
    )
        requires
            forall|j: int| 0 <= j < old(restored)@.len()
                ==> reconstructed_at(self.project_root@, #[trigger] old(restored).deep_view()[j]),
            forall|j: int| 0 <= j < old(failed)@.len()
                ==> reconstructed_at(
                    self.project_root@,
                    (#[trigger] old(failed).deep_view()[j]).path,
                ),
        ensures
            ({
                let target = joined(self.project_root@, base_name(backup_path@));
                ||| (final(restored).deep_view() == old(restored).deep_view().push(target)
                    && final(failed)@ == old(failed)@)
                ||| (final(restored)@ == old(restored)@ && exists|err: Seq<char>|
                    final(failed).deep_view() == old(failed).deep_view().push(
                        FailedEntryView { path: target, error: err },
                    ))
            }),
            forall|j: int| 0 <= j < final(restored)@.len()
                ==> reconstructed_at(self.project_root@, #[trigger] final(restored).deep_view()[j]),
            forall|j: int| 0 <= j < final(failed)@.len()
                ==> reconstructed_at(
                    self.project_root@,
                    (#[trigger] final(failed).deep_view()[j]).path,
                ),
    {
        let ghost target = joined(self.project_root@, base_name(backup_path@));
        proof {
            assert(reconstructed_at(self.project_root@, target)) by {
                assert(target == joined(self.project_root@, base_name(backup_path@)));
            }
        }
        let original_path = self.get_original_path_from_backup(backup_path);
        match self.restore_path(backup_path, original_path.as_str()) {
            Ok(()) => {
                let ghost prev = restored.deep_view();
                restored.push(original_path);
                proof {
                    assert(restored.deep_view() =~~= prev.push(target));
                    assert forall|j: int| 0 <= j < restored@.len() implies reconstructed_at(
                        self.project_root@,
                        #[trigger] restored.deep_view()[j],
                    ) by {
                        if j < restored@.len() - 1 {
                            assert(restored.deep_view()[j] == prev[j]);
                        } else {
                            assert(restored.deep_view()[j] == target);
                        }
                    }
                }
            },
            Err(error) => {
                let record = FailedEntry { path: original_path, error };
                let ghost prev = failed.deep_view();
                let ghost rv = record.deep_view();
                failed.push(record);
                proof {
                    assert(failed.deep_view() =~~= prev.push(rv));
                    assert(rv.path == target);
                    assert(exists|err: Seq<char>|
                        failed.deep_view() == prev.push(
                            FailedEntryView { path: target, error: err },
                        )) by {
                        assert(failed.deep_view() == prev.push(
                            FailedEntryView { path: target, error: rv.error },
                        ));
                    }
                    assert forall|j: int| 0 <= j < failed@.len() implies reconstructed_at(
                        self.project_root@,
                        (#[trigger] failed.deep_view()[j]).path,
                    ) by {
                        if j < failed@.len() - 1 {
                            assert(failed.deep_view()[j] == prev[j]);
                        } else {
                            assert(failed.deep_view()[j] == rv);
                        }
                    }
                }
            },
        }
    }

    /// Restore every top-level item of one backup directory, recording the
    /// outcome per item. Every recorded location — restored or failed — is
    /// reconstructed at the project root from an item's base name. The call
    /// fails only when the backup directory cannot be enumerated.
    pub fn restore_from_backup(&self, backup_dir: &str) -> (r: Result<RestoreResult, CacheError>)
        ensures
            match r {
                Ok(d) => {
                    &&& d.backup_dir@ == backup_dir@
                    &&& forall|j: int| 0 <= j < d.restored@.len()
                        ==> reconstructed_at(
                            self.project_root@,
                            #[trigger] d.restored.deep_view()[j],
                        )
                    &&& forall|j: int| 0 <= j < d.failed@.len()
                        ==> reconstructed_at(
                            self.project_root@,
                            (#[trigger] d.failed.deep_view()[j]).path,
                        )
                },
                Err(e) => e is BackupRootFailed,
            },
    {
        let (dirs, files) = match list_dir(backup_dir) {
            Ok(c) => c,
            Err(m) => {
                return Err(CacheError::BackupRootFailed(m));
            },
        };
        let mut restored: Vec<String> = Vec::new();
        let mut failed: Vec<FailedEntry> = Vec::new();
        let nd = dirs.len();
        for i in 0..nd
            invariant
                nd == dirs@.len(),
                forall|j: int| 0 <= j < restored@.len()
                    ==> reconstructed_at(
                        self.project_root@,
                        #[trigger] restored.deep_view()[j],
                    ),
                forall|j: int| 0 <= j < failed@.len()
                    ==> reconstructed_at(
                        self.project_root@,
                        (#[trigger] failed.deep_view()[j]).path,
                    ),
        {
            // The listing names the backup directory itself among the
            // directories; only its children are items to restore.
            if !str_eq(dirs[i].as_str(), backup_dir) {
                self.restore_one(dirs[i].as_str(), &mut restored, &mut failed);
            }
        }
        let nf = files.len();
        for i in 0..nf
            invariant
                nf == files@.len(),
                forall|j: int| 0 <= j < restored@.len()
                    ==> reconstructed_at(
                        self.project_root@,
                        #[trigger] restored.deep_view()[j],
                    ),
                forall|j: int| 0 <= j < failed@.len()
                    ==> reconstructed_at(
                        self.project_root@,
                        (#[trigger] failed.deep_view()[j]).path,
                    ),
        {
            self.restore_one(files[i].as_str(), &mut restored, &mut failed);
        }
        Ok(RestoreResult { restored, failed, backup_dir: backup_dir.to_owned() })
    }

    /// Restore from the most recently modified backup directory under the
    /// backup root, chosen by the contracted selector below. With no backup
    /// root or no backup directories inside it, the caller explicitly asked
    /// to restore nothing: a hard error, never a silent no-op.
    pub fn restore_last_backup(&self) -> (r: Result<RestoreResult, CacheError>)
        ensures
            match r {
                Ok(d) => {
                    &&& reconstructed_at(
                        joined(self.project_root@, ".cachekill-backup"@),
                        d.backup_dir@,
                    )
                    &&& forall|j: int| 0 <= j < d.restored@.len()
                        ==> reconstructed_at(
                            self.project_root@,
                            #[trigger] d.restored.deep_view()[j],
                        )
                    &&& forall|j: int| 0 <= j < d.failed@.len()
                        ==> reconstructed_at(
                            self.project_root@,
                            (#[trigger] d.failed.deep_view()[j]).path,
                        )
                },
                Err(e) => e is NoBackupFound || e is BackupRootFailed,
            },
    {
        let backup_dir = get_backup_dir(self.project_root.as_str());
        if !path_exists(backup_dir.as_str()) {
            return Err(CacheError::NoBackupFound);
        }
        let (dirs, _files) = match list_dir(backup_dir.as_str()) {
            Ok(c) => c,
            Err(m) => {
                return Err(CacheError::BackupRootFailed(m));
            },
        };
        // Gather the candidate backup directories with their modification
        // times, each re-anchored under the backup root by its base name.
        let mut candidates: Vec<(String, i64)> = Vec::new();
        let nd = dirs.len();
        for i in 0..nd
            invariant
                nd == dirs@.len(),
                forall|j: int| 0 <= j < candidates@.len()
                    ==> reconstructed_at(backup_dir@, (#[trigger] candidates.deep_view()[j]).0),
        {
            if !str_eq(dirs[i].as_str(), backup_dir.as_str()) {
                let child = join_path(backup_dir.as_str(), base_name_str(dirs[i].as_str()).as_str());
                if is_dir(child.as_str()) {
                    match mtime_unix(child.as_str()) {
                        Ok(mt) => {
                            let ghost prev = candidates.deep_view();
                            let ghost cv = (child@, mt);
                            proof {
                                assert(reconstructed_at(backup_dir@, child@)) by {
                                    assert(child@ == joined(
                                        backup_dir@,
                                        base_name(dirs@[i as int]@),
                                    ));
                                }
                            }
                            candidates.push((child, mt));
                            proof {
                                assert(candidates.deep_view() =~~= prev.push(cv));
                                assert forall|j: int| 0 <= j < candidates@.len()
                                    implies reconstructed_at(
                                    backup_dir@,
                                    (#[trigger] candidates.deep_view()[j]).0,
                                ) by {
                                    if j < candidates@.len() - 1 {
                                        assert(candidates.deep_view()[j] == prev[j]);
                                    } else {
                                        assert(candidates.deep_view()[j] == cv);
                                    }
                                }
                            }
                        },
                        Err(_) => {},
                    }
                }
            }
        }
        match select_newest(&candidates) {
            Some(ix) => {
                proof {
                    assert(candidates@[ix as int]@ == candidates.deep_view()[ix as int]);
                    assert(backup_dir@ == joined(self.project_root@, ".cachekill-backup"@));
                }
                self.restore_from_backup(candidates[ix].0.as_str())
            },
            None => Err(CacheError::NoBackupFound),
        }
    }

    /// Remove the backup directories whose modification time lies before
    /// the cutoff — the contracted `select_old` decides which — reporting
    /// the bytes freed (summed with saturation). A missing backup root
    /// means nothing to clean; an unreadable root or a failing removal
    /// fails the call, as there is no meaningful partial result.
    pub fn clean_old_backups(&self, days: u32, now: i64) -> (r: Result<CleanupResult, CacheError>)
        ensures
            match r {
                Ok(d) => forall|j: int| 0 <= j < d.removed@.len()
                    ==> reconstructed_at(
                        joined(self.project_root@, ".cachekill-backup"@),
                        #[trigger] d.removed.deep_view()[j],
                    ),
                Err(e) => e is BackupRootFailed || e is RemoveFailed,
            },
    {
        let backup_dir = get_backup_dir(self.project_root.as_str());
        if !path_exists(backup_dir.as_str()) {
            return Ok(CleanupResult { removed: Vec::new(), total_freed: 0 });
        }
        let (dirs, _files) = match list_dir(backup_dir.as_str()) {
            Ok(c) => c,
            Err(m) => {
                return Err(CacheError::BackupRootFailed(m));
            },
        };
        // Gather the candidate backup directories with their modification
        // times; an unreadable child fails the call, as the original pass
        // over the root would.
        let mut candidates: Vec<(String, i64)> = Vec::new();
        let nd = dirs.len();
        for i in 0..nd
            invariant
                nd == dirs@.len(),
                forall|j: int| 0 <= j < candidates@.len()
                    ==> reconstructed_at(backup_dir@, (#[trigger] candidates.deep_view()[j]).0),
        {
            if !str_eq(dirs[i].as_str(), backup_dir.as_str()) {
                let child = join_path(backup_dir.as_str(), base_name_str(dirs[i].as_str()).as_str());
                if is_dir(child.as_str()) {
                    match mtime_unix(child.as_str()) {
                        Ok(mt) => {
                            let ghost prev = candidates.deep_view();
                            let ghost cv = (child@, mt);
                            proof {
                                assert(reconstructed_at(backup_dir@, child@)) by {
                                    assert(child@ == joined(
                                        backup_dir@,
                                        base_name(dirs@[i as int]@),
                                    ));
                                }
                            }
                            candidates.push((child, mt));
                            proof {
                                assert(candidates.deep_view() =~~= prev.push(cv));
                                assert forall|j: int| 0 <= j < candidates@.len()
                                    implies reconstructed_at(
                                    backup_dir@,
                                    (#[trigger] candidates.deep_view()[j]).0,
                                ) by {
                                    if j < candidates@.len() - 1 {
                                        assert(candidates.deep_view()[j] == prev[j]);
                                    } else {
                                        assert(candidates.deep_view()[j] == cv);
                                    }
                                }
                            }
                        },
                        Err(m) => {
                            return Err(CacheError::BackupRootFailed(m));
                        },
                    }
                }
            }
        }
        let ghost cds = candidates.deep_view();
        let to_remove = select_old(&candidates, now, days);
        let mut removed: Vec<String> = Vec::new();
        let mut total_freed: u64 = 0;
        let nr = to_remove.len();
        proof {
            lemma_selected_reconstructed(cds, now, days, backup_dir@, to_remove.deep_view());
        }
        for i in 0..nr
            invariant
                nr == to_remove@.len(),
                to_remove.deep_view() == cds.filter(
                    |c: (Seq<char>, i64)| spec_is_old(c.1, now, days),
                ).map_values(|c: (Seq<char>, i64)| c.0),
                forall|j: int| 0 <= j < to_remove@.len()
                    ==> reconstructed_at(backup_dir@, #[trigger] to_remove.deep_view()[j]),
                forall|j: int| 0 <= j < removed@.len()
                    ==> reconstructed_at(backup_dir@, #[trigger] removed.deep_view()[j]),
        {
            let size = match get_size(to_remove[i].as_str()) {
                Ok(sz) => sz,
                Err(_) => 0,
            };
            match remove_dir_path(to_remove[i].as_str()) {
                Ok(()) => {
                    let ghost prev = removed.deep_view();
                    let ghost pv = to_remove@[i as int]@;
                    removed.push(to_remove[i].clone());
                    proof {
                        assert(removed.deep_view() =~~= prev.push(pv));
                        assert(pv == to_remove.deep_view()[i as int]);
                        assert forall|j: int| 0 <= j < removed@.len() implies reconstructed_at(
                            backup_dir@,
                            #[trigger] removed.deep_view()[j],
                        ) by {
                            if j < removed@.len() - 1 {
                                assert(removed.deep_view()[j] == prev[j]);
                            } else {
                                assert(removed.deep_view()[j] == pv);
                            }
                        }
                    }
                    if total_freed > u64::MAX - size {
                        total_freed = u64::MAX;
                    } else {
                        total_freed = total_freed + size;
                    }
                },
                Err(m) => {
                    return Err(CacheError::RemoveFailed(m));
                },
            }
        }
        proof {
            assert(backup_dir@ == joined(self.project_root@, ".cachekill-backup"@));
        }
        Ok(CleanupResult { removed, total_freed })
    }
}

/// Pick the index of a candidate whose modification time no other candidate
/// strictly exceeds; nothing to pick only from an empty list.
fn select_newest(pairs: &Vec<(String, i64)>) -> (r: Option<usize>)
    ensures
        match r {
            Some(ix) => ix < pairs@.len() && forall|k: int|
                0 <= k < pairs@.len() ==> (#[trigger] pairs@[k]).1 <= pairs@[ix as int].1,
            None => pairs@.len() == 0,
        },
{
    let n = pairs.len();
    if n == 0 {
        return None;
    }
    let mut best: usize = 0;
    let mut i: usize = 1;
    while i < n
        invariant
            n == pairs@.len(),
            best < i <= n,
            forall|k: int| 0 <= k < i ==> (#[trigger] pairs@[k]).1 <= pairs@[best as int].1,
        decreases n - i,
    {
        if pairs[i].1 > pairs[best].1 {
            best = i;
        }
        i = i + 1;
    }
    Some(best)
}

/// Whether a backup's modification time lies strictly before the cutoff of
/// `days` days before `now`.
pub fn is_old_backup(mtime: i64, now: i64, days: u32) -> (r: bool)
    ensures
        r == spec_is_old(mtime, now, days),
{
    (mtime as i128) < now as i128 - (days as i128) * 86400
}

/// The paths among the candidates whose modification time lies before the
/// cutoff: exactly the old ones, in order.
fn select_old(pairs: &Vec<(String, i64)>, now: i64, days: u32) -> (r: Vec<String>)
    ensures
        r.deep_view() == pairs.deep_view().filter(
            |c: (Seq<char>, i64)| spec_is_old(c.1, now, days),
        ).map_values(|c: (Seq<char>, i64)| c.0),
{
    let ghost cds = pairs.deep_view();
    let ghost pred = |c: (Seq<char>, i64)| spec_is_old(c.1, now, days);
    let ghost proj = |c: (Seq<char>, i64)| c.0;
    let mut r: Vec<String> = Vec::new();
    let n = pairs.len();
    proof {
        reveal(Seq::filter);
        assert(cds.take(0).filter(pred) =~= Seq::<(Seq<char>, i64)>::empty());
        assert(r.deep_view() =~= cds.take(0).filter(pred).map_values(proj));
    }
    for i in 0..n
        invariant
            n == pairs@.len(),
            cds == pairs.deep_view(),
            pred == (|c: (Seq<char>, i64)| spec_is_old(c.1, now, days)),
            proj == (|c: (Seq<char>, i64)| c.0),
            r.deep_view() == cds.take(i as int).filter(pred).map_values(proj),
    {
        proof {
            reveal(Seq::filter);
            assert(cds.take(i + 1).drop_last() =~= cds.take(i as int));
            assert(cds.take(i + 1).last() == cds[i as int]);
            assert(pairs@[i as int]@ == cds[i as int]);
        }
        if is_old_backup(pairs[i].1, now, days) {
            let ghost prev = r.deep_view();
            let item = pairs[i].0.clone();
            let ghost iv = item@;
            r.push(item);
            proof {
                assert(r.deep_view() =~~= prev.push(iv));
                assert(iv == cds[i as int].0);
                assert(cds.take(i + 1).filter(pred)
                    == cds.take(i as int).filter(pred).push(cds[i as int]));
                assert(r.deep_view() =~~= cds.take(i + 1).filter(pred).map_values(proj));
            }
        } else {
            proof {
                assert(cds.take(i + 1).filter(pred) == cds.take(i as int).filter(pred));
            }
        }
    }
    proof {
        assert(cds.take(n as int) =~= cds);
    }
    r
}

/// Every path the cutoff selects from reconstructed candidates is itself a
/// reconstructed child of the backup root.
proof fn lemma_selected_reconstructed(
    cds: Seq<(Seq<char>, i64)>,
    now: i64,
    days: u32,
    root: Seq<char>,
    sel: Seq<Seq<char>>,
)
    requires
        forall|j: int| 0 <= j < cds.len() ==> reconstructed_at(root, (#[trigger] cds[j]).0),
        sel == cds.filter(|c: (Seq<char>, i64)| spec_is_old(c.1, now, days)).map_values(
            |c: (Seq<char>, i64)| c.0,
        ),
    ensures
        forall|j: int| 0 <= j < sel.len() ==> reconstructed_at(root, #[trigger] sel[j]),
    decreases cds.len(),
{
    reveal(Seq::filter);
    let pred = |c: (Seq<char>, i64)| spec_is_old(c.1, now, days);
    let proj = |c: (Seq<char>, i64)| c.0;
    if cds.len() > 0 {
        let prev = cds.drop_last().filter(pred).map_values(proj);
        lemma_selected_reconstructed(cds.drop_last(), now, days, root, prev);
        if pred(cds.last()) {
            assert(cds.filter(pred) == cds.drop_last().filter(pred).push(cds.last()));
            assert(sel =~= prev.push(cds.last().0));
            assert(reconstructed_at(root, cds.last().0));
        } else {
            assert(cds.filter(pred) == cds.drop_last().filter(pred));
            assert(sel =~= prev);
        }
        assert forall|j: int| 0 <= j < sel.len() implies reconstructed_at(
            root,
            #[trigger] sel[j],
        ) by {
            if pred(cds.last()) && j == sel.len() - 1 {
                assert(sel[j] == cds.last().0);
            } else {
                assert(sel[j] == prev[j]);
            }
        }
    } else {
        assert(sel =~= Seq::<Seq<char>>::empty());
    }
}

/// Dry-run accounting. Every entry lands in exactly one bucket, so the
/// bucket counts add up to the input count, and the deletion and backup
/// bytes together are the total bytes of all bucketed entries less the
/// skipped bytes.
pub proof fn lemma_dry_run_accounting(s: Seq<EntryView>)
    ensures
        s.filter(|e: EntryView| is_delete_planned(e)).len() + s.filter(
            |e: EntryView| is_backup_planned(e),
        ).len() + s.filter(|e: EntryView| is_skip_planned(e)).len() == s.len(),
        sum_sizes(s.filter(|e: EntryView| is_delete_planned(e))) + sum_sizes(
            s.filter(|e: EntryView| is_backup_planned(e)),
        ) == sum_sizes(s) - sum_sizes(s.filter(|e: EntryView| is_skip_planned(e))),
    decreases s.len(),
{
    lemma_dry_run_partition(s);
    reveal(Seq::filter);
    let pd = |e: EntryView| is_delete_planned(e);
    let pb = |e: EntryView| is_backup_planned(e);
    let ps = |e: EntryView| is_skip_planned(e);
    if s.len() > 0 {
        lemma_dry_run_accounting(s.drop_last());
        let e = s.last();
        let fd = s.drop_last().filter(pd);
        let fb = s.drop_last().filter(pb);
        let fs = s.drop_last().filter(ps);
        if pd(e) {
            assert(s.filter(pd) == fd.push(e));
            assert(fd.push(e).drop_last() =~= fd);
            assert(sum_sizes(fd.push(e)) == sum_sizes(fd) + e.size_bytes);
        }
        if pb(e) {
            assert(s.filter(pb) == fb.push(e));
            assert(fb.push(e).drop_last() =~= fb);
            assert(sum_sizes(fb.push(e)) == sum_sizes(fb) + e.size_bytes);
        }
        if ps(e) {
            assert(s.filter(ps) == fs.push(e));
            assert(fs.push(e).drop_last() =~= fs);
            assert(sum_sizes(fs.push(e)) == sum_sizes(fs) + e.size_bytes);
        }
        match e.planned_action {
            Some(PlannedAction::Delete) => {
                assert(pd(e) && !pb(e) && !ps(e));
            },
            Some(PlannedAction::Backup) => {
                assert(!pd(e) && pb(e) && !ps(e));
            },
            _ => {
                assert(!pd(e) && !pb(e) && ps(e));
            },
        }
    }
}

/// The three dispositions partition any entry sequence: the bucket counts
/// add up to the input count, whatever was planned.
pub proof fn lemma_dry_run_partition(s: Seq<EntryView>)
    ensures
        s.filter(|e: EntryView| is_delete_planned(e)).len() + s.filter(
            |e: EntryView| is_backup_planned(e),
        ).len() + s.filter(|e: EntryView| is_skip_planned(e)).len() == s.len(),
    decreases s.len(),
{
    reveal(Seq::filter);
    let pd = |e: EntryView| is_delete_planned(e);
    let pb = |e: EntryView| is_backup_planned(e);
    let ps = |e: EntryView| is_skip_planned(e);
    if s.len() > 0 {
        lemma_dry_run_partition(s.drop_last());
        let e = s.last();
        assert(s.filter(pd) == if pd(e) {
            s.drop_last().filter(pd).push(e)
        } else {
            s.drop_last().filter(pd)
        });
        assert(s.filter(pb) == if pb(e) {
            s.drop_last().filter(pb).push(e)
        } else {
            s.drop_last().filter(pb)
        });
        assert(s.filter(ps) == if ps(e) {
            s.drop_last().filter(ps).push(e)
        } else {
            s.drop_last().filter(ps)
        });
        match e.planned_action {
            Some(PlannedAction::Delete) => {
                assert(pd(e) && !pb(e) && !ps(e));
            },
            Some(PlannedAction::Backup) => {
                assert(!pd(e) && pb(e) && !ps(e));
            },
            _ => {
                assert(!pd(e) && !pb(e) && ps(e));
            },
        }
    }
}

/// Name-level backup round trip: an item that lived directly under the
/// project root, moved into a backup directory under its base name, has its
/// restore target reconstructed from that base name alone — and that target
/// is the original location again.
pub proof fn lemma_restore_target_round_trip(
    root: Seq<char>,
    name: Seq<char>,
    backup_dir: Seq<char>,
)
    requires
        forall|i: int| 0 <= i < name.len() ==> name[i] != '/',
    ensures
        joined(root, base_name(joined(backup_dir, base_name(joined(root, name))))) == joined(
            root,
            name,
        ),
{
    crate::text::lemma_base_name_of_joined(root, name);
    crate::text::lemma_base_name_of_joined(backup_dir, name);
}

proof fn lemma_sum_backup_nonneg(s: Seq<BackupEntryView>)
    ensures
        sum_backup_sizes(s) >= 0,
    decreases s.len(),
{
    if s.len() > 0 {
        lemma_sum_backup_nonneg(s.drop_last());
    }
}

} // verus!
