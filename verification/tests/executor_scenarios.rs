use cachekill::actions::ActionExecutor;
use cachekill::cache_entry::{CacheEntry, CacheKind, LanguageFilter, PlannedAction};
use cachekill::config::MergedConfig;
use cachekill::discover::{DiscoveryResult, ProjectType};
use cachekill::errors::CacheError;
use cachekill::inspect::CacheInspector;
use cachekill::util;

fn now_unix() -> i64 {
    chrono::Utc::now().timestamp()
}

fn test_config() -> MergedConfig {
    MergedConfig {
        list: false,
        dry_run: false,
        force: false,
        json: false,
        lang: LanguageFilter::Auto,
        paths: vec![],
        exclude: vec![],
        stale_days: 14,
        safe_delete: true,
        backup_dir: ".cachekill-backup".to_string(),
        docker: false,
        npx: false,
        restore_last: false,
        all: false,
        js_pm: false,
    }
}

fn tmp_root() -> (tempfile::TempDir, String) {
    let dir = tempfile::TempDir::new().unwrap();
    let root = dir.path().to_string_lossy().to_string();
    (dir, root)
}

fn write_file(path: &str, content: &str) {
    fs_extra::file::write_all(path, content).unwrap();
}

#[test]
fn test_safe_delete() {
    let (_guard, root) = tmp_root();
    let executor = ActionExecutor::new(test_config(), root.clone());

    let test_file = format!("{}/test.txt", root);
    write_file(&test_file, "test content");

    let entries = vec![CacheEntry::new(
        test_file.clone(),
        CacheKind::JavaScript,
        12,
        now_unix(),
        false,
    )
    .with_planned_action(PlannedAction::Backup)];

    let result = executor.safe_delete(&entries, now_unix()).unwrap();
    assert_eq!(result.backed_up.len(), 1);
    assert_eq!(result.total_size, 12);
    assert!(!util::path_exists(&test_file));
}

#[test]
fn test_hard_delete() {
    let (_guard, root) = tmp_root();
    let executor = ActionExecutor::new(test_config(), root.clone());

    let test_file = format!("{}/test.txt", root);
    write_file(&test_file, "test content");

    let entries = vec![CacheEntry::new(
        test_file.clone(),
        CacheKind::JavaScript,
        12,
        now_unix(),
        false,
    )
    .with_planned_action(PlannedAction::Delete)];

    let result = executor.hard_delete(&entries).unwrap();
    assert_eq!(result.deleted.len(), 1);
    assert_eq!(result.total_size, 12);
    assert!(!util::path_exists(&test_file));
}

#[test]
fn test_hard_delete_idempotent() {
    // Deleting the same entry set twice reports success both times: an
    // already absent source counts as removed.
    let (_guard, root) = tmp_root();
    let executor = ActionExecutor::new(test_config(), root.clone());

    let test_file = format!("{}/gone.txt", root);
    write_file(&test_file, "bytes");
    let entries = vec![CacheEntry::new(
        test_file.clone(),
        CacheKind::Generic,
        5,
        now_unix(),
        false,
    )
    .with_planned_action(PlannedAction::Delete)];

    let first = executor.hard_delete(&entries).unwrap();
    assert_eq!(first.deleted.len(), 1);
    assert_eq!(first.failed.len(), 0);

    let second = executor.hard_delete(&entries).unwrap();
    assert_eq!(second.deleted.len(), 1);
    assert_eq!(second.failed.len(), 0);
}

#[test]
fn test_safe_delete_partial_failure_isolated() {
    // Three backup candidates, one source vanished before the move: exactly
    // one failure, two successes, never a batch abort.
    let (_guard, root) = tmp_root();
    let executor = ActionExecutor::new(test_config(), root.clone());
    let now = now_unix();

    let a = format!("{}/a.txt", root);
    let b = format!("{}/b.txt", root);
    let missing = format!("{}/missing.txt", root);
    write_file(&a, "aaa");
    write_file(&b, "bbb");

    let entries = vec![
        CacheEntry::new(a, CacheKind::Generic, 3, now, false)
            .with_planned_action(PlannedAction::Backup),
        CacheEntry::new(missing, CacheKind::Generic, 3, now, false)
            .with_planned_action(PlannedAction::Backup),
        CacheEntry::new(b, CacheKind::Generic, 3, now, false)
            .with_planned_action(PlannedAction::Backup),
    ];

    let result = executor.safe_delete(&entries, now).unwrap();
    assert_eq!(result.failed.len(), 1);
    assert_eq!(result.backed_up.len(), 2);
    assert!(result.failed[0].path.ends_with("missing.txt"));
}

#[test]
fn test_backup_restore_round_trip() {
    // Backing up entries and restoring that backup directory recreates the
    // original base names at the original parent, contents intact.
    let (_guard, root) = tmp_root();
    let executor = ActionExecutor::new(test_config(), root.clone());
    let now = now_unix();

    let f1 = format!("{}/alpha.txt", root);
    let f2 = format!("{}/beta.txt", root);
    write_file(&f1, "alpha says hello");
    write_file(&f2, "beta says hello");
    let sub = format!("{}/node_modules", root);
    fs_extra::dir::create_all(format!("{}/pkg", sub), false).unwrap();
    write_file(&format!("{}/pkg/index.js", sub), "module.exports = 1;");

    let entries = vec![
        CacheEntry::new(f1.clone(), CacheKind::Generic, 16, now, false)
            .with_planned_action(PlannedAction::Backup),
        CacheEntry::new(f2.clone(), CacheKind::Generic, 15, now, false)
            .with_planned_action(PlannedAction::Backup),
        CacheEntry::new(sub.clone(), CacheKind::JavaScript, 19, now, false)
            .with_planned_action(PlannedAction::Backup),
    ];

    let result = executor.safe_delete(&entries, now).unwrap();
    assert_eq!(result.backed_up.len(), 3);
    assert!(!util::path_exists(&f1));
    assert!(!util::path_exists(&sub));

    let restore = executor.restore_from_backup(&result.backup_dir).unwrap();
    assert_eq!(restore.failed.len(), 0);
    assert_eq!(restore.restored.len(), 3);

    assert_eq!(fs_extra::file::read_to_string(&f1).unwrap(), "alpha says hello");
    assert_eq!(fs_extra::file::read_to_string(&f2).unwrap(), "beta says hello");
    assert_eq!(
        fs_extra::file::read_to_string(format!("{}/pkg/index.js", sub)).unwrap(),
        "module.exports = 1;"
    );
}

#[test]
fn test_restore_last_backup_picks_one() {
    let (_guard, root) = tmp_root();
    let executor = ActionExecutor::new(test_config(), root.clone());
    let now = now_unix();

    let f1 = format!("{}/gamma.txt", root);
    write_file(&f1, "gamma");
    let entries = vec![CacheEntry::new(f1.clone(), CacheKind::Generic, 5, now, false)
        .with_planned_action(PlannedAction::Backup)];
    executor.safe_delete(&entries, now).unwrap();
    assert!(!util::path_exists(&f1));

    let restore = executor.restore_last_backup().unwrap();
    assert_eq!(restore.restored.len(), 1);
    assert!(util::path_exists(&f1));
}

#[test]
fn test_restore_without_backup_fails_hard() {
    let (_guard, root) = tmp_root();
    let executor = ActionExecutor::new(test_config(), root);
    let r = executor.restore_last_backup();
    assert!(matches!(r, Err(CacheError::NoBackupFound)));
}

#[test]
fn test_clean_old_backups_spares_fresh_ones() {
    let (_guard, root) = tmp_root();
    let executor = ActionExecutor::new(test_config(), root.clone());
    let now = now_unix();

    let f1 = format!("{}/delta.txt", root);
    write_file(&f1, "delta");
    let entries = vec![CacheEntry::new(f1, CacheKind::Generic, 5, now, false)
        .with_planned_action(PlannedAction::Backup)];
    executor.safe_delete(&entries, now).unwrap();

    // A thirty-day cutoff leaves a just-made backup alone.
    let result = executor.clean_old_backups(30, now).unwrap();
    assert_eq!(result.removed.len(), 0);

    // A cutoff in the future removes it and reports the freed bytes.
    let result = executor
        .clean_old_backups(0, now + 7 * 86400)
        .unwrap();
    assert_eq!(result.removed.len(), 1);
    assert!(result.total_freed >= 5);
}

#[test]
fn test_inspection_fails_on_vanished_path() {
    let (_guard, root) = tmp_root();
    let inspector = CacheInspector::new(test_config());
    let missing = format!("{}/not-there", root);
    let r = inspector.inspect_caches(&vec![missing], now_unix());
    assert!(matches!(r, Err(CacheError::PathNotFound(_))));
}

#[test]
fn test_project_type_detection() {
    let (_guard, root) = tmp_root();

    write_file(&format!("{}/package.json", root), "{}");
    assert_eq!(ProjectType::detect(&root).unwrap(), ProjectType::JavaScript);

    write_file(&format!("{}/requirements.txt", root), "requests");
    assert_eq!(ProjectType::detect(&root).unwrap(), ProjectType::Mixed);

    write_file(&format!("{}/Cargo.toml", root), "[package]");
    assert_eq!(ProjectType::detect(&root).unwrap(), ProjectType::Mixed);
}

#[test]
fn test_discovery_result() {
    let (_guard, root) = tmp_root();

    write_file(&format!("{}/package.json", root), "{}");
    fs_extra::dir::create_all(format!("{}/node_modules", root), false).unwrap();
    fs_extra::dir::create_all(format!("{}/dist", root), false).unwrap();

    let result = DiscoveryResult::discover(&test_config(), &root).unwrap();
    assert_eq!(result.project_type, ProjectType::JavaScript);
    assert!(!result.cache_entries.is_empty());
}

#[test]
fn test_pipeline_scenario() {
    // A project root holding a JavaScript store and an interpreter cache,
    // no marker files: discovery finds both, inspection classifies and
    // plans them, and the dry run accounts for every byte.
    let (_guard, root) = tmp_root();
    let now = now_unix();

    fs_extra::dir::create_all(format!("{}/node_modules", root), false).unwrap();
    write_file(
        &format!("{}/node_modules/blob.bin", root),
        &"x".repeat(1024),
    );
    fs_extra::dir::create_all(format!("{}/__pycache__", root), false).unwrap();
    write_file(&format!("{}/__pycache__/mod.pyc", root), &"y".repeat(512));

    let config = test_config();
    let discovery = DiscoveryResult::discover(&config, &root).unwrap();
    assert_eq!(discovery.project_type, ProjectType::Unknown);
    let nm = format!("{}/node_modules", root);
    let pc = format!("{}/__pycache__", root);
    assert!(discovery.cache_entries.contains(&nm));
    assert!(discovery.cache_entries.contains(&pc));

    let inspector = CacheInspector::new(config.clone());
    let entries = inspector
        .inspect_caches(&vec![nm.clone(), pc.clone()], now)
        .unwrap();
    assert_eq!(entries[0].kind, CacheKind::JavaScript);
    assert_eq!(entries[0].size_bytes, 1024);
    assert!(!entries[0].stale);
    assert_eq!(entries[0].planned_action, Some(PlannedAction::Backup));
    assert_eq!(entries[1].kind, CacheKind::Python);
    assert_eq!(entries[1].size_bytes, 512);
    assert_eq!(entries[1].planned_action, Some(PlannedAction::Backup));

    let executor = ActionExecutor::new(config, root.clone());
    let dry = executor.dry_run(&entries).unwrap();
    assert_eq!(dry.total_size, 1536);
    assert_eq!(dry.to_backup.len(), 2);
    assert_eq!(dry.to_delete.len(), 0);
    assert_eq!(
        dry.total_count,
        dry.to_backup.len() + dry.to_delete.len() + dry.to_skip.len()
    );
}

#[test]
fn test_discovery_never_double_counts() {
    // The ecosystem probe and a user-supplied glob both land on the same
    // store; it is listed once, so its bytes are counted once.
    let (_guard, root) = tmp_root();
    fs_extra::dir::create_all(format!("{}/node_modules", root), false).unwrap();
    write_file(&format!("{}/node_modules/blob.bin", root), &"x".repeat(1024));

    let mut config = test_config();
    config.paths = vec!["**/node_modules".to_string()];

    let discovery = DiscoveryResult::discover(&config, &root).unwrap();
    let nm = format!("{}/node_modules", root);
    let hits = discovery
        .cache_entries
        .iter()
        .filter(|p| **p == nm)
        .count();
    assert_eq!(hits, 1);

    let now = now_unix();
    let inspector = CacheInspector::new(config.clone());
    let entries = inspector.inspect_caches(&discovery.cache_entries, now).unwrap();
    let executor = ActionExecutor::new(config, root.clone());
    let dry = executor.dry_run(&entries).unwrap();
    let nm_bytes: u64 = dry
        .to_backup
        .iter()
        .filter(|e| e.path == nm)
        .map(|e| e.size_bytes)
        .sum();
    assert_eq!(nm_bytes, 1024);
}

#[test]
fn test_stale_disposition_is_informational() {
    // A thirty-day-old entry is stale, yet the generic planner still
    // proposes the same action as for a fresh one.
    let config = test_config();
    let inspector = CacheInspector::new(config);
    let now = now_unix();
    let old = now - 30 * 86400;
    assert!(inspector.is_stale(old, now));
    let entry = CacheEntry::new("__pycache__".to_string(), CacheKind::Python, 512, old, true);
    assert_eq!(inspector.determine_planned_action(&entry), PlannedAction::Backup);
}

#[test]
fn test_path_exists() {
    let (_guard, root) = tmp_root();
    let test_file = format!("{}/test.txt", root);
    write_file(&test_file, "test");

    assert!(util::path_exists(&test_file));
    assert!(!util::path_exists(&format!("{}/nonexistent.txt", root)));
}

#[test]
fn test_get_size() {
    let (_guard, root) = tmp_root();
    let test_file = format!("{}/test.txt", root);
    write_file(&test_file, "test content");

    let size = util::get_size(&test_file).unwrap();
    assert_eq!(size, 12);

    write_file(&format!("{}/more.txt", root), "abc");
    let dir_size = util::get_size(&root).unwrap();
    assert_eq!(dir_size, 15);
}

#[test]
fn test_is_within_project() {
    let (_guard, root) = tmp_root();
    let sub_dir = format!("{}/subdir", root);
    fs_extra::dir::create_all(&sub_dir, false).unwrap();
    let sub_path = format!("{}/file.txt", sub_dir);
    write_file(&sub_path, "test");

    assert!(util::is_within_project(&sub_path, &root));
    assert!(!util::is_within_project("/tmp", &root));
}
