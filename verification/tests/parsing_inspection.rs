use cachekill::cache_entry::{CacheEntry, CacheKind, LanguageFilter, PlannedAction};
use cachekill::classify::classify;
use cachekill::config::MergedConfig;
use cachekill::discover::ProjectType;
use cachekill::docker::{DockerCacheManager, DockerStats, DockerSystemInfo};
use cachekill::hf::HfCacheManager;
use cachekill::inspect::CacheInspector;
use cachekill::npx::{is_npx_available, NpxCacheManager};
use cachekill::torch::TorchCacheManager;
use cachekill::util;
use cachekill::errors::CacheError;

fn now_unix() -> i64 {
    chrono::Utc::now().timestamp()
}

fn test_config() -> MergedConfig {
    MergedConfig {
        list: false,
        dry_run: false,
        force: false,
        json: false,
        lang: LanguageFilter::Auto,
        paths: vec![],
        exclude: vec![],
        stale_days: 14,
        safe_delete: true,
        backup_dir: ".cachekill-backup".to_string(),
        docker: false,
        npx: false,
        restore_last: false,
        all: false,
        js_pm: false,
    }
}

#[test]
fn test_cache_kind_detection() {
    assert_eq!(classify("node_modules"), CacheKind::JavaScript);
    assert_eq!(classify("__pycache__"), CacheKind::Python);
    assert_eq!(classify("target"), CacheKind::Rust);
}

#[test]
fn test_classifier_priority_and_default() {
    // Case-insensitive, and the first marker family wins.
    assert_eq!(classify("/home/me/NODE_MODULES/pkg"), CacheKind::JavaScript);
    assert_eq!(classify("/data/target/docker"), CacheKind::Rust);
    assert_eq!(classify("/var/lib/docker/overlay"), CacheKind::Docker);
    assert_eq!(classify("/home/me/.npm/_npx/abc"), CacheKind::Npx);
    assert_eq!(classify("/home/me/projects/notes.txt"), CacheKind::Generic);
    // Same input, same answer.
    assert_eq!(classify("/a/b/c"), classify("/a/b/c"));
}

#[test]
fn inspect_test_stale_detection() {
    let inspector = CacheInspector::new(test_config());
    let now = now_unix();

    assert!(!inspector.is_stale(now, now));
    assert!(inspector.is_stale(now - 20 * 86400, now));
}

#[test]
fn test_stale_boundary_exclusive() {
    let inspector = CacheInspector::new(test_config());
    let now = now_unix();
    // Exactly fourteen days is not stale; a second past it is.
    assert!(!inspector.is_stale(now - 14 * 86400, now));
    assert!(inspector.is_stale(now - 14 * 86400 - 86400, now));
}

#[test]
fn npx_test_stale_detection() {
    let manager = NpxCacheManager::new(test_config());
    let now = now_unix();

    assert!(!manager.is_stale(now, now));
    assert!(manager.is_stale(now - 20 * 86400, now));
}

#[test]
fn test_planned_action() {
    let mut config = test_config();
    let manager = NpxCacheManager::new(config.clone());

    assert_eq!(manager.determine_planned_action(), PlannedAction::Backup);

    config.safe_delete = false;
    let manager = NpxCacheManager::new(config);
    assert_eq!(manager.determine_planned_action(), PlannedAction::Delete);
}

#[test]
fn test_cache_summary() {
    let inspector = CacheInspector::new(test_config());
    let now = now_unix();

    let entries = vec![
        CacheEntry::new("test1".to_string(), CacheKind::JavaScript, 1000, now, false),
        CacheEntry::new("test2".to_string(), CacheKind::Python, 2000, now, true),
    ];

    let summary = inspector.get_summary(&entries);
    assert_eq!(summary.total_size, 3000);
    assert_eq!(summary.total_count, 2);
    assert_eq!(summary.stale_count, 1);
}

#[test]
fn test_largest_entries() {
    let inspector = CacheInspector::new(test_config());
    let now = now_unix();

    let entries = vec![
        CacheEntry::new("small".to_string(), CacheKind::JavaScript, 100, now, false),
        CacheEntry::new("large".to_string(), CacheKind::Python, 1000, now, false),
        CacheEntry::new("medium".to_string(), CacheKind::Rust, 500, now, false),
    ];

    let largest = inspector.get_largest_entries(&entries, 2);
    assert_eq!(largest.len(), 2);
    assert_eq!(largest[0].path, "large");
    assert_eq!(largest[1].path, "medium");
}

#[test]
fn test_largest_entries_stable_ties() {
    let inspector = CacheInspector::new(test_config());
    let now = now_unix();
    let entries = vec![
        CacheEntry::new("first".to_string(), CacheKind::Generic, 500, now, false),
        CacheEntry::new("second".to_string(), CacheKind::Generic, 500, now, false),
        CacheEntry::new("big".to_string(), CacheKind::Generic, 900, now, false),
    ];
    let sorted = inspector.get_largest_entries(&entries, 3);
    assert_eq!(sorted[0].path, "big");
    assert_eq!(sorted[1].path, "first");
    assert_eq!(sorted[2].path, "second");
}

#[test]
fn test_dry_run() {
    let config = test_config();
    let executor = cachekill::actions::ActionExecutor::new(config, "/tmp".to_string());
    let now = now_unix();

    let entries = vec![
        CacheEntry::new("test1".to_string(), CacheKind::JavaScript, 1000, now, false)
            .with_planned_action(PlannedAction::Delete),
        CacheEntry::new("test2".to_string(), CacheKind::Python, 2000, now, false)
            .with_planned_action(PlannedAction::Backup),
    ];

    let result = executor.dry_run(&entries).unwrap();
    assert_eq!(result.to_delete.len(), 1);
    assert_eq!(result.to_backup.len(), 1);
    assert_eq!(result.total_size, 3000);
}

#[test]
fn test_dry_run_overflow_rejected() {
    let executor = cachekill::actions::ActionExecutor::new(test_config(), "/tmp".to_string());
    let now = now_unix();
    let entries = vec![
        CacheEntry::new("a".to_string(), CacheKind::Generic, u64::MAX, now, false)
            .with_planned_action(PlannedAction::Delete),
        CacheEntry::new("b".to_string(), CacheKind::Generic, 1, now, false)
            .with_planned_action(PlannedAction::Backup),
    ];
    let r = executor.dry_run(&entries);
    assert!(matches!(r, Err(cachekill::errors::CacheError::SizeOverflow)));
}

#[test]
fn test_parse_size_string() {
    assert_eq!(DockerCacheManager::parse_size_string("1KB").unwrap(), 1024);
    assert_eq!(
        DockerCacheManager::parse_size_string("1MB").unwrap(),
        1024 * 1024
    );
    assert_eq!(
        DockerCacheManager::parse_size_string("1GB").unwrap(),
        1024 * 1024 * 1024
    );
    assert_eq!(
        DockerCacheManager::parse_size_string("1.5GB").unwrap(),
        (1024u64 * 1024 * 1024) * 3 / 2
    );
}

#[test]
fn test_parse_size_string_rejects_junk() {
    assert!(DockerCacheManager::parse_size_string("").is_err());
    assert!(DockerCacheManager::parse_size_string("GB").is_err());
    assert!(DockerCacheManager::parse_size_string("1.2.3MB").is_err());
    assert!(DockerCacheManager::parse_size_string("12x4KB").is_err());
    // Lower case units are read too, as the string is upper-cased first.
    assert_eq!(DockerCacheManager::parse_size_string("800mb").unwrap(), 800 * 1024 * 1024);
}

#[test]
fn test_parse_removed_count() {
    let output = "Deleted: 5 objects";
    assert_eq!(DockerCacheManager::parse_removed_count(output), 5);

    let output2 = "Deleted: 0 objects";
    assert_eq!(DockerCacheManager::parse_removed_count(output2), 0);

    let output3 = "No output";
    assert_eq!(DockerCacheManager::parse_removed_count(output3), 0);
}

#[test]
fn test_parse_docker_size_line() {
    assert_eq!(
        DockerCacheManager::parse_docker_size("Images    5    1.2GB    800MB"),
        Some((1024u64 * 1024 * 1024) * 6 / 5)
    );
    assert_eq!(DockerCacheManager::parse_docker_size("Images 5"), None);
}

#[test]
fn test_parse_system_df_table() {
    let manager = DockerCacheManager::new(test_config());
    let table = "TYPE          TOTAL   SIZE    RECLAIMABLE\n\
                 Images        5       2KB     1KB\n\
                 Containers    3       1KB     512B\n\
                 Local Volumes 1       4KB     0B\n\
                 Build Cache   7       8KB     8KB\n";
    let info = manager.parse_system_df(table);
    assert_eq!(info.images_size, 2048);
    assert_eq!(info.containers_size, 1024);
    // Two-word categories shift the columns: the third whitespace-separated
    // token of those lines is the count, and that is what gets read.
    assert_eq!(info.volumes_size, 1);
    assert_eq!(info.build_cache_size, 7);
    assert_eq!(info.total_size, 2048 + 1024 + 1 + 7);
}

#[test]
fn test_docker_manager_creation() {
    let config = test_config();
    let _manager = DockerCacheManager::new(config);
}

#[test]
fn test_docker_availability() {
    let available = DockerCacheManager::is_docker_available();
    assert!(available || !available);
}

#[test]
fn test_docker_stats_creation() {
    let manager = DockerCacheManager::new(test_config());
    let info = DockerSystemInfo {
        images_size: 512 * 1024 * 1024,
        containers_size: 256 * 1024 * 1024,
        volumes_size: 128 * 1024 * 1024,
        build_cache_size: 128 * 1024 * 1024,
        total_size: 1024 * 1024 * 1024,
    };
    let stats: DockerStats = manager.get_docker_stats(&info, true);

    assert_eq!(stats.total_size, 1024 * 1024 * 1024);
    assert!(stats.total_size_human().contains("1.0") && stats.total_size_human().contains("GB"));
}

#[test]
fn test_cache_kinds_for_project_type() {
    let js_kinds = ProjectType::JavaScript.get_cache_kinds();
    assert!(js_kinds.contains(&CacheKind::JavaScript));
    assert!(js_kinds.contains(&CacheKind::Generic));

    let rust_kinds = ProjectType::Rust.get_cache_kinds();
    assert!(rust_kinds.contains(&CacheKind::Rust));
    assert!(rust_kinds.contains(&CacheKind::Generic));
}

#[test]
fn test_detect_from_markers() {
    assert_eq!(
        ProjectType::detect_from_markers(true, false, false, false, false),
        ProjectType::JavaScript
    );
    assert_eq!(
        ProjectType::detect_from_markers(true, true, false, false, false),
        ProjectType::Mixed
    );
    assert_eq!(
        ProjectType::detect_from_markers(false, false, false, false, false),
        ProjectType::Unknown
    );
}

#[test]
fn test_npx_cache_dir() {
    let cache_dir = NpxCacheManager::get_npx_cache_dir().unwrap();
    assert!(cache_dir.contains(".npm"));
    assert!(cache_dir.contains("_npx"));
}

#[test]
fn test_npx_cache_exists() {
    let exists = NpxCacheManager::npx_cache_exists();
    assert!(exists || !exists);
}

#[test]
fn test_npx_manager_creation() {
    let config = test_config();
    let _manager = NpxCacheManager::new(config);
}

#[test]
fn test_npx_availability() {
    let available = is_npx_available();
    assert!(available || !available);
}

#[test]
fn test_package_info_from_json() {
    let (name, version) = cachekill::npx::package_info_from_json(
        "{\"name\": \"left-pad\", \"version\": \"1.3.0\"}",
        "fallback",
    )
    .unwrap();
    assert_eq!(name, "left-pad");
    assert_eq!(version, Some("1.3.0".to_string()));

    let (name, version) =
        cachekill::npx::package_info_from_json("{\"dependencies\": {\"chalk\": \"^5\"}}", "dir")
            .unwrap();
    assert_eq!(name, "chalk");
    assert_eq!(version, None);

    let (name, _) = cachekill::npx::package_info_from_json("{}", "dir").unwrap();
    assert_eq!(name, "dir");

    // A package.json that is not JSON names no package at all.
    assert!(cachekill::npx::package_info_from_json("not json", "dir").is_none());
}

#[test]
fn test_npx_stats_of() {
    let now = now_unix();
    let entries = vec![
        CacheEntry::new("a".to_string(), CacheKind::Npx, 100, now, false),
        CacheEntry::new("b".to_string(), CacheKind::Npx, 250, now, true),
        CacheEntry::new("c".to_string(), CacheKind::Npx, 50, now, true),
    ];
    let stats = cachekill::npx::npx_stats_of(&entries, true);
    assert_eq!(stats.total_size, 400);
    assert_eq!(stats.total_count, 3);
    assert_eq!(stats.stale_count, 2);
    assert!(stats.exists);
}

#[test]
fn test_dry_run_accounts_skips() {
    // Skipped entries weigh into the total: the delete and backup bytes are
    // the total less the skipped bytes.
    let executor = cachekill::actions::ActionExecutor::new(test_config(), "/tmp".to_string());
    let now = now_unix();
    let entries = vec![
        CacheEntry::new("d".to_string(), CacheKind::Generic, 100, now, false)
            .with_planned_action(PlannedAction::Delete),
        CacheEntry::new("b".to_string(), CacheKind::Generic, 200, now, false)
            .with_planned_action(PlannedAction::Backup),
        CacheEntry::new("s".to_string(), CacheKind::Generic, 5, now, false)
            .with_planned_action(PlannedAction::Skip),
    ];
    let r = executor.dry_run(&entries).unwrap();
    assert_eq!(r.total_size, 305);
    let delete_bytes: u64 = r.to_delete.iter().map(|e| e.size_bytes).sum();
    let backup_bytes: u64 = r.to_backup.iter().map(|e| e.size_bytes).sum();
    let skip_bytes: u64 = r.to_skip.iter().map(|e| e.size_bytes).sum();
    assert_eq!(delete_bytes + backup_bytes, r.total_size - skip_bytes);
    assert_eq!(r.total_count, r.to_delete.len() + r.to_backup.len() + r.to_skip.len());
}

#[test]
fn test_empty_exclude_list_excludes_nothing() {
    let empty: Vec<String> = vec![];
    assert!(!util::should_exclude_path("/tmp/anything", &empty));
    let config = test_config();
    assert!(!config.should_exclude_path("/project/node_modules"));
    assert!(config.should_process_path("/project/node_modules"));
}

#[test]
fn test_hf_cache_dir() {
    let cache_dir = HfCacheManager::get_hf_cache_dir().unwrap();
    assert!(cache_dir.contains(".cache/huggingface"));
}

#[test]
fn test_parse_hf_path() {
    let manager = HfCacheManager::new(MergedConfig::default());
    let path = "/home/user/.cache/huggingface/hub/models--microsoft--DialoGPT-medium";

    let (repo, model, _file_type) = manager.parse_hf_path(path);
    assert_eq!(repo, Some("microsoft/DialoGPT-medium".to_string()));
    assert_eq!(model, Some("microsoft/DialoGPT-medium".to_string()));
}

#[test]
fn test_torch_cache_dir() {
    let cache_dir = TorchCacheManager::get_torch_cache_dir().unwrap();
    assert!(cache_dir.contains(".cache/torch"));
}

#[test]
fn test_parse_torch_path() {
    let manager = TorchCacheManager::new(MergedConfig::default());
    let path = "/home/user/.cache/torch/hub/checkpoints/model.pth";

    let (cache_type, _version) = manager.parse_torch_path(path);
    assert_eq!(cache_type, "checkpoints");
}

#[test]
fn test_parse_torch_version() {
    let manager = TorchCacheManager::new(MergedConfig::default());
    let (_, version) = manager.parse_torch_path("/home/user/.cache/torch_1.12.0/data.bin");
    assert_eq!(version, Some("1.12.0".to_string()));
}

#[test]
fn test_create_backup_dir_name() {
    let name = util::create_backup_dir_name(now_unix());
    assert!(name.contains("-"));
    assert!(name.contains("_"));
}

#[test]
fn test_backup_dir_name_exact() {
    assert_eq!(util::create_backup_dir_name(0), "1970-01-01_00-00-00");
    assert_eq!(util::create_backup_dir_name(1700000000), "2023-11-14_22-13-20");
}

#[test]
fn test_matches_any_glob() {
    let patterns = vec!["*.txt".to_string(), "*.log".to_string()];
    assert!(util::matches_any_glob("/tmp/test.txt", &patterns));

    let patterns2 = vec!["*.log".to_string(), "*.json".to_string()];
    assert!(!util::matches_any_glob("/tmp/test.txt", &patterns2));
}

#[test]
fn test_expand_home() {
    let _home = dirs::home_dir().unwrap();
    let expanded = util::expand_home("~/test");
    assert!(expanded.contains("test"));
    assert!(!expanded.starts_with("~"));
}

#[test]
fn test_action_executor_creation() {
    let config = test_config();
    let _executor = cachekill::actions::ActionExecutor::new(config, "/tmp".to_string());
}

#[test]
fn test_error_messages() {
    assert_eq!(
        CacheError::PathNotFound("/x".to_string()).message(),
        "Path does not exist: /x"
    );
    assert_eq!(CacheError::NoBackupFound.message(), "No backup directory found");
    assert_eq!(CacheError::SizeOverflow.message(), "Byte total exceeds 64 bits");
}
