use std::str::FromStr;
use cachekill::edge::{choose_purge_route, PurgeRoute};

use cachekill::cache_entry::{CacheEntry, CacheKind, LanguageFilter, PlannedAction};
use cachekill::ci::{CiMode, CiResult};
use cachekill::config::{Cli, CliArgs, Config, MergedConfig};
use cachekill::doctor::IntegrationStatus;
use cachekill::edge::cloudflare::CloudflarePurgeResult;
use cachekill::edge::vercel::VercelPurgeResult;
use cachekill::exit_codes;
use cachekill::hf::HfStats;
use cachekill::output::OutputFormatter;
use cachekill::torch::TorchStats;

fn now_unix() -> i64 {
    chrono::Utc::now().timestamp()
}

#[test]
fn test_cache_kind_display() {
    assert_eq!(CacheKind::JavaScript.name(), "js");
    assert_eq!(CacheKind::Python.name(), "py");
    assert_eq!(CacheKind::Rust.name(), "rust");
}

#[test]
fn test_language_filter_parsing() {
    assert_eq!(
        LanguageFilter::from_str("auto").unwrap(),
        LanguageFilter::Auto
    );
    assert_eq!(
        LanguageFilter::from_str("js").unwrap(),
        LanguageFilter::JavaScript
    );
    assert_eq!(
        LanguageFilter::from_str("python").unwrap(),
        LanguageFilter::Python
    );
    assert!(LanguageFilter::from_str("invalid").is_err());
}

#[test]
fn test_cache_entry_creation() {
    let now = now_unix();
    let entry = CacheEntry::new(
        "/tmp/test".to_string(),
        CacheKind::JavaScript,
        1024,
        now,
        false,
    );

    assert_eq!(entry.kind, CacheKind::JavaScript);
    assert_eq!(entry.size_bytes, 1024);
    assert!(!entry.stale);
    assert!(entry.planned_action.is_none());
}

#[test]
fn test_size_human_formatting() {
    let entry = CacheEntry::new(
        "/tmp/test".to_string(),
        CacheKind::JavaScript,
        1024,
        now_unix(),
        false,
    );

    let size_str = entry.size_human();
    assert!(size_str.contains("1.0") || size_str.contains("1024"));
}

#[test]
fn test_config_default() {
    let config = Config::default();
    assert_eq!(config.stale_days, Some(14));
    assert_eq!(config.safe_delete, Some(true));
    assert!(config.exclude_paths.is_some());
}

#[test]
fn test_config_merge() {
    let config = Config::default();
    let cli_args = CliArgs {
        list: false,
        dry_run: true,
        force: false,
        json: false,
        lang: Some(LanguageFilter::JavaScript),
        paths: None,
        exclude: None,
        stale_days: Some(7),
        safe_delete: Some(false),
        backup_dir: None,
        docker: true,
        npx: false,
        restore_last: false,
        all: false,
        js_pm: false,
    };

    let merged = config.merge_with_cli(&cli_args);
    assert!(merged.dry_run);
    assert_eq!(merged.lang, LanguageFilter::JavaScript);
    assert_eq!(merged.stale_days, 7);
    assert!(!merged.safe_delete);
    assert!(merged.docker);
}

#[test]
fn test_should_process_path() {
    let config = MergedConfig {
        list: false,
        dry_run: false,
        force: false,
        json: false,
        lang: LanguageFilter::Auto,
        paths: vec!["**/node_modules".to_string()],
        exclude: vec!["**/test".to_string()],
        stale_days: 14,
        safe_delete: true,
        backup_dir: ".cachekill-backup".to_string(),
        docker: false,
        npx: false,
        restore_last: false,
        all: false,
        js_pm: false,
    };

    assert!(config.should_process_path("/project/node_modules"));
    assert!(!config.should_process_path("/project/test"));
    assert!(!config.should_process_path("/project/other"));
}

#[test]
fn test_cli_args_conversion() {
    let cli = Cli {
        list: true,
        dry_run: false,
        force: false,
        yes: false,
        json: true,
        lang: Some("js".to_string()),
        paths: Some("**/node_modules".to_string()),
        exclude: None,
        stale_days: Some(7),
        safe_delete: Some(true),
        backup_dir: Some(".backup".to_string()),
        docker: false,
        npx: false,
        restore_last: false,
        all: false,
        doctor: false,
        ci: None,
        hf: false,
        torch: false,
        vercel: false,
        cloudflare: false,
        model: None,
        project: None,
        zone: None,
        token: None,
    };

    let cli_args = cli.to_cli_args();
    assert!(cli_args.list);
    assert!(cli_args.json);
    assert_eq!(cli_args.lang, Some(LanguageFilter::JavaScript));
    assert_eq!(cli_args.stale_days, Some(7));
    assert_eq!(cli_args.paths, Some(vec!["**/node_modules".to_string()]));
}

#[test]
fn test_ci_mode_serialization() {
    let prebuild = CiMode::Prebuild;
    let postbuild = CiMode::Postbuild;

    assert_eq!(format!("{:?}", prebuild), "Prebuild");
    assert_eq!(format!("{:?}", postbuild), "Postbuild");
}

#[test]
fn test_exit_codes() {
    assert_eq!(exit_codes::SUCCESS, 0);
    assert_eq!(exit_codes::PARTIAL_SUCCESS, 2);
    assert_eq!(exit_codes::NOTHING_TO_DO, 3);
    assert_eq!(exit_codes::CONFIG_ERROR, 4);
    assert_eq!(exit_codes::FATAL_ERROR, 5);
}

#[test]
fn test_ci_result_creation() {
    let result = CiResult {
        mode: CiMode::Prebuild,
        entries_processed: 5,
        freed_bytes: 1024,
        backup_dir: Some("/tmp/backup".to_string()),
        timestamp: now_unix(),
        status: "success".to_string(),
        summary: Vec::new(),
    };

    assert_eq!(result.entries_processed, 5);
    assert_eq!(result.freed_bytes, 1024);
}

#[test]
fn test_ci_summary_shape() {
    let manager = cachekill::ci::CiCacheManager::new(MergedConfig::default(), CiMode::Prebuild);
    let summary = manager.create_summary(3, 2048, None, 1700000000);
    assert_eq!(summary.len(), 5);
    assert_eq!(summary[0].0, "mode");
    assert_eq!(summary[0].1, "prebuild");
    assert_eq!(summary[1].1, "3");
    assert_eq!(summary[2].1, "2048");
    assert_eq!(summary[4].0, "timestamp");
    assert_eq!(summary[4].1, "2023-11-14T22:13:20+00:00");
}

#[test]
fn test_output_formatter_creation() {
    let formatter = OutputFormatter::new(false);
    assert!(!formatter.json_mode);

    let json_formatter = OutputFormatter::new(true);
    assert!(json_formatter.json_mode);
}

#[test]
fn test_calculate_totals() {
    let formatter = OutputFormatter::new(false);
    let now = now_unix();
    let entries = vec![
        CacheEntry::new("test1".to_string(), CacheKind::JavaScript, 1000, now, false)
            .with_planned_action(PlannedAction::Delete),
        CacheEntry::new("test2".to_string(), CacheKind::Python, 2000, now, false)
            .with_planned_action(PlannedAction::Backup),
    ];

    let totals = formatter.calculate_totals(&entries);
    assert_eq!(totals.size_bytes, 3000);
    assert_eq!(totals.count, 2);
    assert_eq!(totals.freed_bytes, 3000);
}

#[test]
fn test_integration_status() {
    let status = IntegrationStatus {
        docker: true,
        npx: false,
        vercel: true,
        cloudflare: false,
        huggingface: true,
        torch: false,
    };

    assert!(status.docker);
    assert!(!status.npx);
}

#[test]
fn test_hf_stats_creation() {
    let stats = HfStats {
        total_size_bytes: 1024,
        total_size_human: "1.0 KB".to_string(),
        entry_count: 5,
        repo_count: 2,
        model_count: 3,
        top_repos: vec![("repo1".to_string(), 512)],
        top_models: vec![("model1".to_string(), 256)],
    };

    assert_eq!(stats.total_size_bytes, 1024);
    assert_eq!(stats.entry_count, 5);
}

#[test]
fn test_torch_stats_creation() {
    let stats = TorchStats {
        total_size_bytes: 2048,
        total_size_human: "2.0 KB".to_string(),
        entry_count: 3,
        cache_types: Vec::new(),
        versions: Vec::new(),
    };

    assert_eq!(stats.total_size_bytes, 2048);
    assert_eq!(stats.entry_count, 3);
}

#[test]
fn test_cloudflare_purge_result() {
    let result = CloudflarePurgeResult {
        success: true,
        message: "Test message".to_string(),
        zone_id: Some("test-zone".to_string()),
        timestamp: now_unix(),
        method: "cli".to_string(),
    };

    assert!(result.success);
    assert_eq!(result.message, "Test message");
    assert_eq!(result.zone_id, Some("test-zone".to_string()));
}

#[test]
fn test_vercel_purge_result() {
    let result = VercelPurgeResult {
        success: true,
        message: "Test message".to_string(),
        project_id: Some("test-project".to_string()),
        timestamp: now_unix(),
        method: "cli".to_string(),
    };

    assert!(result.success);
    assert_eq!(result.message, "Test message");
    assert_eq!(result.project_id, Some("test-project".to_string()));
}

#[test]
fn test_purge_recommendations() {
    let cf = cachekill::edge::cloudflare::CloudflareCacheManager::new(MergedConfig::default());
    let recs = cf.get_recommendations(true, true);
    assert_eq!(recs, vec!["Cloudflare integration is ready".to_string()]);
    let recs = cf.get_recommendations(false, true);
    assert_eq!(
        recs,
        vec!["Install Cloudflare CLI: npm install -g wrangler".to_string()]
    );
    let vc = cachekill::edge::vercel::VercelCacheManager::new(MergedConfig::default());
    let recs = vc.get_recommendations(true, false);
    assert_eq!(recs, vec!["Set VERCEL_TOKEN environment variable".to_string()]);
}

#[test]
fn test_last_used_human_formatting() {
    let now = 1700000000i64;
    let mk = |last| CacheEntry::new("p".to_string(), CacheKind::Generic, 1, last, false);
    assert_eq!(mk(now).last_used_human_at(now), "just now");
    assert_eq!(mk(now - 59).last_used_human_at(now), "just now");
    assert_eq!(mk(now - 60).last_used_human_at(now), "1m ago");
    assert_eq!(mk(now - 7200).last_used_human_at(now), "2h ago");
    assert_eq!(mk(now - 3 * 86400).last_used_human_at(now), "3d ago");
}

#[test]
fn add_js_pm_entries_is_noop_when_flag_is_false() {
    let mut entries = Vec::new();
    let mut cfg = MergedConfig::default();
    cfg.js_pm = false;
    let res = cachekill::package_managers::add_js_pm_entries(&mut entries, &cfg, "/tmp", 0);
    assert!(res.is_ok());
    assert!(entries.is_empty());
}

#[test]
fn test_purge_route_choice() {
    assert_eq!(choose_purge_route(true, false, true, true), PurgeRoute::DryRun);
    assert_eq!(choose_purge_route(true, true, true, true), PurgeRoute::Cli);
    assert_eq!(choose_purge_route(false, false, false, true), PurgeRoute::Api);
    assert_eq!(
        choose_purge_route(false, false, false, false),
        PurgeRoute::Unavailable
    );
}
