//! System diagnostics: which integrations are reachable, how large the known
//! cache directories are, and what to recommend. Reading the environment and
//! printing are outside work; the assembly and the recommendation rules are
//! verified here.
use vstd::prelude::*;

use crate::config::MergedConfig;
use crate::hf::HfCacheManager;
use crate::npx::NpxCacheManager;
use crate::torch::TorchCacheManager;
use crate::util::{
    path_exists, get_size, get_most_recent_mtime, list_dir, binary_available, format_size_decimal,
};

verus! {

/// Integration status.
#[derive(Debug, Clone)]
pub struct IntegrationStatus {
    pub docker: bool,
    pub npx: bool,
    pub vercel: bool,
    pub cloudflare: bool,
    pub huggingface: bool,
    pub torch: bool,
}

/// Cache directory information.
#[derive(Debug, Clone)]
pub struct CacheDirInfo {
    pub exists: bool,
    pub size_bytes: Option<u64>,
    pub size_human: Option<String>,
    pub entry_count: Option<usize>,
    pub last_modified: Option<i64>,
}

/// Environment information, as the host reports it.
#[derive(Debug, Clone)]
pub struct EnvironmentInfo {
    pub home_dir: Option<String>,
    pub temp_dir: Option<String>,
    pub cache_dir: Option<String>,
    pub environment_variables: Vec<(String, String)>,
}

/// System diagnostic information.
#[derive(Debug)]
pub struct SystemDiagnostics {
    pub timestamp: i64,
    pub platform: String,
    pub cachekill_version: String,
    pub integrations: IntegrationStatus,
    pub cache_directories: Vec<(String, CacheDirInfo)>,
    pub environment: EnvironmentInfo,
    pub recommendations: Vec<String>,
}

/// The recommendations given what is reachable: one installation hint per
/// missing integration, a hint when no cache directory was found at all,
/// and an all-clear when nothing else was said.
pub open spec fn spec_recommendations(
    docker: bool,
    npx: bool,
    vercel: bool,
    cloudflare: bool,
    dirs_empty: bool,
) -> Seq<Seq<char>> {
    let base = (if docker {
        Seq::<Seq<char>>::empty()
    } else {
        seq!["Install Docker for container cache management"@]
    }) + (if npx {
        Seq::<Seq<char>>::empty()
    } else {
        seq!["Install Node.js and npm for NPX cache management"@]
    }) + (if vercel {
        Seq::<Seq<char>>::empty()
    } else {
        seq!["Install Vercel CLI for edge cache purging"@]
    }) + (if cloudflare {
        Seq::<Seq<char>>::empty()
    } else {
        seq!["Install Cloudflare CLI (wrangler) for edge cache purging"@]
    }) + (if dirs_empty {
        seq!["No cache directories found - try running cachekill in a project directory"@]
    } else {
        Seq::<Seq<char>>::empty()
    });
    if base.len() == 0 {
        seq!["All integrations are ready!"@]
    } else {
        base
    }
}

/// System doctor.
pub struct SystemDoctor {
    pub config: MergedConfig,
}

impl SystemDoctor {
    pub fn new(config: MergedConfig) -> (r: Self)
        ensures
            crate::config::config_view(r.config) == crate::config::config_view(config),
    {
        Self { config }
    }

    /// Which integrations are reachable: the four tools by their executables
    /// on PATH, the two framework caches by their directories.
    pub fn check_integrations(&self) -> IntegrationStatus {
        IntegrationStatus {
            docker: binary_available("docker"),
            npx: binary_available("npx"),
            vercel: binary_available("vercel"),
            cloudflare: binary_available("wrangler"),
            huggingface: self.check_huggingface(),
            torch: self.check_torch(),
        }
    }

    /// Whether the HuggingFace cache directory exists.
    pub fn check_huggingface(&self) -> bool {
        HfCacheManager::new(self.config.clone()).cache_exists()
    }

    /// Whether the PyTorch cache directory exists.
    pub fn check_torch(&self) -> bool {
        TorchCacheManager::new(self.config.clone()).cache_exists()
    }

    /// Size, entry count and recency of one cache directory.
    pub fn analyze_cache_directory(&self, path: &str) -> (r: CacheDirInfo)
        ensures
            r.size_bytes is Some <==> r.size_human is Some,
    {
        let exists = path_exists(path);
        let mut size_bytes: Option<u64> = None;
        let mut size_human: Option<String> = None;
        let mut entry_count: Option<usize> = None;
        let mut last_modified: Option<i64> = None;
        if exists {
            match get_size(path) {
                Ok(size) => {
                    size_bytes = Some(size);
                    size_human = Some(format_size_decimal(size));
                },
                Err(_) => {},
            }
            match self.count_entries(path) {
                Ok(count) => {
                    entry_count = Some(count);
                },
                Err(_) => {},
            }
            match get_most_recent_mtime(path) {
                Ok(mtime) => {
                    last_modified = Some(mtime);
                },
                Err(_) => {},
            }
        }
        CacheDirInfo { exists, size_bytes, size_human, entry_count, last_modified }
    }

    /// How many children a directory holds.
    fn count_entries(&self, path: &str) -> (r: Result<usize, String>) {
        match list_dir(path) {
            Ok((dirs, files)) => {
                // The listing names the directory itself among the
                // directories; its children are the rest.
                let d = dirs.len();
                let sub = if d > 0 {
                    d - 1
                } else {
                    0
                };
                if sub > usize::MAX - files.len() {
                    Ok(usize::MAX)
                } else {
                    Ok(sub + files.len())
                }
            },
            Err(m) => Err(m),
        }
    }

    /// The known cache directories, analyzed.
    pub fn check_cache_directories(&self) -> Vec<(String, CacheDirInfo)> {
        let mut directories: Vec<(String, CacheDirInfo)> = Vec::new();
        match NpxCacheManager::get_npx_cache_dir() {
            Ok(p) => {
                let info = self.analyze_cache_directory(p.as_str());
                directories.push(("npx".to_owned(), info));
            },
            Err(_) => {},
        }
        match HfCacheManager::get_hf_cache_dir() {
            Ok(p) => {
                let info = self.analyze_cache_directory(p.as_str());
                directories.push(("huggingface".to_owned(), info));
            },
            Err(_) => {},
        }
        match TorchCacheManager::get_torch_cache_dir() {
            Ok(p) => {
                let info = self.analyze_cache_directory(p.as_str());
                directories.push(("torch".to_owned(), info));
            },
            Err(_) => {},
        }
        directories
    }

    /// The recommendations the integration status warrants.
    pub fn generate_recommendations(
        &self,
        integrations: &IntegrationStatus,
        cache_dirs: &Vec<(String, CacheDirInfo)>,
    ) -> (r: Vec<String>)
        ensures
            r.deep_view() == spec_recommendations(
                integrations.docker,
                integrations.npx,
                integrations.vercel,
                integrations.cloudflare,
                cache_dirs@.len() == 0,
            ),
    {
        let mut recommendations: Vec<String> = Vec::new();
        if !integrations.docker {
            recommendations.push("Install Docker for container cache management".to_owned());
        }
        if !integrations.npx {
            recommendations.push("Install Node.js and npm for NPX cache management".to_owned());
        }
        if !integrations.vercel {
            recommendations.push("Install Vercel CLI for edge cache purging".to_owned());
        }
        if !integrations.cloudflare {
            recommendations.push(
                "Install Cloudflare CLI (wrangler) for edge cache purging".to_owned(),
            );
        }
        if cache_dirs.len() == 0 {
            recommendations.push(
                "No cache directories found - try running cachekill in a project directory".to_owned(),
            );
        }
        if recommendations.len() == 0 {
            recommendations.push("All integrations are ready!".to_owned());
        }
        proof {
            assert(recommendations.deep_view() =~~= spec_recommendations(
                integrations.docker,
                integrations.npx,
                integrations.vercel,
                integrations.cloudflare,
                cache_dirs@.len() == 0,
            ));
        }
        recommendations
    }

    /// Assemble the diagnostics from what the host reports: the platform
    /// string, the environment, and the clock are handed in; the probes and
    /// rules run here.
    pub fn diagnose_with(
        &self,
        platform: String,
        cachekill_version: String,
        environment: EnvironmentInfo,
        now: i64,
    ) -> (r: SystemDiagnostics)
        ensures
            r.timestamp == now,
    {
        let integrations = self.check_integrations();
        let cache_directories = self.check_cache_directories();
        let recommendations = self.generate_recommendations(&integrations, &cache_directories);
        SystemDiagnostics {
            timestamp: now,
            platform,
            cachekill_version,
            integrations,
            cache_directories,
            environment,
            recommendations,
        }
    }
}

} // verus!
