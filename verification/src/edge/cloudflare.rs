//! Cloudflare edge-cache purging: the availability checks and the setup
//! recommendations; the CLI and API calls themselves are outside work.
use vstd::prelude::*;

use crate::config::MergedConfig;
use crate::edge::{PurgeRoute, choose_purge_route, spec_purge_route};
use crate::util::binary_available;

verus! {

/// Cloudflare purge result.
#[derive(Debug, Clone)]
pub struct CloudflarePurgeResult {
    pub success: bool,
    pub message: String,
    pub zone_id: Option<String>,
    pub timestamp: i64,
    pub method: String,
}

/// Cloudflare cache manager.
pub struct CloudflareCacheManager {
    pub config: MergedConfig,
}

/// The setup recommendations for given availabilities: install the CLI when
/// missing, set the token when missing, and an all-clear when neither is.
pub open spec fn spec_cloudflare_recommendations(cli: bool, token: bool) -> Seq<Seq<char>> {
    if !cli && !token {
        seq!["Install Cloudflare CLI: npm install -g wrangler"@, "Set CF_API_TOKEN environment variable"@]
    } else if !cli {
        seq!["Install Cloudflare CLI: npm install -g wrangler"@]
    } else if !token {
        seq!["Set CF_API_TOKEN environment variable"@]
    } else {
        seq!["Cloudflare integration is ready"@]
    }
}

impl CloudflareCacheManager {
    pub fn new(config: MergedConfig) -> (r: Self)
        ensures
            crate::config::config_view(r.config) == crate::config::config_view(config),
    {
        Self { config }
    }

    /// Whether the Cloudflare CLI (wrangler) is on PATH.
    pub fn cli_available(&self) -> bool {
        binary_available("wrangler")
    }

    /// The route a purge takes under this configuration, given what the
    /// environment offers.
    pub fn purge_route(&self, cli_available: bool, token_available: bool) -> (r: PurgeRoute)
        ensures
            r == spec_purge_route(self.config.dry_run, self.config.force, cli_available, token_available),
    {
        choose_purge_route(self.config.dry_run, self.config.force, cli_available, token_available)
    }

    /// Setup recommendations, from what the environment offers.
    pub fn get_recommendations(&self, cli_available: bool, token_available: bool) -> (r: Vec<
        String,
    >)
        ensures
            r.deep_view() == spec_cloudflare_recommendations(cli_available, token_available),
    {
        let mut recommendations: Vec<String> = Vec::new();
        if !cli_available {
            recommendations.push("Install Cloudflare CLI: npm install -g wrangler".to_owned());
        }
        if !token_available {
            recommendations.push("Set CF_API_TOKEN environment variable".to_owned());
        }
        if recommendations.len() == 0 {
            recommendations.push("Cloudflare integration is ready".to_owned());
        }
        proof {
            assert(recommendations.deep_view() =~~= spec_cloudflare_recommendations(
                cli_available,
                token_available,
            ));
        }
        recommendations
    }
}

} // verus!
