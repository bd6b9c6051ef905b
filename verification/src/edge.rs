//! Edge-CDN cache purging. Running the CLIs and calling the APIs is outside
//! work; the decision of which route a purge takes stands here.
pub mod cloudflare;
pub mod vercel;

use vstd::prelude::*;

verus! {

/// How a purge is carried out: not at all under a dry run, through the
/// vendor CLI when one is installed, through the API when a token is set,
/// and not at all — reported as such — when neither is available.
#[derive(Debug, Clone, Copy, PartialEq, Eq, Structural)]
pub enum PurgeRoute {
    DryRun,
    Cli,
    Api,
    Unavailable,
}

/// The route a purge takes: a dry run unless forced, else CLI first, API
/// second.
pub open spec fn spec_purge_route(
    dry_run: bool,
    force: bool,
    cli_available: bool,
    token_available: bool,
) -> PurgeRoute {
    if dry_run && !force {
        PurgeRoute::DryRun
    } else if cli_available {
        PurgeRoute::Cli
    } else if token_available {
        PurgeRoute::Api
    } else {
        PurgeRoute::Unavailable
    }
}

/// Decide the purge route from what is available.
pub fn choose_purge_route(
    dry_run: bool,
    force: bool,
    cli_available: bool,
    token_available: bool,
) -> (r: PurgeRoute)
    ensures
        r == spec_purge_route(dry_run, force, cli_available, token_available),
{
    if dry_run && !force {
        PurgeRoute::DryRun
    } else if cli_available {
        PurgeRoute::Cli
    } else if token_available {
        PurgeRoute::Api
    } else {
        PurgeRoute::Unavailable
    }
}

} // verus!
