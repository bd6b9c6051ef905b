//! Handle for the tool-protocol server. The server loop and its delegating
//! calls are I/O and live outside the library.
use vstd::prelude::*;

verus! {

/// Marker for the tool-protocol server that exposes the cache operations.
pub struct CacheKillMcpServer;

impl CacheKillMcpServer {
    pub fn new() -> Self {
        Self
    }
}

} // verus!
