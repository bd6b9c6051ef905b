//! The library's failure taxonomy. Probe-level absence is not an error;
//! these are the failures that reach a caller.
use vstd::prelude::*;

verus! {

/// Why an operation failed. Inspection fails for the whole batch when a
/// listed path has vanished; execution records failures per entry; restore
/// fails hard only when there is no backup to act on.
#[derive(Debug)]
pub enum CacheError {
    /// An explicitly listed path does not exist at inspection time.
    PathNotFound(String),
    /// Size or recency of a path could not be read.
    InspectFailed(String),
    /// A source vanished between planning and a move; nothing to back up.
    SourceMissing(String),
    /// The underlying move primitive failed.
    MoveFailed(String),
    /// The underlying remove primitive failed.
    RemoveFailed(String),
    /// Restore was asked for, and no backup directory exists.
    NoBackupFound,
    /// The backup root could not be created or enumerated.
    BackupRootFailed(String),
    /// A byte total cannot be held in 64 bits.
    SizeOverflow,
}

impl CacheError {
    /// A human-readable description of the failure.
    pub fn message(&self) -> (r: String)
        ensures
            match self {
                CacheError::PathNotFound(p) => r@ == "Path does not exist: "@ + p@,
                CacheError::InspectFailed(m) => r@ == "Inspection failed: "@ + m@,
                CacheError::SourceMissing(p) => r@ == "Source path does not exist: "@ + p@,
                CacheError::MoveFailed(m) => r@ == "Failed to move: "@ + m@,
                CacheError::RemoveFailed(m) => r@ == "Failed to remove: "@ + m@,
                CacheError::NoBackupFound => r@ == "No backup directory found"@,
                CacheError::BackupRootFailed(m) => r@ == "Backup root unusable: "@ + m@,
                CacheError::SizeOverflow => r@ == "Byte total exceeds 64 bits"@,
            },
    {
        match self {
            CacheError::PathNotFound(p) => {
                let mut m = "Path does not exist: ".to_owned();
                m.append(p.as_str());
                m
            },
            CacheError::InspectFailed(w) => {
                let mut m = "Inspection failed: ".to_owned();
                m.append(w.as_str());
                m
            },
            CacheError::SourceMissing(p) => {
                let mut m = "Source path does not exist: ".to_owned();
                m.append(p.as_str());
                m
            },
            CacheError::MoveFailed(w) => {
                let mut m = "Failed to move: ".to_owned();
                m.append(w.as_str());
                m
            },
            CacheError::RemoveFailed(w) => {
                let mut m = "Failed to remove: ".to_owned();
                m.append(w.as_str());
                m
            },
            CacheError::NoBackupFound => "No backup directory found".to_owned(),
            CacheError::BackupRootFailed(w) => {
                let mut m = "Backup root unusable: ".to_owned();
                m.append(w.as_str());
                m
            },
            CacheError::SizeOverflow => "Byte total exceeds 64 bits".to_owned(),
        }
    }
}

} // verus!
