//! Error kinds shared by every component of the library.

use vstd::prelude::*;

verus! {

/// Everything that can go wrong while inspecting or mutating the routing
/// graph, spawning relays, or keeping the durable split records.  Each
/// variant carries a human-readable cause where one exists.
#[derive(Debug)]
pub enum PwSplitterError {
    /// A query or mutation command of the audio server could not be run.
    CommandFailed(String),
    /// The server's graph dump could not be understood.
    ParseError(String),
    /// A node looked up by name or id was not in the snapshot.
    NodeNotFound(String),
    /// A split was requested for a source with no connection to work from.
    NoActiveConnection,
    /// A relay process could not be launched.
    LoopbackSpawnFailed(String),
    /// A port-to-port link could not be created.
    LinkCreationFailed(String),
    /// A port-to-port link could not be destroyed.
    LinkDestroyFailed(String),
    /// A split record could not be read, written or removed.
    StateFileError(String),
}

impl PwSplitterError {
    /// A short, stable label for the error kind.
    pub fn kind_name(&self) -> (s: &'static str)
        ensures
            s@ == match self {
                PwSplitterError::CommandFailed(_) => "command failed"@,
                PwSplitterError::ParseError(_) => "parse error"@,
                PwSplitterError::NodeNotFound(_) => "node not found"@,
                PwSplitterError::NoActiveConnection => "no active connection"@,
                PwSplitterError::LoopbackSpawnFailed(_) => "loopback spawn failed"@,
                PwSplitterError::LinkCreationFailed(_) => "link creation failed"@,
                PwSplitterError::LinkDestroyFailed(_) => "link destroy failed"@,
                PwSplitterError::StateFileError(_) => "state file error"@,
            },
    {
        match self {
            PwSplitterError::CommandFailed(_) => "command failed",
            PwSplitterError::ParseError(_) => "parse error",
            PwSplitterError::NodeNotFound(_) => "node not found",
            PwSplitterError::NoActiveConnection => "no active connection",
            PwSplitterError::LoopbackSpawnFailed(_) => "loopback spawn failed",
            PwSplitterError::LinkCreationFailed(_) => "link creation failed",
            PwSplitterError::LinkDestroyFailed(_) => "link destroy failed",
            PwSplitterError::StateFileError(_) => "state file error",
        }
    }
}

} // verus!
