//! Error taxonomy of the streaming layer.

use vstd::prelude::*;

verus! {

/// Everything that the lifecycle, probing and streaming operations can
/// report.  Transient shortages of buffered data are distinguished from
/// permanent failures so that clients can poll and retry.
#[derive(Clone, Copy, Debug, PartialEq, Eq, Structural)]
pub enum StreamError {
    /// No registered handle carries the given id.
    HandleNotFound,
    /// The handle exists but no engine session is bound to it.
    SessionNotFound,
    /// The requested file index lies outside the source's file list.
    FileIndexOutOfRange,
    /// The engine could not resolve or add the source.
    SourceUnreachable,
    /// Probing or extraction was attempted before enough bytes exist.
    InsufficientBufferedData,
    /// An external process could not be started.
    SubprocessSpawnFailed,
    /// An external process exited unsuccessfully.
    SubprocessFailed,
    /// A disk or temporary-file operation failed.
    IoFailure,
}

impl StreamError {
    /// Short diagnostic label for logs and HTTP bodies.
    pub fn label(&self) -> (r: &'static str)
        ensures
            match self {
                StreamError::HandleNotFound => r@ == "handle not found"@,
                StreamError::SessionNotFound => r@ == "session not found"@,
                StreamError::FileIndexOutOfRange => r@ == "file index out of range"@,
                StreamError::SourceUnreachable => r@ == "source unreachable"@,
                StreamError::InsufficientBufferedData => r@ == "not enough buffered data"@,
                StreamError::SubprocessSpawnFailed => r@ == "failed to spawn subprocess"@,
                StreamError::SubprocessFailed => r@ == "subprocess failed"@,
                StreamError::IoFailure => r@ == "i/o failure"@,
            },
    {
        match self {
            StreamError::HandleNotFound => "handle not found",
            StreamError::SessionNotFound => "session not found",
            StreamError::FileIndexOutOfRange => "file index out of range",
            StreamError::SourceUnreachable => "source unreachable",
            StreamError::InsufficientBufferedData => "not enough buffered data",
            StreamError::SubprocessSpawnFailed => "failed to spawn subprocess",
            StreamError::SubprocessFailed => "subprocess failed",
            StreamError::IoFailure => "i/o failure",
        }
    }
}

} // verus!
