use vstd::prelude::*;

verus! {

/// Error indicating that loading one or more values through a fetch
/// coalescer failed.
#[derive(Debug)]
pub enum LoadError {
    /// The fetch handler returned an error while loading the batch. The
    /// message is the handler's error, stringified once and shared by every
    /// submission of the batch.
    FetchError(String),
    /// The request could not be submitted: the coalescer's worker has exited.
    SendError,
    /// The fetch handler succeeded but did not supply a value for one or more
    /// of the requested keys.
    NotFound,
}

/// Error indicating that executing one or more values through an execute
/// coalescer failed.
#[derive(Debug)]
pub enum ExecuteError {
    /// The execute handler returned an error while running the batch. The
    /// message is the handler's error, stringified once and shared by every
    /// submission of the batch.
    ExecutorError(String),
    /// The request could not be submitted: the coalescer's worker has exited.
    SendError,
}

} // verus!
