//! The status vocabulary shared by downloads, the manager, the publisher and
//! the observer.

use vstd::prelude::*;

verus! {

/// Latest known status of one download.
#[derive(Debug, Clone)]
pub enum State {
    /// The file on disk holds exactly `content_length` bytes.
    Complete,
    /// No task is running; the field is the on-disk file size at pause time.
    Paused(u64),
    /// A task is streaming.
    Running { bytes_downloaded: u64, bytes_per_second: u64 },
    /// The last task exited with a failure; the field is a rendered reason.
    Error(String),
}

impl State {
    /// A terminal state ends a run; `Running` is the only non-terminal state.
    pub open spec fn is_terminal(self) -> bool {
        !(self is Running)
    }

    /// An exact copy, rebuilt variant by variant.
    pub fn duplicate(&self) -> (r: State)
        ensures
            r == *self,
    {
        match self {
            State::Complete => State::Complete,
            State::Paused(b) => State::Paused(*b),
            State::Running { bytes_downloaded, bytes_per_second } => State::Running {
                bytes_downloaded: *bytes_downloaded,
                bytes_per_second: *bytes_per_second,
            },
            State::Error(reason) => State::Error(reason.clone()),
        }
    }
}

/// One progress or terminal event emitted on behalf of a download.
#[derive(Debug, Clone)]
pub struct DownloadUpdate {
    pub id: u128,
    pub state: State,
}

/// The immutable projection of a download returned by list and get queries.
#[derive(Debug, Clone)]
pub struct DownloadMetadata {
    pub id: u128,
    pub url: String,
    pub file_path: String,
    pub download_size: u64,
}

} // verus!
