//! The per-download item: the run-state wrapper around one download record,
//! and the terminal update its task emits on exit.

use vstd::prelude::*;

use crate::download::{spec_joined_path, spec_same_download, HttpDownload};
use crate::error::{spec_error_message, Error, ManagerError};
use crate::state::{DownloadMetadata, DownloadUpdate, State};

verus! {

/// What the runtime must do after a run command: execute one transfer of
/// this download, in start mode (truncate, from zero) or in resume mode
/// (append, from the on-disk byte count).
#[derive(Debug, Clone)]
pub struct RunRequest {
    pub download: HttpDownload,
    pub resume: bool,
}

/// One download together with its run-state. Idle means no task is in
/// flight; running means one is.
#[derive(Debug, Clone)]
pub struct DownloaderItem {
    pub download: HttpDownload,
    pub running: bool,
}

impl DownloaderItem {
    /// Whether a task is in flight for this item.
    pub open spec fn spec_running(self) -> bool {
        self.running
    }

    /// Wraps a download; no task is in flight yet.
    pub fn new(download: HttpDownload) -> (r: DownloaderItem)
        ensures
            r.download == download,
            !r.spec_running(),
    {
        DownloaderItem { download, running: false }
    }

    /// Whether the item is busy: a run command must be refused now.
    pub fn is_locked(&self) -> (r: bool)
        ensures
            r == self.spec_running(),
    {
        self.running
    }

    /// Accepts a run command: the item transitions to running and hands the
    /// runtime the transfer to execute.
    pub fn run(&mut self, resume: bool) -> (r: RunRequest)
        requires
            !old(self).spec_running(),
        ensures
            final(self).spec_running(),
            final(self).download == old(self).download,
            spec_same_download(r.download, old(self).download),
            r.resume == resume,
    {
        self.running = true;
        RunRequest { download: self.download.duplicate(), resume }
    }

    /// Requests cancellation: from running the item transitions to idle and
    /// the runtime must fire the task's one-shot signal; from idle the
    /// command fails with `NotRunning` and nothing changes.
    pub fn stop(&mut self) -> (r: Result<(), ManagerError>)
        ensures
            final(self).download == old(self).download,
            old(self).spec_running() ==> r is Ok && !final(self).spec_running(),
            !old(self).spec_running() ==> r == Err::<(), ManagerError>(ManagerError::NotRunning)
                && *final(self) == *old(self),
    {
        if self.running {
            self.running = false;
            Ok(())
        } else {
            Err(ManagerError::NotRunning)
        }
    }

    /// Records that the item's task exited on its own: the item is idle
    /// again. Exiting is not a command, so this never fails.
    pub fn complete(&mut self)
        ensures
            final(self).download == old(self).download,
            !final(self).spec_running(),
    {
        self.running = false;
    }

    /// The item's download projection.
    pub fn get_metadata(&self) -> (r: DownloadMetadata)
        ensures
            r.id == self.download.id,
            r.url == self.download.url,
            r.file_path@ == spec_joined_path(self.download.directory@, self.download.filename@),
            r.download_size == self.download.content_length,
    {
        self.download.get_metadata()
    }
}

/// How one run of a download's task ended.
#[derive(Debug)]
pub enum RunOutcome {
    /// Cancellation won the race; the field is the on-disk file size re-read
    /// at this moment.
    Cancelled(u64),
    /// The transfer returned successfully.
    Finished,
    /// The transfer returned an error.
    Failed(Error),
}

/// The unique terminal update of one run: `Paused` with the re-read on-disk
/// size after a cancellation, `Complete` after success, `Error` with the
/// rendered reason after a failure. The result is always terminal.
pub fn terminal_update(id: u128, outcome: RunOutcome) -> (u: DownloadUpdate)
    ensures
        u.id == id,
        u.state.is_terminal(),
        outcome matches RunOutcome::Cancelled(b) ==> (u.state matches State::Paused(bb) && bb == b),
        outcome is Finished ==> u.state is Complete,
        outcome matches RunOutcome::Failed(e) ==> (u.state matches State::Error(m) && m@
            == spec_error_message(e)),
{
    match outcome {
        RunOutcome::Cancelled(bytes_on_disk) => DownloadUpdate {
            id,
            state: State::Paused(bytes_on_disk),
        },
        RunOutcome::Finished => DownloadUpdate { id, state: State::Complete },
        RunOutcome::Failed(e) => DownloadUpdate { id, state: State::Error(e.message()) },
    }
}

/// How many updates of a sequence are terminal.
pub open spec fn spec_terminal_count(updates: Seq<DownloadUpdate>) -> int
    decreases updates.len(),
{
    if updates.len() == 0 {
        0
    } else {
        spec_terminal_count(updates.drop_last()) + if updates.last().state.is_terminal() {
            1int
        } else {
            0int
        }
    }
}

/// One run of a download's task emits its progress updates, all of them
/// `Running`, followed by exactly one terminal update: whatever the outcome,
/// an observer of the run sees exactly one terminal event, it comes after
/// every progress update of the run, and the progress updates are delivered
/// unchanged before it.
pub proof fn lemma_one_terminal_per_run(progress: Seq<DownloadUpdate>, terminal: DownloadUpdate)
    requires
        forall|i: int|
            0 <= i < progress.len() ==> !(#[trigger] progress[i]).state.is_terminal(),
        terminal.state.is_terminal(),
    ensures
        spec_terminal_count(progress.push(terminal)) == 1,
        progress.push(terminal).last() == terminal,
        forall|i: int|
            0 <= i < progress.len() ==> (#[trigger] progress.push(terminal)[i]) == progress[i],
    decreases progress.len(),
{
    lemma_no_terminal_counts_zero(progress);
    assert(progress.push(terminal).drop_last() =~= progress);
    assert(progress.push(terminal).last() == terminal);
}

proof fn lemma_no_terminal_counts_zero(progress: Seq<DownloadUpdate>)
    requires
        forall|i: int|
            0 <= i < progress.len() ==> !(#[trigger] progress[i]).state.is_terminal(),
    ensures
        spec_terminal_count(progress) == 0,
    decreases progress.len(),
{
    if progress.len() > 0 {
        let dl = progress.drop_last();
        assert(forall|i: int| 0 <= i < dl.len() ==> (#[trigger] dl[i]) == progress[i]);
        lemma_no_terminal_counts_zero(dl);
        assert(progress[progress.len() - 1] == progress.last());
    }
}

} // verus!
