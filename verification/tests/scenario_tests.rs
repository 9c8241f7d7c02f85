//! End-to-end scenarios driving the registry, the transfer accounting, the
//! aggregator and the observer together, the way the runtime drives them.

use ludownloader::api::{create_download, plan_create};
use ludownloader::download::{CreationResponse, ResumeAction, Transfer};
use ludownloader::item::{terminal_update, RunOutcome};
use ludownloader::manager::ManagerInner;
use ludownloader::observer::DownloadObserver;
use ludownloader::publisher::DownloadUpdatePublisher;
use ludownloader::state::State;

fn ok_response(content_length: u64) -> CreationResponse {
    CreationResponse {
        status: 200,
        content_length: Some(content_length),
        accept_ranges: Some(String::from("bytes")),
        body: String::new(),
    }
}

#[test]
fn create_and_complete() {
    // An origin announcing 1048576000 bytes with byte-range support.
    let plan = plan_create("https://example.com/files/big.bin").unwrap();
    let (download, metadata) = create_download(
        plan.url,
        String::from("/tmp/downloads"),
        plan.filename,
        ok_response(1048576000),
    )
    .unwrap();
    assert_eq!(metadata.download_size, 1048576000);

    // The start run streams the whole resource in chunks.
    let mut transfer = Transfer::begin(download.content_length, 0);
    let chunk = 262144000u64;
    for _ in 0..4 {
        transfer.on_chunk(chunk);
    }
    let downloaded = transfer.finish().unwrap();
    assert_eq!(downloaded, 1048576000, "file size equals content_length");
    let terminal = terminal_update(download.id, RunOutcome::Finished);
    assert!(matches!(terminal.state, State::Complete));
}

#[test]
fn start_poll_complete() {
    let mut manager = ManagerInner::new();
    let mut observer = DownloadObserver::new();
    let mut publisher = DownloadUpdatePublisher::new();

    let (download, _) = create_download(
        String::from("https://example.com/files/data.bin"),
        String::from("/tmp/downloads"),
        String::from("data.bin"),
        ok_response(1000),
    )
    .unwrap();
    let content_length = download.content_length;
    let id = manager.add(download);
    observer.track(id, State::Paused(0));

    let req = manager.run(id, false).unwrap();
    assert!(!req.resume);

    // The transfer runs; periodic Running updates flow through the
    // aggregator; polls in between see Paused or Running, never Complete.
    let mut transfer = Transfer::begin(content_length, 0);
    for _ in 0..4 {
        transfer.on_chunk(250);
        let update = transfer.progress_update(id, 600);
        if let Some(batch) = publisher.consume(update, 600) {
            observer.update(&batch);
        }
        let state = observer.get_state(id).unwrap();
        assert!(
            matches!(state, State::Paused(_) | State::Running { .. }),
            "not terminal while the task runs"
        );
    }
    let downloaded = transfer.finish().unwrap();
    assert_eq!(downloaded, content_length);

    // The terminal event is consumed and flushed; the poll now sees
    // Complete.
    manager.complete(id);
    let terminal = terminal_update(id, RunOutcome::Finished);
    let batch = publisher.consume(terminal, 600).unwrap();
    observer.update(&batch);
    assert!(matches!(observer.get_state(id), Some(State::Complete)));
}

#[test]
fn pause_resume_parity() {
    let (download, _) = create_download(
        String::from("https://example.com/files/data.bin"),
        String::from("/tmp/downloads"),
        String::from("data.bin"),
        ok_response(1000),
    )
    .unwrap();

    // Start, transfer part of the resource, then cancellation wins the race.
    let mut transfer = Transfer::begin(download.content_length, 0);
    transfer.on_chunk(300);
    transfer.on_chunk(100);
    let paused1 = transfer.downloaded;
    let terminal = terminal_update(download.id, RunOutcome::Cancelled(paused1));
    let State::Paused(paused_bytes) = terminal.state else {
        panic!("cancellation pauses");
    };
    assert_eq!(paused_bytes, 400);
    assert!(paused1 < download.content_length);

    // Resume appends from the on-disk count and runs to completion.
    let plan = download.resume_plan(paused_bytes).unwrap();
    assert!(matches!(plan, ResumeAction::AppendFrom(400)));
    let mut resumed = Transfer::begin(download.content_length, paused_bytes);
    resumed.on_chunk(600);
    let downloaded = resumed.finish().unwrap();
    assert_eq!(downloaded, download.content_length);
}

#[test]
fn stop_all_start_all_keeps_progress() {
    let mut manager = ManagerInner::new();
    let (download, _) = create_download(
        String::from("https://example.com/files/data.bin"),
        String::from("/tmp/downloads"),
        String::from("data.bin"),
        ok_response(1000),
    )
    .unwrap();
    let content_length = download.content_length;
    let id = manager.add(download);

    // Run and pause at 350 bytes on disk.
    assert!(manager.run(id, false).is_ok());
    let mut transfer = Transfer::begin(content_length, 0);
    transfer.on_chunk(350);
    manager.stop_all();
    let paused_at = transfer.downloaded;

    // start_all resumes every idle download from its on-disk bytes; the
    // resumed run's counters never fall below the paused value.
    let reqs = manager.start_all();
    assert_eq!(reqs.len(), 1);
    assert!(reqs[0].resume);
    let mut resumed = Transfer::begin(content_length, paused_at);
    assert!(resumed.downloaded >= paused_at);
    resumed.on_chunk(200);
    assert!(resumed.downloaded >= paused_at);
    let update = resumed.progress_update(id, 600);
    let State::Running {
        bytes_downloaded, ..
    } = update.state
    else {
        panic!("progress updates are Running");
    };
    assert!(bytes_downloaded >= paused_at);
}

#[test]
fn running_counter_is_monotonic() {
    let mut transfer = Transfer::begin(u64::MAX, 0);
    let mut last = 0u64;
    for chunk in [5u64, 0, 17, 1, 1000, 0, 3] {
        transfer.on_chunk(chunk);
        assert!(transfer.downloaded >= last);
        last = transfer.downloaded;
    }
}
