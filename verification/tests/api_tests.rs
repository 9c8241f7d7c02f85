use ludownloader::api::{
    create_download, dedup_filename, delete_download, get_download, pause_download, plan_create,
    resume_download, start_download,
};
use ludownloader::download::CreationResponse;
use ludownloader::manager::ManagerInner;
use ludownloader::observer::DownloadObserver;
use ludownloader::state::State;

fn ok_response(content_length: u64) -> CreationResponse {
    CreationResponse {
        status: 200,
        content_length: Some(content_length),
        accept_ranges: Some(String::from("bytes")),
        body: String::new(),
    }
}

#[test]
fn bad_url_is_rejected_with_400() {
    let e = plan_create("hgesdg98wq19").unwrap_err();
    assert_eq!(e.status, 400);
    assert!(e.message.contains("Invalid URL"));
}

#[test]
fn url_without_filename_is_rejected() {
    let e = plan_create("https://example.com/").unwrap_err();
    assert_eq!(e.status, 400);
    assert_eq!(e.message, "Couldn't parse filename from url");
}

#[test]
fn plan_create_derives_url_and_filename() {
    let plan = plan_create("https://example.com/files/data.bin").unwrap();
    assert_eq!(plan.url, "https://example.com/files/data.bin");
    assert_eq!(plan.filename, "data.bin");
}

#[test]
fn dedup_keeps_fresh_name() {
    let name = dedup_filename(String::from("data.bin"), false);
    assert_eq!(name, "data.bin");
}

#[test]
fn dedup_prefixes_existing_name() {
    let name = dedup_filename(String::from("data.bin"), true);
    assert_eq!(name.len(), 37 + "data.bin".len());
    assert_eq!(&name[36..37], "-");
    assert_eq!(&name[37..], "data.bin");
    assert!(uuid::Uuid::parse_str(&name[..36]).is_ok());
}

#[test]
fn create_download_upstream_failure_is_500() {
    let e = create_download(
        String::from("http://ahahahahahaha_wtf.com/something.zip"),
        String::from("/tmp"),
        String::from("something.zip"),
        CreationResponse {
            status: 503,
            content_length: None,
            accept_ranges: None,
            body: String::from("unreachable"),
        },
    )
    .unwrap_err();
    assert_eq!(e.status, 500);
    assert!(e.message.contains("Error creating download"));
}

#[test]
fn create_download_success_projects_metadata() {
    let (download, metadata) = create_download(
        String::from("https://example.com/files/data.bin"),
        String::from("/tmp/downloads"),
        String::from("data.bin"),
        ok_response(1048576000),
    )
    .unwrap();
    assert_eq!(metadata.id, download.id);
    assert_eq!(metadata.download_size, 1048576000);
    assert_eq!(metadata.file_path, "/tmp/downloads/data.bin");
}

#[test]
fn handlers_report_unknown_ids() {
    let mut manager = ManagerInner::new();
    let mut observer = DownloadObserver::new();
    let e = start_download(&mut manager, 3).unwrap_err();
    assert_eq!(e.status, 400);
    assert!(e.message.starts_with("Couldn't start Download: "));
    let e = resume_download(&mut manager, 3).unwrap_err();
    assert_eq!(e.status, 400);
    assert!(e.message.starts_with("Couldn't resume Download: "));
    let e = pause_download(&mut manager, 3).unwrap_err();
    assert_eq!(e.status, 400);
    assert!(e.message.starts_with("Couldn't stop Download: "));
    let e = delete_download(&mut manager, &mut observer, 3).unwrap_err();
    assert_eq!(e.status, 400);
    assert_eq!(
        e.message,
        "Couldn't delete Download: Download with id 00000000-0000-0000-0000-000000000003 not found"
    );
    let e = get_download(&manager, &observer, 3).unwrap_err();
    assert_eq!(e.status, 400);
    assert!(e.message.starts_with("Error getting download_metadata: "));
}

#[test]
fn handler_lifecycle() {
    let mut manager = ManagerInner::new();
    let mut observer = DownloadObserver::new();
    let (download, metadata) = create_download(
        String::from("https://example.com/files/data.bin"),
        String::from("/tmp/downloads"),
        String::from("data.bin"),
        ok_response(1000),
    )
    .unwrap();
    let id = manager.add(download);
    observer.track(id, State::Paused(0));

    let (m, s) = get_download(&manager, &observer, id).unwrap();
    assert_eq!(m.id, metadata.id);
    assert!(matches!(s, State::Paused(0)));

    let req = start_download(&mut manager, id).unwrap();
    assert!(!req.resume);
    assert!(pause_download(&mut manager, id).is_ok());
    let req = resume_download(&mut manager, id).unwrap();
    assert!(req.resume);
    manager.complete(id);

    let item = delete_download(&mut manager, &mut observer, id).unwrap();
    assert_eq!(item.download.id, id);
    assert!(observer.get_state(id).is_none());
    // A state arriving after the delete is not installed.
    observer.update(&vec![(id, State::Complete)]);
    assert!(observer.get_state(id).is_none());
}

#[test]
fn get_download_without_tracked_state() {
    let mut manager = ManagerInner::new();
    let observer = DownloadObserver::new();
    let (download, _) = create_download(
        String::from("https://example.com/files/data.bin"),
        String::from("/tmp"),
        String::from("data.bin"),
        ok_response(1000),
    )
    .unwrap();
    let id = manager.add(download);
    let e = get_download(&manager, &observer, id).unwrap_err();
    assert_eq!(e.status, 400);
    assert!(e.message.starts_with("Error getting download_state: "));
}
