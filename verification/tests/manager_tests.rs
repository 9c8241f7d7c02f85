use ludownloader::download::{CreationResponse, HttpDownload};
use ludownloader::error::ManagerError;
use ludownloader::manager::ManagerInner;

fn test_download(url: &str) -> HttpDownload {
    HttpDownload::create(
        String::from(url),
        String::from("/tmp/downloads"),
        String::from("data.bin"),
        None,
        CreationResponse {
            status: 200,
            content_length: Some(1000),
            accept_ranges: Some(String::from("bytes")),
            body: String::new(),
        },
    )
    .unwrap()
}

#[test]
fn add_get_metadata_roundtrip() {
    let mut manager = ManagerInner::new();
    let d = test_download("https://example.com/files/data.bin");
    let url = d.url.clone();
    let path = d.file_path();
    let size = d.content_length;
    let id = manager.add(d);
    let m = manager.get_metadata(id).unwrap();
    assert_eq!(m.id, id);
    assert_eq!(m.url, url);
    assert_eq!(m.file_path, path);
    assert_eq!(m.download_size, size);
}

#[test]
fn get_metadata_unknown_id() {
    let manager = ManagerInner::new();
    match manager.get_metadata(7) {
        Err(ManagerError::NotFound(id)) => {
            assert_eq!(id, 7);
            assert_eq!(
                ManagerError::NotFound(id).message(),
                "Download with id 00000000-0000-0000-0000-000000000007 not found"
            );
        }
        _ => panic!("an unknown id must be NotFound"),
    }
}

#[test]
fn run_twice_is_already_running() {
    let mut manager = ManagerInner::new();
    let id = manager.add(test_download("https://example.com/a"));
    let req = manager.run(id, false).unwrap();
    assert!(!req.resume);
    match manager.run(id, false) {
        Err(ManagerError::AlreadyRunning) => {
            assert_eq!(
                ManagerError::AlreadyRunning.message(),
                "Download is already locked, probably running already or locked up by pending operation!"
            );
        }
        _ => panic!("a second run must be refused"),
    }
}

#[test]
fn stop_idle_is_not_running() {
    let mut manager = ManagerInner::new();
    let id = manager.add(test_download("https://example.com/a"));
    match manager.stop(id) {
        Err(ManagerError::NotRunning) => {
            assert_eq!(
                ManagerError::NotRunning.message(),
                "Can't stop a download that is not running"
            );
        }
        _ => panic!("stopping an idle item must be refused"),
    }
}

#[test]
fn run_stop_run_cycle() {
    let mut manager = ManagerInner::new();
    let id = manager.add(test_download("https://example.com/a"));
    assert!(manager.run(id, false).is_ok());
    assert!(manager.stop(id).is_ok());
    let req = manager.run(id, true).unwrap();
    assert!(req.resume);
}

#[test]
fn complete_unlocks_item() {
    let mut manager = ManagerInner::new();
    let id = manager.add(test_download("https://example.com/a"));
    assert!(manager.run(id, false).is_ok());
    manager.complete(id);
    assert!(manager.run(id, false).is_ok());
}

#[test]
fn delete_removes_entry() {
    let mut manager = ManagerInner::new();
    let id = manager.add(test_download("https://example.com/a"));
    assert_eq!(manager.len(), 1);
    let item = manager.delete(id).unwrap();
    assert_eq!(item.download.id, id);
    assert_eq!(manager.len(), 0);
    assert!(matches!(manager.delete(id), Err(ManagerError::NotFound(_))));
}

#[test]
fn bulk_metadata_snapshot() {
    let mut manager = ManagerInner::new();
    let url = "https://example.com/files/data.bin";
    let mut ids = Vec::new();
    for _ in 0..20 {
        ids.push(manager.add(test_download(url)));
    }
    let all = manager.get_metadata_all();
    assert_eq!(all.len(), 20);
    for m in &all {
        assert_eq!(m.url, url);
        assert!(ids.contains(&m.id));
    }
    for id in &ids {
        assert!(all.iter().any(|m| m.id == *id));
    }
}

#[test]
fn stop_all_then_start_all() {
    let mut manager = ManagerInner::new();
    let a = manager.add(test_download("https://example.com/a"));
    let b = manager.add(test_download("https://example.com/b"));
    assert!(manager.run(a, false).is_ok());
    manager.stop_all();
    // Both idle now: a was cancelled, b never ran.
    let reqs = manager.start_all();
    assert_eq!(reqs.len(), 2);
    for req in &reqs {
        assert!(req.resume, "start_all resumes so partial files continue");
        assert!(req.download.id == a || req.download.id == b);
    }
    // Everything is running now: a second start_all has nothing to do.
    let reqs = manager.start_all();
    assert_eq!(reqs.len(), 0);
}

#[test]
fn start_all_skips_running_items() {
    let mut manager = ManagerInner::new();
    let a = manager.add(test_download("https://example.com/a"));
    let b = manager.add(test_download("https://example.com/b"));
    assert!(manager.run(a, false).is_ok());
    let reqs = manager.start_all();
    assert_eq!(reqs.len(), 1);
    assert_eq!(reqs[0].download.id, b);
}
