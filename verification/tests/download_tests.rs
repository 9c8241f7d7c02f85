use ludownloader::config::HttpDownloadConfig;
use ludownloader::download::{
    range_header_value, should_emit, CreationResponse, HttpDownload, ResumeAction, Transfer,
};
use ludownloader::error::Error;

fn ok_response(content_length: u64, ranges: bool) -> CreationResponse {
    CreationResponse {
        status: 200,
        content_length: Some(content_length),
        accept_ranges: if ranges {
            Some(String::from("bytes"))
        } else {
            None
        },
        body: String::new(),
    }
}

fn test_download(content_length: u64, ranges: bool) -> HttpDownload {
    HttpDownload::create(
        String::from("https://example.com/files/data.bin"),
        String::from("/tmp/downloads"),
        String::from("data.bin"),
        None,
        ok_response(content_length, ranges),
    )
    .unwrap()
}

#[test]
fn create_rejects_missing_content_length() {
    let r = HttpDownload::create(
        String::from("https://example.com/f"),
        String::from("/tmp"),
        String::from("f"),
        None,
        CreationResponse {
            status: 200,
            content_length: None,
            accept_ranges: None,
            body: String::new(),
        },
    );
    match r {
        Err(Error::MissingContentLength(url)) => {
            assert_eq!(url, "https://example.com/f");
        }
        _ => panic!("missing Content-Length must be rejected"),
    }
}

#[test]
fn create_rejects_zero_content_length() {
    let r = HttpDownload::create(
        String::from("https://example.com/f"),
        String::from("/tmp"),
        String::from("f"),
        None,
        CreationResponse {
            status: 200,
            content_length: Some(0),
            accept_ranges: None,
            body: String::new(),
        },
    );
    assert!(matches!(r, Err(Error::MissingContentLength(_))));
}

#[test]
fn create_rejects_bad_status() {
    let r = HttpDownload::create(
        String::from("https://example.com/f"),
        String::from("/tmp"),
        String::from("f"),
        None,
        CreationResponse {
            status: 404,
            content_length: Some(5),
            accept_ranges: None,
            body: String::from("not here"),
        },
    );
    match r {
        Err(Error::DownloadNotOk(status, body)) => {
            assert_eq!(status, 404);
            assert_eq!(body, "not here");
            assert_eq!(
                Error::DownloadNotOk(status, body).message(),
                "Download req did not yield 200, instead: '404', body: 'not here'"
            );
        }
        _ => panic!("non-200 must be rejected"),
    }
}

#[test]
fn create_keeps_server_data() {
    let d = test_download(1048576000, true);
    assert_eq!(d.content_length, 1048576000);
    assert!(d.supports_byte_ranges);
    assert_eq!(d.url, "https://example.com/files/data.bin");
    let m = d.get_metadata();
    assert_eq!(m.id, d.id);
    assert_eq!(m.url, d.url);
    assert_eq!(m.file_path, "/tmp/downloads/data.bin");
    assert_eq!(m.download_size, 1048576000);
}

#[test]
fn create_default_config() {
    let d = test_download(10, false);
    let def = HttpDownloadConfig::default();
    assert_eq!(d.config.timeout_millis, def.timeout_millis);
    assert_eq!(d.config.chunk_size, def.chunk_size);
    assert_eq!(d.config.headers, vec![(
        String::from("user-agent"),
        String::from("ludownloader")
    )]);
}

#[test]
fn file_path_joins_with_separator() {
    let d = HttpDownload::create(
        String::from("https://example.com/a"),
        String::from("/data/dir/"),
        String::from("a.bin"),
        None,
        ok_response(1, false),
    )
    .unwrap();
    assert_eq!(d.file_path(), "/data/dir/a.bin");
    let d = HttpDownload::create(
        String::from("https://example.com/a"),
        String::new(),
        String::from("a.bin"),
        None,
        ok_response(1, false),
    )
    .unwrap();
    assert_eq!(d.file_path(), "a.bin");
}

#[test]
fn resume_plan_rejects_already_complete() {
    let d = test_download(1000, true);
    match d.resume_plan(1000) {
        Err(Error::DownloadComplete(b)) => {
            assert_eq!(b, 1000);
            assert_eq!(
                Error::DownloadComplete(b).message(),
                "Download was already finished, downloaded bytes: '1000'"
            );
        }
        _ => panic!("resume of a complete file must fail"),
    }
}

#[test]
fn resume_plan_falls_back_without_ranges() {
    let d = test_download(1000, false);
    assert!(matches!(d.resume_plan(400), Ok(ResumeAction::RestartFromScratch)));
}

#[test]
fn resume_plan_appends_with_ranges() {
    let d = test_download(1000, true);
    assert!(matches!(d.resume_plan(400), Ok(ResumeAction::AppendFrom(400))));
}

#[test]
fn range_header_rendering() {
    assert_eq!(range_header_value(0), "bytes=0-");
    assert_eq!(range_header_value(123), "bytes=123-");
}

#[test]
fn emission_period_boundary() {
    assert!(!should_emit(0));
    assert!(!should_emit(500));
    assert!(should_emit(501));
}

#[test]
fn transfer_counts_chunks() {
    let mut t = Transfer::begin(100, 0);
    t.on_chunk(30);
    t.on_chunk(20);
    assert_eq!(t.downloaded, 50);
    assert_eq!(t.window_bytes, 50);
    match t.finish() {
        Err(Error::StreamEndedBeforeCompletion(b)) => {
            assert_eq!(b, 50);
            assert_eq!(
                Error::StreamEndedBeforeCompletion(b).message(),
                "Download ended before completion, downloaded bytes: '50'"
            );
        }
        _ => panic!("a short stream must be reported as truncated"),
    }
    t.on_chunk(50);
    assert!(matches!(t.finish(), Ok(100)));
}

#[test]
fn transfer_speed_formula() {
    let mut t = Transfer::begin(u64::MAX, 0);
    t.on_chunk(5000);
    // 5000 bytes over 1000 ms scale to exactly 5000 bytes per second.
    let u = t.progress_update(7, 1000);
    assert_eq!(u.id, 7);
    match u.state {
        ludownloader::state::State::Running {
            bytes_downloaded,
            bytes_per_second,
        } => {
            assert_eq!(bytes_downloaded, 5000);
            assert_eq!(bytes_per_second, 5000);
        }
        _ => panic!("progress updates are Running"),
    }
    assert_eq!(t.window_bytes, 0);
    // 1000 bytes over 600 ms truncate to 1666 bytes per second.
    t.on_chunk(1000);
    let u = t.progress_update(7, 600);
    match u.state {
        ludownloader::state::State::Running {
            bytes_per_second, ..
        } => assert_eq!(bytes_per_second, 1666),
        _ => panic!("progress updates are Running"),
    }
    // The reported speed saturates instead of overflowing.
    t.on_chunk(u64::MAX - 6000);
    let u = t.progress_update(7, 1);
    match u.state {
        ludownloader::state::State::Running {
            bytes_per_second, ..
        } => assert_eq!(bytes_per_second, u64::MAX),
        _ => panic!("progress updates are Running"),
    }
}

#[test]
fn transfer_resume_starts_at_offset() {
    let mut t = Transfer::begin(1000, 400);
    assert_eq!(t.downloaded, 400);
    t.on_chunk(600);
    assert!(matches!(t.finish(), Ok(1000)));
}
