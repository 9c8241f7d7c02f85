use ludownloader::error::{Error, ManagerError};

#[test]
fn download_error_messages() {
    assert_eq!(
        Error::Io(String::from("permission denied")).message(),
        "File IO operation failed, error: 'permission denied'"
    );
    assert_eq!(
        Error::Request(String::from("connection reset")).message(),
        "Request error: 'connection reset'"
    );
    assert_eq!(
        Error::MissingContentLength(String::from("https://example.com/f")).message(),
        "Content length not provided for url: 'https://example.com/f'"
    );
    assert_eq!(
        Error::DownloadComplete(42).message(),
        "Download was already finished, downloaded bytes: '42'"
    );
    assert_eq!(
        Error::StreamEndedBeforeCompletion(0).message(),
        "Download ended before completion, downloaded bytes: '0'"
    );
    assert_eq!(
        Error::DownloadNotOk(503, String::from("busy")).message(),
        "Download req did not yield 200, instead: '503', body: 'busy'"
    );
}

#[test]
fn manager_error_messages() {
    assert_eq!(
        ManagerError::NotFound(0xf81d4fae7dec11d0a76500a0c91e6bf6).message(),
        "Download with id f81d4fae-7dec-11d0-a765-00a0c91e6bf6 not found"
    );
    assert_eq!(
        ManagerError::AlreadyRunning.message(),
        "Download is already locked, probably running already or locked up by pending operation!"
    );
    assert_eq!(
        ManagerError::NotRunning.message(),
        "Can't stop a download that is not running"
    );
}
