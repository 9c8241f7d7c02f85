//! The error taxonomy of the download engine and the registry, with their
//! rendered messages.

use vstd::prelude::*;

use crate::numfmt::{dec_chars, decimal_string, uuid_chars, uuid_string};

verus! {

/// What can go wrong while creating or running one download.
#[derive(Debug, Clone)]
pub enum Error {
    /// A file create, open or write failed; the field is the rendered
    /// operating-system error.
    Io(String),
    /// The HTTP request failed below the protocol; the field is the rendered
    /// transport error.
    Request(String),
    /// The creation response did not disclose a `Content-Length`; the field
    /// is the URL.
    MissingContentLength(String),
    /// A resume was attempted on a fully downloaded file; the field is the
    /// byte count on disk.
    DownloadComplete(u64),
    /// The response body ended below `content_length`; the field is the byte
    /// count reached.
    StreamEndedBeforeCompletion(u64),
    /// The creation response status was not 200; the fields are the status
    /// code and the response body.
    DownloadNotOk(u16, String),
}

/// The rendered message of a download error.
pub open spec fn spec_error_message(e: Error) -> Seq<char> {
    match e {
        Error::Io(s) => "File IO operation failed, error: '"@ + s@ + "'"@,
        Error::Request(s) => "Request error: '"@ + s@ + "'"@,
        Error::MissingContentLength(url) => "Content length not provided for url: '"@ + url@
            + "'"@,
        Error::DownloadComplete(bytes) => "Download was already finished, downloaded bytes: '"@
            + dec_chars(bytes as nat) + "'"@,
        Error::StreamEndedBeforeCompletion(bytes) =>
        "Download ended before completion, downloaded bytes: '"@ + dec_chars(bytes as nat) + "'"@,
        Error::DownloadNotOk(status, body) => "Download req did not yield 200, instead: '"@
            + dec_chars(status as nat) + "', body: '"@ + body@ + "'"@,
    }
}

impl Error {
    /// Renders the error as its message.
    pub fn message(&self) -> (r: String)
        ensures
            r@ == spec_error_message(*self),
    {
        match self {
            Error::Io(s) => {
                let mut m = ("File IO operation failed, error: '").to_owned();
                m.append(s.as_str());
                m.append("'");
                m
            },
            Error::Request(s) => {
                let mut m = ("Request error: '").to_owned();
                m.append(s.as_str());
                m.append("'");
                m
            },
            Error::MissingContentLength(url) => {
                let mut m = ("Content length not provided for url: '").to_owned();
                m.append(url.as_str());
                m.append("'");
                m
            },
            Error::DownloadComplete(bytes) => {
                let mut m = ("Download was already finished, downloaded bytes: '").to_owned();
                m.append(decimal_string(*bytes).as_str());
                m.append("'");
                m
            },
            Error::StreamEndedBeforeCompletion(bytes) => {
                let mut m = ("Download ended before completion, downloaded bytes: '").to_owned();
                m.append(decimal_string(*bytes).as_str());
                m.append("'");
                m
            },
            Error::DownloadNotOk(status, body) => {
                let mut m = ("Download req did not yield 200, instead: '").to_owned();
                m.append(decimal_string(*status as u64).as_str());
                m.append("', body: '");
                m.append(body.as_str());
                m.append("'");
                m
            },
        }
    }
}

/// What can go wrong in a registry command.
#[derive(Debug, Clone)]
pub enum ManagerError {
    /// No download with this id is registered.
    NotFound(u128),
    /// A run was requested while a task is already in flight.
    AlreadyRunning,
    /// A stop was requested while no task is in flight.
    NotRunning,
}

/// The rendered message of a registry error.
pub open spec fn spec_manager_error_message(e: ManagerError) -> Seq<char> {
    match e {
        ManagerError::NotFound(id) => "Download with id "@ + uuid_chars(id) + " not found"@,
        ManagerError::AlreadyRunning =>
        "Download is already locked, probably running already or locked up by pending operation!"@,
        ManagerError::NotRunning => "Can't stop a download that is not running"@,
    }
}

impl ManagerError {
    /// Renders the error as its message.
    pub fn message(&self) -> (r: String)
        ensures
            r@ == spec_manager_error_message(*self),
    {
        match self {
            ManagerError::NotFound(id) => {
                let mut m = ("Download with id ").to_owned();
                m.append(uuid_string(*id).as_str());
                m.append(" not found");
                m
            },
            ManagerError::AlreadyRunning => (
            "Download is already locked, probably running already or locked up by pending operation!").to_owned(),
            ManagerError::NotRunning => ("Can't stop a download that is not running").to_owned(),
        }
    }
}

} // verus!
