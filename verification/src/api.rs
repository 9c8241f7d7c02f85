//! The control surface: the decision core of each HTTP route. Every handler
//! here takes plain values and the registry or observer, decides, and hands
//! back either the successful payload or the status code and error message
//! the route must answer with. The routes around it only parse requests,
//! perform I/O, and encode responses.

use vstd::prelude::*;

use crate::download::{spec_same_download, CreationResponse, HttpDownload};
use crate::error::{
    spec_error_message, spec_manager_error_message, Error, ManagerError,
};
use crate::item::{DownloaderItem, RunRequest};
use crate::manager::{spec_metadata_of, ManagerInner};
use crate::numfmt::uuid_chars;
use crate::numfmt::uuid_string;
use crate::observer::DownloadObserver;
use crate::state::{DownloadMetadata, State};
use crate::util::{
    new_uuid, parse_url, spec_parse_filename, url_has_segments, url_parses, url_path_of,
    url_string_of, ParsedUrl,
};

verus! {

/// What a failed route answers with: an HTTP status code and the message of
/// its JSON error body.
#[derive(Debug, Clone)]
pub struct ApiError {
    pub status: u16,
    pub message: String,
}

/// The two creation-time inputs derived from the raw URL string: the
/// normalized URL and the filename to download to.
#[derive(Debug, Clone)]
pub struct CreatePlan {
    pub url: String,
    pub filename: String,
}

/// Derives the creation plan from the submitted URL string. A string that
/// does not parse as a URL is rejected with 400 and an `Invalid URL` message;
/// a URL without a usable last path segment is rejected with 400 and a
/// filename message.
pub fn plan_create(raw_url: &str) -> (r: Result<CreatePlan, ApiError>)
    ensures
        !url_parses(raw_url@) ==> (r matches Err(e) && e.status == 400 && e.message@
            == "Invalid URL, couldn't parse the download link"@),
        url_parses(raw_url@) && !(url_has_segments(raw_url@) && spec_parse_filename(
            url_path_of(raw_url@),
        ) is Some) ==> (r matches Err(e) && e.status == 400 && e.message@
            == "Couldn't parse filename from url"@),
        url_parses(raw_url@) && url_has_segments(raw_url@) && spec_parse_filename(
            url_path_of(raw_url@),
        ) is Some ==> (r matches Ok(plan) && plan.url@ == url_string_of(raw_url@) && Some(
            plan.filename@,
        ) == spec_parse_filename(url_path_of(raw_url@))),
    {
        let parsed: ParsedUrl = match parse_url(raw_url) {
            Some(p) => p,
            None => {
                return Err(
                    ApiError {
                        status: 400,
                        message: ("Invalid URL, couldn't parse the download link").to_owned(),
                    },
                );
            },
        };
        if !parsed.has_segments {
            return Err(
                ApiError { status: 400, message: ("Couldn't parse filename from url").to_owned() },
            );
        }
        match crate::util::parse_filename(parsed.path.as_str()) {
            Some(filename) => Ok(CreatePlan { url: parsed.full, filename }),
            None => Err(
                ApiError { status: 400, message: ("Couldn't parse filename from url").to_owned() },
            ),
        }
    }

/// Settles the filename against the target directory: when a file with this
/// basename already exists there, a fresh identifier and a dash are put in
/// front, so two downloads never share a file.
pub fn dedup_filename(filename: String, exists: bool) -> (r: String)
    ensures
        !exists ==> r == filename,
        exists ==> exists|u: u128| r@ == uuid_chars(u) + seq!['-'] + filename@,
        exists ==> r@.len() == 37 + filename@.len(),
{
    if exists {
        proof {
            reveal_strlit("-");
        }
        let u = new_uuid();
        let mut s = uuid_string(u);
        s.append("-");
        s.append(filename.as_str());
        proof {
            assert("-"@ =~= seq!['-']);
            assert(s@ =~= uuid_chars(u) + seq!['-'] + filename@);
            crate::numfmt::lemma_uuid_chars_len(u);
        }
        s
    } else {
        filename
    }
}

/// Materializes the download from the creation response and projects its
/// metadata. A creation failure is answered with 500 and the rendered
/// reason; the route answers a success with 201 and the metadata.
pub fn create_download(
    url: String,
    directory: String,
    filename: String,
    resp: CreationResponse,
) -> (r: Result<(HttpDownload, DownloadMetadata), ApiError>)
    ensures
        resp.status == 200 && (resp.content_length matches Some(len) && len > 0) ==> (
        r matches Ok(pair) && {
            &&& pair.0.wf()
            &&& pair.0.url == url
            &&& pair.0.directory == directory
            &&& pair.0.filename == filename
            &&& Some(pair.0.content_length) == resp.content_length
            &&& spec_metadata_of(pair.1, pair.0)
        }),
        resp.status != 200 ==> (r matches Err(e) && e.status == 500 && e.message@
            == "Error creating download: "@ + spec_error_message(
            Error::DownloadNotOk(resp.status, resp.body),
        )),
        resp.status == 200 && (resp.content_length is None || resp.content_length == Some(0u64))
            ==> (r matches Err(e) && e.status == 500 && e.message@
            == "Error creating download: "@ + spec_error_message(Error::MissingContentLength(url))),
{
    match HttpDownload::create(url, directory, filename, None, resp) {
        Ok(download) => {
            let metadata = download.get_metadata();
            Ok((download, metadata))
        },
        Err(e) => {
            let mut message = ("Error creating download: ").to_owned();
            message.append(e.message().as_str());
            proof {
                let ghost de = e;
                assert(message@ == "Error creating download: "@ + spec_error_message(de));
            }
            Err(ApiError { status: 500, message })
        },
    }
}

/// Accepts a start command: on success the route answers 200 and the runtime
/// executes the transfer handed back; otherwise 400 with the rendered
/// reason.
pub fn start_download(manager: &mut ManagerInner, id: u128) -> (r: Result<RunRequest, ApiError>)
    requires
        old(manager).wf(),
    ensures
        final(manager).wf(),
        old(manager)@.dom().contains(id) && !old(manager)@[id].spec_running() ==> (r matches Ok(
            req,
        ) && {
            &&& !req.resume
            &&& req.download.id == id
            &&& spec_same_download(req.download, old(manager)@[id].download)
            &&& final(manager)@.dom().contains(id)
            &&& final(manager)@[id].download == old(manager)@[id].download
            &&& final(manager)@[id].spec_running()
            &&& final(manager)@ == old(manager)@.insert(id, final(manager)@[id])
        }),
        !old(manager)@.dom().contains(id) ==> (r matches Err(e) && e.status == 400
            && final(manager)@ == old(manager)@ && e.message@ == "Couldn't start Download: "@
            + spec_manager_error_message(ManagerError::NotFound(id))),
        old(manager)@.dom().contains(id) && old(manager)@[id].spec_running() ==> (r matches Err(e)
            && e.status == 400 && final(manager)@ == old(manager)@ && e.message@ == "Couldn't start Download: "@
            + spec_manager_error_message(ManagerError::AlreadyRunning)),
{
    proof {
        old(manager).lemma_ids_coherent();
    }
    match manager.run(id, false) {
        Ok(req) => Ok(req),
        Err(e) => {
            let mut message = ("Couldn't start Download: ").to_owned();
            message.append(e.message().as_str());
            Err(ApiError { status: 400, message })
        },
    }
}

/// Accepts a resume command: as a start command, but the transfer appends.
pub fn resume_download(manager: &mut ManagerInner, id: u128) -> (r: Result<RunRequest, ApiError>)
    requires
        old(manager).wf(),
    ensures
        final(manager).wf(),
        old(manager)@.dom().contains(id) && !old(manager)@[id].spec_running() ==> (r matches Ok(
            req,
        ) && {
            &&& req.resume
            &&& req.download.id == id
            &&& spec_same_download(req.download, old(manager)@[id].download)
            &&& final(manager)@.dom().contains(id)
            &&& final(manager)@[id].download == old(manager)@[id].download
            &&& final(manager)@[id].spec_running()
            &&& final(manager)@ == old(manager)@.insert(id, final(manager)@[id])
        }),
        !old(manager)@.dom().contains(id) ==> (r matches Err(e) && e.status == 400
            && final(manager)@ == old(manager)@ && e.message@ == "Couldn't resume Download: "@
            + spec_manager_error_message(ManagerError::NotFound(id))),
        old(manager)@.dom().contains(id) && old(manager)@[id].spec_running() ==> (r matches Err(e)
            && e.status == 400 && final(manager)@ == old(manager)@ && e.message@ == "Couldn't resume Download: "@
            + spec_manager_error_message(ManagerError::AlreadyRunning)),
{
    proof {
        old(manager).lemma_ids_coherent();
    }
    match manager.run(id, true) {
        Ok(req) => Ok(req),
        Err(e) => {
            let mut message = ("Couldn't resume Download: ").to_owned();
            message.append(e.message().as_str());
            Err(ApiError { status: 400, message })
        },
    }
}

/// Accepts a pause command: on success the route answers 200; otherwise 400
/// with the rendered reason.
pub fn pause_download(manager: &mut ManagerInner, id: u128) -> (r: Result<(), ApiError>)
    requires
        old(manager).wf(),
    ensures
        final(manager).wf(),
        old(manager)@.dom().contains(id) && old(manager)@[id].spec_running() ==> (r is Ok && {
            &&& final(manager)@.dom().contains(id)
            &&& final(manager)@[id].download == old(manager)@[id].download
            &&& !final(manager)@[id].spec_running()
            &&& final(manager)@ == old(manager)@.insert(id, final(manager)@[id])
        }),
        !old(manager)@.dom().contains(id) ==> (r matches Err(e) && e.status == 400
            && final(manager)@ == old(manager)@ && e.message@ == "Couldn't stop Download: "@
            + spec_manager_error_message(ManagerError::NotFound(id))),
        old(manager)@.dom().contains(id) && !old(manager)@[id].spec_running() ==> (
        r matches Err(e) && e.status == 400 && final(manager)@ == old(manager)@ && e.message@
            == "Couldn't stop Download: "@ + spec_manager_error_message(ManagerError::NotRunning)),
{
    match manager.stop(id) {
        Ok(()) => Ok(()),
        Err(e) => {
            let mut message = ("Couldn't stop Download: ").to_owned();
            message.append(e.message().as_str());
            Err(ApiError { status: 400, message })
        },
    }
}

/// Accepts a delete command: the entry leaves the registry and the observer
/// stops tracking the id, so no later batch installs state for it. The item
/// comes back so the runtime can cancel its task and, if asked, unlink its
/// file. An unknown id is answered with 400.
pub fn delete_download(
    manager: &mut ManagerInner,
    observer: &mut DownloadObserver,
    id: u128,
) -> (r: Result<DownloaderItem, ApiError>)
    requires
        old(manager).wf(),
        old(observer).wf(),
    ensures
        final(manager).wf(),
        final(observer).wf(),
        old(manager)@.dom().contains(id) ==> (r matches Ok(item) && item == old(manager)@[id]
            && final(manager)@ == old(manager)@.remove(id) && final(observer)@ == old(
            observer,
        )@.remove(id)),
        !old(manager)@.dom().contains(id) ==> (r matches Err(e) && e.status == 400
            && final(manager)@ == old(manager)@ && final(observer)@ == old(observer)@ && e.message@
            == "Couldn't delete Download: "@ + spec_manager_error_message(
            ManagerError::NotFound(id),
        )),
{
    match manager.delete(id) {
        Ok(item) => {
            observer.untrack(id);
            Ok(item)
        },
        Err(e) => {
            let mut message = ("Couldn't delete Download: ").to_owned();
            message.append(e.message().as_str());
            Err(ApiError { status: 400, message })
        },
    }
}

/// Serves the point query: the metadata and current state of one download.
/// An id the registry does not know is answered with 400 and a metadata
/// message; one the observer does not track, with 400 and a state message.
pub fn get_download(
    manager: &ManagerInner,
    observer: &DownloadObserver,
    id: u128,
) -> (r: Result<(DownloadMetadata, State), ApiError>)
    requires
        manager.wf(),
        observer.wf(),
    ensures
        manager@.dom().contains(id) && observer@.dom().contains(id) ==> (r matches Ok(pair)
            && spec_metadata_of(pair.0, manager@[id].download) && pair.0.id == id && pair.1
            == observer@[id]),
        !manager@.dom().contains(id) ==> (r matches Err(e) && e.status == 400 && e.message@
            == "Error getting download_metadata: "@ + spec_manager_error_message(
            ManagerError::NotFound(id),
        )),
        manager@.dom().contains(id) && !observer@.dom().contains(id) ==> (r matches Err(e)
            && e.status == 400 && e.message@ == "Error getting download_state: "@ + uuid_chars(id)),
{
    let metadata = match manager.get_metadata(id) {
        Ok(m) => m,
        Err(e) => {
            let mut message = ("Error getting download_metadata: ").to_owned();
            message.append(e.message().as_str());
            return Err(ApiError { status: 400, message });
        },
    };
    match observer.get_state(id) {
        Some(s) => Ok((metadata, s)),
        None => {
            let mut message = ("Error getting download_state: ").to_owned();
            message.append(uuid_string(id).as_str());
            Err(ApiError { status: 400, message })
        },
    }
}

} // verus!
