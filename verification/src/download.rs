//! One HTTP download: the immutable record created from the origin's
//! metadata response, the planning of start and resume runs, and the
//! byte accounting of the streaming loop.

use vstd::prelude::*;

use crate::config::HttpDownloadConfig;
use crate::error::Error;
use crate::numfmt::dec_chars;
use crate::numfmt::decimal_string;
use crate::state::{DownloadMetadata, DownloadUpdate, State};
use crate::util::new_uuid;
use crate::HALF_SECOND_MS;

verus! {

/// The plain-value projection of the creation response: its status code, the
/// `Content-Length` it disclosed, the value of its `Accept-Ranges` header,
/// and its body text (kept for the non-200 error).
#[derive(Debug, Clone)]
pub struct CreationResponse {
    pub status: u16,
    pub content_length: Option<u64>,
    pub accept_ranges: Option<String>,
    pub body: String,
}

/// Whether the creation response says the origin supports byte ranges.
pub open spec fn spec_response_supports_ranges(resp: CreationResponse) -> bool {
    resp.accept_ranges matches Some(v) && v@ == "bytes"@
}

/// The file path a download writes to: the directory joined with the
/// filename by a single separator.
pub open spec fn spec_joined_path(dir: Seq<char>, name: Seq<char>) -> Seq<char> {
    if dir.len() == 0 {
        name
    } else if dir.last() == '/' {
        dir + name
    } else {
        dir + seq!['/'] + name
    }
}

/// The immutable record of one download. Only the file on disk and the
/// owning item's run-state change after creation.
#[derive(Debug, Clone)]
pub struct HttpDownload {
    pub id: u128,
    pub url: String,
    pub directory: String,
    pub filename: String,
    pub config: HttpDownloadConfig,
    pub content_length: u64,
    pub supports_byte_ranges: bool,
}

/// Whether two download records describe the same download: every field
/// agrees (the header list by its contents).
pub open spec fn spec_same_download(a: HttpDownload, b: HttpDownload) -> bool {
    &&& a.id == b.id
    &&& a.url == b.url
    &&& a.directory == b.directory
    &&& a.filename == b.filename
    &&& a.content_length == b.content_length
    &&& a.supports_byte_ranges == b.supports_byte_ranges
    &&& a.config.timeout_millis == b.config.timeout_millis
    &&& a.config.chunk_size == b.config.chunk_size
    &&& a.config.headers@ == b.config.headers@
}

impl HttpDownload {
    /// The record's invariant: the origin disclosed a positive length.
    pub open spec fn wf(self) -> bool {
        self.content_length > 0
    }

    /// An exact copy, rebuilt field by field.
    pub fn duplicate(&self) -> (r: Self)
        ensures
            spec_same_download(r, *self),
    {
        HttpDownload {
            id: self.id,
            url: self.url.clone(),
            directory: self.directory.clone(),
            filename: self.filename.clone(),
            config: self.config.duplicate(),
            content_length: self.content_length,
            supports_byte_ranges: self.supports_byte_ranges,
        }
    }

    /// Builds the record for one download out of the creation response.
    /// Rejects a non-200 status with `DownloadNotOk`, and a missing or zero
    /// `Content-Length` with `MissingContentLength`; otherwise the record
    /// carries the given url, directory, filename and configuration, the
    /// disclosed length, and whether the origin supports byte ranges. A fresh
    /// identifier is drawn. Writes nothing to disk.
    pub fn create(
        url: String,
        directory: String,
        filename: String,
        config: Option<HttpDownloadConfig>,
        resp: CreationResponse,
    ) -> (r: Result<HttpDownload, Error>)
        ensures
            resp.status != 200 ==> (r matches Err(e) && e matches Error::DownloadNotOk(
                s,
                b,
            ) && s == resp.status && b == resp.body),
            resp.status == 200 && (resp.content_length is None || resp.content_length
                == Some(0u64)) ==> (r matches Err(e) && e matches Error::MissingContentLength(u)
                && u == url),
            resp.status == 200 && (resp.content_length matches Some(len) && len > 0) ==> (
            r matches Ok(d) && {
                &&& d.wf()
                &&& d.url == url
                &&& d.directory == directory
                &&& d.filename == filename
                &&& Some(d.content_length) == resp.content_length
                &&& d.supports_byte_ranges == spec_response_supports_ranges(resp)
                &&& (config matches Some(c) ==> d.config == c)
                &&& (config is None ==> d.config.is_default())
            }),
    {
        if resp.status != 200 {
            return Err(Error::DownloadNotOk(resp.status, resp.body));
        }
        let content_length = match resp.content_length {
            Some(len) => len,
            None => {
                return Err(Error::MissingContentLength(url));
            },
        };
        if content_length == 0 {
            return Err(Error::MissingContentLength(url));
        }
        let supports = crate::util::supports_byte_ranges(
            match &resp.accept_ranges {
                Some(v) => Some(v.as_str()),
                None => None,
            },
        );
        let config = match config {
            Some(c) => c,
            None => Default::default(),
        };
        let id = new_uuid();
        Ok(
            HttpDownload {
                id,
                url,
                directory,
                filename,
                config,
                content_length,
                supports_byte_ranges: supports,
            },
        )
    }

    /// The path of the file this download writes.
    pub fn file_path(&self) -> (r: String)
        ensures
            r@ == spec_joined_path(self.directory@, self.filename@),
    {
        proof {
            reveal_strlit("/");
        }
        let dir_len = self.directory.as_str().unicode_len();
        if dir_len == 0 {
            return self.filename.clone();
        }
        let mut p = self.directory.clone();
        if self.directory.as_str().get_char(dir_len - 1) != '/' {
            p.append("/");
            proof {
                assert(p@ =~= self.directory@ + seq!['/']);
            }
        }
        p.append(self.filename.as_str());
        proof {
            assert(self.directory@.last() == '/' ==> p@ =~= self.directory@ + self.filename@);
            assert(self.directory@.last() != '/' ==> p@ =~= self.directory@ + seq!['/']
                + self.filename@);
        }
        p
    }

    /// The immutable projection served by list and get queries.
    pub fn get_metadata(&self) -> (r: DownloadMetadata)
        ensures
            r.id == self.id,
            r.url == self.url,
            r.file_path@ == spec_joined_path(self.directory@, self.filename@),
            r.download_size == self.content_length,
    {
        DownloadMetadata {
            id: self.id,
            url: self.url.clone(),
            file_path: self.file_path(),
            download_size: self.content_length,
        }
    }

    /// Decides how a resume request proceeds, from the byte count already on
    /// disk: a fully downloaded file is rejected with `DownloadComplete` and
    /// is not touched; an origin without byte-range support forces a restart
    /// from scratch; otherwise the transfer appends from the on-disk count
    /// with a range request.
    pub fn resume_plan(&self, bytes_on_disk: u64) -> (r: Result<ResumeAction, Error>)
        ensures
            bytes_on_disk == self.content_length ==> (r matches Err(e)
                && e matches Error::DownloadComplete(b) && b == bytes_on_disk),
            bytes_on_disk != self.content_length && !self.supports_byte_ranges ==> r
                == Ok::<ResumeAction, Error>(ResumeAction::RestartFromScratch),
            bytes_on_disk != self.content_length && self.supports_byte_ranges ==> r
                == Ok::<ResumeAction, Error>(ResumeAction::AppendFrom(bytes_on_disk)),
    {
        if bytes_on_disk == self.content_length {
            Err(Error::DownloadComplete(bytes_on_disk))
        } else if !self.supports_byte_ranges {
            Ok(ResumeAction::RestartFromScratch)
        } else {
            Ok(ResumeAction::AppendFrom(bytes_on_disk))
        }
    }
}

/// How a resume request proceeds.
#[derive(Debug, Clone, PartialEq, Eq, Structural)]
pub enum ResumeAction {
    /// The origin gave no `Accept-Ranges: bytes`: truncate and start over.
    RestartFromScratch,
    /// Issue a range request from this offset and append to the file.
    AppendFrom(u64),
}

/// The value of the `Range` header of a resume request from `offset`.
pub open spec fn spec_range_header(offset: u64) -> Seq<char> {
    "bytes="@ + dec_chars(offset as nat) + "-"@
}

/// Renders the `Range` header value of a resume request.
pub fn range_header_value(offset: u64) -> (r: String)
    ensures
        r@ == spec_range_header(offset),
{
    let mut s = ("bytes=").to_owned();
    s.append(decimal_string(offset).as_str());
    s.append("-");
    s
}

/// Whether the half-second progress period has elapsed and a `Running`
/// update is due.
pub fn should_emit(elapsed_millis: u64) -> (r: bool)
    ensures
        r == (elapsed_millis > HALF_SECOND_MS),
{
    elapsed_millis > HALF_SECOND_MS
}

/// The throughput a `Running` update reports: bytes of the rolling window
/// scaled to one second, truncated; capped at the widest representable
/// value.
pub open spec fn spec_speed(window_bytes: nat, window_millis: nat) -> nat
    recommends
        window_millis > 0,
{
    let bps = window_bytes * 1000 / window_millis;
    if bps > u64::MAX {
        u64::MAX as nat
    } else {
        bps
    }
}

/// The byte accounting of one streaming run: the running counter, the
/// rolling window used for throughput measurement, and the ghost history of
/// the chunk sizes accounted so far, through which the run laws apply to an
/// executed run.
pub struct Transfer {
    pub content_length: u64,
    pub downloaded: u64,
    pub window_bytes: u64,
    pub initial_bytes: Ghost<u64>,
    pub history: Ghost<Seq<nat>>,
}

impl Transfer {
    /// The accounting invariant: the window never exceeds the counter, and
    /// the counter is exactly what the accounted chunk history yields from
    /// the starting point.
    pub open spec fn wf(self) -> bool {
        &&& self.window_bytes <= self.downloaded
        &&& self.downloaded == crate::laws::spec_counter(self.initial_bytes@ as nat, self.history@)
    }

    /// Opens the accounting of one run. The counter starts at zero for a
    /// start run and at the on-disk byte count for an append run.
    pub fn begin(content_length: u64, initial_bytes: u64) -> (r: Transfer)
        ensures
            r.wf(),
            r.content_length == content_length,
            r.downloaded == initial_bytes,
            r.window_bytes == 0,
            r.initial_bytes@ == initial_bytes,
            r.history@ == Seq::<nat>::empty(),
    {
        Transfer {
            content_length,
            downloaded: initial_bytes,
            window_bytes: 0,
            initial_bytes: Ghost(initial_bytes),
            history: Ghost(Seq::empty()),
        }
    }

    /// Accounts one chunk of `n` bytes written whole to the file: the
    /// counter and the window both advance by exactly `n`, and the chunk
    /// joins the history.
    pub fn on_chunk(&mut self, n: u64)
        requires
            old(self).wf(),
            old(self).downloaded + n <= u64::MAX,
        ensures
            final(self).wf(),
            final(self).downloaded == old(self).downloaded + n,
            final(self).window_bytes == old(self).window_bytes + n,
            final(self).content_length == old(self).content_length,
            final(self).initial_bytes == old(self).initial_bytes,
            final(self).history@ == old(self).history@.push(n as nat),
    {
        self.downloaded = self.downloaded + n;
        self.window_bytes = self.window_bytes + n;
        proof {
            let h = self.history@.push(n as nat);
            assert(h.drop_last() =~= self.history@);
            self.history@ = h;
        }
    }

    /// Builds the `Running` update due after `elapsed_millis` of window time
    /// and resets the window. The reported byte count is the running
    /// counter; the reported throughput is the window scaled to one second.
    pub fn progress_update(&mut self, id: u128, elapsed_millis: u64) -> (r: DownloadUpdate)
        requires
            old(self).wf(),
            elapsed_millis > 0,
        ensures
            final(self).wf(),
            final(self).downloaded == old(self).downloaded,
            final(self).content_length == old(self).content_length,
            final(self).window_bytes == 0,
            final(self).initial_bytes == old(self).initial_bytes,
            final(self).history == old(self).history,
            r.id == id,
            r.state matches State::Running { bytes_downloaded, bytes_per_second } && bytes_downloaded
                == old(self).downloaded && bytes_per_second == spec_speed(
                old(self).window_bytes as nat,
                elapsed_millis as nat,
            ),
    {
        let scaled: u128 = (self.window_bytes as u128) * 1000 / (elapsed_millis as u128);
        let bytes_per_second: u64 = if scaled > u64::MAX as u128 {
            u64::MAX
        } else {
            scaled as u64
        };
        self.window_bytes = 0;
        DownloadUpdate {
            id,
            state: State::Running { bytes_downloaded: self.downloaded, bytes_per_second },
        }
    }

    /// Every byte count a well-formed transfer holds is at least the count
    /// it began at: a run resumed from a paused file never reports fewer
    /// bytes than were on disk at pause time.
    pub proof fn lemma_counter_not_below_start(self)
        requires
            self.wf(),
        ensures
            self.downloaded >= self.initial_bytes@,
    {
        crate::laws::lemma_counter_ge_initial(self.initial_bytes@ as nat, self.history@);
    }

    /// For every `Complete` event the on-disk size equals `content_length`:
    /// when this transfer's history accounts exactly the chunks appended to
    /// the file, `finish` succeeded (the counter reached `content_length`),
    /// and the origin served no more bytes than it announced, the file holds
    /// exactly `content_length` bytes.
    pub proof fn lemma_complete_means_full_file(self, initial: Seq<u8>, chunks: Seq<Seq<u8>>)
        requires
            self.wf(),
            self.initial_bytes@ == initial.len(),
            self.history@ == crate::laws::chunk_sizes(chunks),
            self.downloaded >= self.content_length,
            crate::laws::file_after(initial, chunks).len() <= self.content_length,
        ensures
            crate::laws::file_after(initial, chunks).len() == self.content_length,
            self.downloaded == self.content_length,
    {
        crate::laws::lemma_complete_file_size(initial, chunks, self.content_length as nat);
    }

    /// Settles a run whose response body ended: below `content_length` the
    /// stream was truncated and the run failed; otherwise the run succeeded
    /// with the counter as its result.
    pub fn finish(&self) -> (r: Result<u64, Error>)
        ensures
            self.downloaded < self.content_length ==> (r matches Err(e)
                && e matches Error::StreamEndedBeforeCompletion(b) && b == self.downloaded),
            self.downloaded >= self.content_length ==> r == Ok::<u64, Error>(self.downloaded),
    {
        if self.downloaded < self.content_length {
            Err(Error::StreamEndedBeforeCompletion(self.downloaded))
        } else {
            Ok(self.downloaded)
        }
    }
}

} // verus!
