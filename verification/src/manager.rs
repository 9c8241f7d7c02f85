//! The registry: the map from download identifier to item, and the lifecycle
//! commands serialized against it. The runtime around it performs what each
//! command hands back (spawning a transfer, firing a cancellation signal,
//! unlinking a file); the registry itself decides.

use vstd::prelude::*;

use crate::download::{spec_joined_path, spec_same_download, HttpDownload};
use crate::error::ManagerError;
use crate::item::{DownloaderItem, RunRequest};
use crate::keyed::{
    entries_map, lemma_entries_map_dom, lemma_entries_map_index, lemma_entries_map_len, map_get,
    map_insert, map_remove, unique_ids,
};
use crate::state::DownloadMetadata;

verus! {

/// Whether `m` is the metadata projection of the download record `d`.
pub open spec fn spec_metadata_of(m: DownloadMetadata, d: HttpDownload) -> bool {
    &&& m.id == d.id
    &&& m.url == d.url
    &&& m.file_path@ == spec_joined_path(d.directory@, d.filename@)
    &&& m.download_size == d.content_length
}

/// Whether every item of an entry map sits under its own download's id.
pub open spec fn spec_ids_coherent(m: Map<u128, DownloaderItem>) -> bool {
    forall|k: u128| #[trigger] m.dom().contains(k) ==> m[k].download.id == k
}

/// Whether `req` is the resume-mode request for the idle entry at `j`.
spec fn spec_req_for(prev: Seq<(u128, DownloaderItem)>, req: RunRequest, j: int) -> bool {
    &&& 0 <= j < prev.len()
    &&& !prev[j].1.spec_running()
    &&& req.download.id == prev[j].0
    &&& spec_same_download(req.download, prev[j].1.download)
}

/// The registry of download items, keyed by download identifier.
pub struct ManagerInner {
    items: Vec<(u128, DownloaderItem)>,
}

impl View for ManagerInner {
    type V = Map<u128, DownloaderItem>;

    closed spec fn view(&self) -> Map<u128, DownloaderItem> {
        entries_map(self.items@)
    }
}

impl ManagerInner {
    /// The registry invariant: entries carry pairwise distinct ids, and each
    /// item is registered under its own download's id.
    pub closed spec fn wf(self) -> bool {
        &&& unique_ids(self.items@)
        &&& spec_ids_coherent(entries_map(self.items@))
    }

    /// In a well-formed registry, every item sits under its own download's
    /// id.
    pub proof fn lemma_ids_coherent(&self)
        requires
            self.wf(),
        ensures
            spec_ids_coherent(self@),
    {
    }

    /// An empty registry.
    pub fn new() -> (r: ManagerInner)
        ensures
            r.wf(),
            r@ == Map::<u128, DownloaderItem>::empty(),
    {
        let items: Vec<(u128, DownloaderItem)> = Vec::new();
        proof {
            assert(entries_map(items@) =~= Map::<u128, DownloaderItem>::empty());
        }
        ManagerInner { items }
    }

    /// How many downloads are registered.
    pub fn len(&self) -> (r: usize)
        requires
            self.wf(),
        ensures
            r == self@.dom().len(),
    {
        proof {
            lemma_entries_map_len(self.items@);
        }
        self.items.len()
    }

    /// Registers a download under its id and hands the id back. An idle item
    /// is created for it; an entry already under that id is replaced.
    pub fn add(&mut self, download: HttpDownload) -> (id: u128)
        requires
            old(self).wf(),
        ensures
            final(self).wf(),
            id == download.id,
            final(self)@.dom().contains(id),
            final(self)@[id].download == download,
            !final(self)@[id].spec_running(),
            final(self)@ == old(self)@.insert(id, final(self)@[id]),
    {
        let id = download.id;
        let item = DownloaderItem::new(download);
        map_insert(&mut self.items, id, item);
        proof {
            assert(spec_ids_coherent(entries_map(self.items@))) by {
                assert forall|k: u128|
                    #[trigger] entries_map(self.items@).dom().contains(k) implies entries_map(
                    self.items@,
                )[k].download.id == k by {
                    if k != id {
                        assert(entries_map(old(self).items@).dom().contains(k));
                    }
                }
            }
        }
        id
    }

    /// Accepts a run command for `id`: if the id is registered and its item
    /// idle, the item transitions to running and the transfer to execute is
    /// handed back. An unknown id fails with `NotFound`, a busy item with
    /// `AlreadyRunning`; neither changes the registry.
    pub fn run(&mut self, id: u128, resume: bool) -> (r: Result<RunRequest, ManagerError>)
        requires
            old(self).wf(),
        ensures
            final(self).wf(),
            !old(self)@.dom().contains(id) ==> r == Err::<RunRequest, ManagerError>(
                ManagerError::NotFound(id),
            ) && final(self)@ == old(self)@,
            old(self)@.dom().contains(id) && old(self)@[id].spec_running() ==> r == Err::<
                RunRequest,
                ManagerError,
            >(ManagerError::AlreadyRunning) && final(self)@ == old(self)@,
            old(self)@.dom().contains(id) && !old(self)@[id].spec_running() ==> (r matches Ok(req)
                && {
                &&& req.resume == resume
                &&& spec_same_download(req.download, old(self)@[id].download)
                &&& final(self)@.dom().contains(id)
                &&& final(self)@[id].download == old(self)@[id].download
                &&& final(self)@[id].spec_running()
                &&& final(self)@ == old(self)@.insert(id, final(self)@[id])
            }),
    {
        match map_remove(&mut self.items, id) {
            None => Err(ManagerError::NotFound(id)),
            Some(mut item) => {
                if item.is_locked() {
                    map_insert(&mut self.items, id, item);
                    proof {
                        assert(entries_map(self.items@) =~= entries_map(old(self).items@));
                    }
                    Err(ManagerError::AlreadyRunning)
                } else {
                    let req = item.run(resume);
                    map_insert(&mut self.items, id, item);
                    proof {
                        assert(entries_map(self.items@) =~= entries_map(old(self).items@).insert(
                            id,
                            item,
                        ));
                        self.lemma_wf_after_rebind(*old(self), id);
                    }
                    Ok(req)
                }
            },
        }
    }

    /// Re-establishes well-formedness after the entry for `id` was rebound
    /// to an item with the same download.
    proof fn lemma_wf_after_rebind(&self, prev: ManagerInner, id: u128)
        requires
            prev.wf(),
            unique_ids(self.items@),
            prev@.dom().contains(id),
            entries_map(self.items@) == entries_map(prev.items@).insert(
                id,
                entries_map(self.items@)[id],
            ),
            entries_map(self.items@).dom().contains(id),
            entries_map(self.items@)[id].download == entries_map(prev.items@)[id].download,
        ensures
            self.wf(),
    {
        assert forall|k: u128|
            #[trigger] entries_map(self.items@).dom().contains(k) implies entries_map(
            self.items@,
        )[k].download.id == k by {
            if k != id {
                assert(entries_map(prev.items@).dom().contains(k));
            }
        }
    }

    /// Accepts a stop command for `id`: if the id is registered and its item
    /// running, the item transitions to idle and the runtime must fire its
    /// cancellation signal. An unknown id fails with `NotFound`, an idle item
    /// with `NotRunning`; neither changes the registry.
    pub fn stop(&mut self, id: u128) -> (r: Result<(), ManagerError>)
        requires
            old(self).wf(),
        ensures
            final(self).wf(),
            !old(self)@.dom().contains(id) ==> r == Err::<(), ManagerError>(
                ManagerError::NotFound(id),
            ) && final(self)@ == old(self)@,
            old(self)@.dom().contains(id) && !old(self)@[id].spec_running() ==> r == Err::<
                (),
                ManagerError,
            >(ManagerError::NotRunning) && final(self)@ == old(self)@,
            old(self)@.dom().contains(id) && old(self)@[id].spec_running() ==> (r is Ok && {
                &&& final(self)@.dom().contains(id)
                &&& final(self)@[id].download == old(self)@[id].download
                &&& !final(self)@[id].spec_running()
                &&& final(self)@ == old(self)@.insert(id, final(self)@[id])
            }),
    {
        match map_remove(&mut self.items, id) {
            None => Err(ManagerError::NotFound(id)),
            Some(mut item) => {
                let stopped = item.stop();
                map_insert(&mut self.items, id, item);
                proof {
                    if !old(self)@[id].spec_running() {
                        assert(entries_map(self.items@) =~= entries_map(old(self).items@));
                    } else {
                        assert(entries_map(self.items@) =~= entries_map(old(self).items@).insert(
                            id,
                            item,
                        ));
                        self.lemma_wf_after_rebind(*old(self), id);
                    }
                }
                stopped
            },
        }
    }

    /// Records that the task for `id` exited on its own: its item is idle
    /// again. An unknown id (deleted while the task was in flight) changes
    /// nothing.
    pub fn complete(&mut self, id: u128)
        requires
            old(self).wf(),
        ensures
            final(self).wf(),
            !old(self)@.dom().contains(id) ==> final(self)@ == old(self)@,
            old(self)@.dom().contains(id) ==> {
                &&& final(self)@.dom().contains(id)
                &&& final(self)@[id].download == old(self)@[id].download
                &&& !final(self)@[id].spec_running()
                &&& final(self)@ == old(self)@.insert(id, final(self)@[id])
            },
    {
        match map_remove(&mut self.items, id) {
            None => {},
            Some(mut item) => {
                item.complete();
                map_insert(&mut self.items, id, item);
                proof {
                    assert(entries_map(self.items@) =~= entries_map(old(self).items@).insert(
                        id,
                        item,
                    ));
                    self.lemma_wf_after_rebind(*old(self), id);
                }
            },
        }
    }

    /// Removes the entry for `id` and hands its item back: a best-effort
    /// stop is implied, so the runtime must fire the item's cancellation
    /// signal if it was running, and may then unlink the file. An unknown id
    /// fails with `NotFound`.
    pub fn delete(&mut self, id: u128) -> (r: Result<DownloaderItem, ManagerError>)
        requires
            old(self).wf(),
        ensures
            final(self).wf(),
            !old(self)@.dom().contains(id) ==> r == Err::<DownloaderItem, ManagerError>(
                ManagerError::NotFound(id),
            ) && final(self)@ == old(self)@,
            old(self)@.dom().contains(id) ==> (r matches Ok(item) && item == old(self)@[id]
                && final(self)@ == old(self)@.remove(id)),
    {
        match self.remove(id) {
            None => Err(ManagerError::NotFound(id)),
            Some(item) => Ok(item),
        }
    }

    /// Removes the entry for `id` and hands its item back, if one is
    /// registered.
    pub fn remove(&mut self, id: u128) -> (r: Option<DownloaderItem>)
        requires
            old(self).wf(),
        ensures
            final(self).wf(),
            !old(self)@.dom().contains(id) ==> r is None && final(self)@ == old(self)@,
            old(self)@.dom().contains(id) ==> (r matches Some(item) && item == old(self)@[id]
                && final(self)@ == old(self)@.remove(id)),
    {
        let r = map_remove(&mut self.items, id);
        proof {
            if old(self)@.dom().contains(id) {
                assert forall|k: u128|
                    #[trigger] entries_map(self.items@).dom().contains(k) implies entries_map(
                    self.items@,
                )[k].download.id == k by {
                    assert(entries_map(old(self).items@).dom().contains(k));
                }
            }
        }
        r
    }

    /// The metadata of the download registered under `id`, or `NotFound`.
    pub fn get_metadata(&self, id: u128) -> (r: Result<DownloadMetadata, ManagerError>)
        requires
            self.wf(),
        ensures
            !self@.dom().contains(id) ==> r == Err::<DownloadMetadata, ManagerError>(
                ManagerError::NotFound(id),
            ),
            self@.dom().contains(id) ==> (r matches Ok(m) && spec_metadata_of(
                m,
                self@[id].download,
            ) && m.id == id),
    {
        match map_get(&self.items, id) {
            None => Err(ManagerError::NotFound(id)),
            Some(item) => Ok(item.download.get_metadata()),
        }
    }

    /// A metadata snapshot of the whole registry: one entry per registered
    /// download, in unspecified order.
    pub fn get_metadata_all(&self) -> (r: Vec<DownloadMetadata>)
        requires
            self.wf(),
        ensures
            r@.len() == self@.dom().len(),
            forall|j: int|
                0 <= j < r@.len() ==> self@.dom().contains((#[trigger] r@[j]).id)
                    && spec_metadata_of(r@[j], self@[r@[j].id].download),
            forall|k: u128|
                self@.dom().contains(k) ==> exists|j: int|
                    0 <= j < r@.len() && (#[trigger] r@[j]).id == k,
    {
        proof {
            lemma_entries_map_len(self.items@);
            lemma_entries_map_dom(self.items@);
        }
        let n = self.items.len();
        let mut out: Vec<DownloadMetadata> = Vec::new();
        let mut i: usize = 0;
        while i < n
            invariant
                0 <= i <= n,
                n == self.items@.len(),
                self.wf(),
                out@.len() == i,
                forall|j: int|
                    0 <= j < i ==> (#[trigger] out@[j]).id == self.items@[j].0 && spec_metadata_of(
                        out@[j],
                        self.items@[j].1.download,
                    ),
            decreases n - i,
        {
            let m = self.items[i].1.download.get_metadata();
            proof {
                lemma_entries_map_index(self.items@, i as int);
            }
            out.push(m);
            i = i + 1;
        }
        proof {
            assert forall|j: int| 0 <= j < out@.len() implies self@.dom().contains(
                (#[trigger] out@[j]).id,
            ) && spec_metadata_of(out@[j], self@[out@[j].id].download) by {
                lemma_entries_map_index(self.items@, j);
            }
            assert forall|k: u128| self@.dom().contains(k) implies exists|j: int|
                0 <= j < out@.len() && (#[trigger] out@[j]).id == k by {
                let i0 = choose|i0: int|
                    0 <= i0 < self.items@.len() && (#[trigger] self.items@[i0]).0 == k;
                assert(out@[i0].id == k);
            }
        }
        out
    }

    /// Transitions every idle item to running in resume mode, so that
    /// partial files continue, and hands back the transfers to execute; busy
    /// items are skipped. Afterwards every registered item is running, and
    /// every previously idle download has a request among the results.
    pub fn start_all(&mut self) -> (r: Vec<RunRequest>)
        requires
            old(self).wf(),
        ensures
            final(self).wf(),
            final(self)@.dom() == old(self)@.dom(),
            forall|k: u128|
                old(self)@.dom().contains(k) ==> (#[trigger] final(self)@[k]).download == old(
                    self,
                )@[k].download && final(self)@[k].spec_running(),
            forall|j: int|
                0 <= j < r@.len() ==> (#[trigger] r@[j]).resume && old(self)@.dom().contains(
                    r@[j].download.id,
                ) && !old(self)@[r@[j].download.id].spec_running() && spec_same_download(
                    r@[j].download,
                    old(self)@[r@[j].download.id].download,
                ),
            forall|k: u128|
                old(self)@.dom().contains(k) && !old(self)@[k].spec_running() ==> exists|j: int|
                    0 <= j < r@.len() && (#[trigger] r@[j]).download.id == k,
    {
        let ghost prev = self.items@;
        let n = self.items.len();
        let mut reqs: Vec<RunRequest> = Vec::new();
        let mut i: usize = 0;
        while i < n
            invariant
                0 <= i <= n,
                n == prev.len(),
                self.items@.len() == prev.len(),
                unique_ids(prev),
                spec_ids_coherent(entries_map(prev)),
                forall|j: int| 0 <= j < n ==> (#[trigger] self.items@[j]).0 == prev[j].0,
                forall|j: int|
                    0 <= j < i ==> (#[trigger] self.items@[j]).1.download == prev[j].1.download
                        && self.items@[j].1.spec_running(),
                forall|j: int| i <= j < n ==> (#[trigger] self.items@[j]) == prev[j],
                forall|m: int|
                    0 <= m < reqs@.len() ==> (#[trigger] reqs@[m]).resume && exists|j: int|
                        spec_req_for(prev, #[trigger] reqs@[m], j),
                forall|j: int|
                    0 <= j < i && !(#[trigger] prev[j]).1.spec_running() ==> exists|m: int|
                        0 <= m < reqs@.len() && (#[trigger] reqs@[m]).download.id == prev[j].0,
            decreases n - i,
        {
            proof {
                lemma_entries_map_index(prev, i as int);
            }
            let locked = self.items[i].1.is_locked();
            if !locked {
                let ghost reqs0 = reqs@;
                let req = self.items[i].1.run(true);
                proof {
                    assert(prev[i as int].1.download.id == prev[i as int].0);
                    assert(spec_req_for(prev, req, i as int));
                }
                reqs.push(req);
                proof {
                    assert forall|m: int| 0 <= m < reqs@.len() implies (#[trigger] reqs@[m]).resume
                        && exists|j: int| spec_req_for(prev, #[trigger] reqs@[m], j) by {
                        if m < reqs0.len() {
                            assert(reqs@[m] == reqs0[m]);
                        } else {
                            assert(reqs@[m] == req);
                            assert(spec_req_for(prev, reqs@[m], i as int));
                        }
                    }
                    assert forall|j: int|
                        0 <= j < i + 1 && !(#[trigger] prev[j]).1.spec_running() implies exists|
                        m: int,
                    |
                        0 <= m < reqs@.len() && (#[trigger] reqs@[m]).download.id == prev[j].0 by {
                        if j < i {
                            let m0 = choose|m0: int|
                                0 <= m0 < reqs0.len() && (#[trigger] reqs0[m0]).download.id
                                    == prev[j].0;
                            assert(reqs@[m0] == reqs0[m0]);
                        } else {
                            assert(reqs@[reqs@.len() - 1] == req);
                            assert(reqs@[reqs@.len() - 1].download.id == prev[j].0);
                        }
                    }
                }
            }
            i = i + 1;
        }
        proof {
            self.lemma_sweep_to_map(prev, *old(self), true);
            lemma_entries_map_dom(prev);
            assert forall|j: int| 0 <= j < reqs@.len() implies (#[trigger] reqs@[j]).resume && old(
                self,
            )@.dom().contains(reqs@[j].download.id) && !old(self)@[reqs@[j].download.id]
                .spec_running() && spec_same_download(
                reqs@[j].download,
                old(self)@[reqs@[j].download.id].download,
            ) by {
                let j0 = choose|j0: int| spec_req_for(prev, #[trigger] reqs@[j], j0);
                lemma_entries_map_index(prev, j0);
            }
            assert forall|k: u128|
                old(self)@.dom().contains(k) && !old(self)@[k].spec_running() implies exists|
                m: int,
            |
                0 <= m < reqs@.len() && (#[trigger] reqs@[m]).download.id == k by {
                let j0 = choose|j0: int| 0 <= j0 < prev.len() && (#[trigger] prev[j0]).0 == k;
                lemma_entries_map_index(prev, j0);
            }
        }
        reqs
    }

    /// Requests cancellation of every running item; idle items are left
    /// alone. Afterwards every registered item is idle, and the runtime must
    /// fire the cancellation signal of each item this transitioned.
    pub fn stop_all(&mut self)
        requires
            old(self).wf(),
        ensures
            final(self).wf(),
            final(self)@.dom() == old(self)@.dom(),
            forall|k: u128|
                old(self)@.dom().contains(k) ==> (#[trigger] final(self)@[k]).download == old(
                    self,
                )@[k].download && !final(self)@[k].spec_running(),
    {
        let ghost prev = self.items@;
        let n = self.items.len();
        let mut i: usize = 0;
        while i < n
            invariant
                0 <= i <= n,
                n == prev.len(),
                self.items@.len() == prev.len(),
                unique_ids(prev),
                spec_ids_coherent(entries_map(prev)),
                forall|j: int| 0 <= j < n ==> (#[trigger] self.items@[j]).0 == prev[j].0,
                forall|j: int|
                    0 <= j < i ==> (#[trigger] self.items@[j]).1.download == prev[j].1.download
                        && !self.items@[j].1.spec_running(),
                forall|j: int| i <= j < n ==> (#[trigger] self.items@[j]) == prev[j],
            decreases n - i,
        {
            let _ = self.items[i].1.stop();
            i = i + 1;
        }
        proof {
            self.lemma_sweep_to_map(prev, *old(self), false);
        }
    }

    /// Registering a download and asking its metadata back round-trips all
    /// four metadata fields bit-exact: from what `add` guarantees about the
    /// registry and what `get_metadata` guarantees about its result, the
    /// returned metadata carries exactly the added download's id, url, file
    /// path and size.
    pub proof fn lemma_add_get_metadata_roundtrip(
        after: Map<u128, DownloaderItem>,
        before: Map<u128, DownloaderItem>,
        d: HttpDownload,
        m: DownloadMetadata,
    )
        requires
            after == before.insert(d.id, after[d.id]),
            after.dom().contains(d.id),
            after[d.id].download == d,
            spec_metadata_of(m, after[d.id].download),
        ensures
            m.id == d.id,
            m.url == d.url,
            m.file_path@ == spec_joined_path(d.directory@, d.filename@),
            m.download_size == d.content_length,
    {
    }

    /// Translates positional facts after a whole-registry sweep into facts
    /// about the denoted map: the domain is unchanged, each download is
    /// unchanged, and each item's run-state is what the sweep set.
    proof fn lemma_sweep_to_map(
        &self,
        prev: Seq<(u128, DownloaderItem)>,
        p: ManagerInner,
        running: bool,
    )
        requires
            p.wf(),
            prev == p.items@,
            self.items@.len() == prev.len(),
            forall|j: int| 0 <= j < prev.len() ==> (#[trigger] self.items@[j]).0 == prev[j].0,
            forall|j: int|
                0 <= j < prev.len() ==> (#[trigger] self.items@[j]).1.download
                    == prev[j].1.download && self.items@[j].1.spec_running() == running,
        ensures
            self.wf(),
            self@.dom() == p@.dom(),
            forall|k: u128|
                p@.dom().contains(k) ==> (#[trigger] self@[k]).download == p@[k].download
                    && self@[k].spec_running() == running,
    {
        assert(unique_ids(self.items@)) by {
            assert forall|x: int, y: int| 0 <= x < y < self.items@.len() implies (
            #[trigger] self.items@[x]).0 != (#[trigger] self.items@[y]).0 by {
                assert(prev[x].0 != prev[y].0);
            }
        }
        lemma_entries_map_dom(self.items@);
        lemma_entries_map_dom(prev);
        assert forall|k: u128| #[trigger] self@.dom().contains(k) implies p@.dom().contains(k) by {
            let i = choose|i: int|
                0 <= i < self.items@.len() && (#[trigger] self.items@[i]).0 == k;
            assert(prev[i].0 == k);
        }
        assert forall|k: u128| #[trigger] p@.dom().contains(k) implies self@.dom().contains(k) by {
            let i = choose|i: int| 0 <= i < prev.len() && (#[trigger] prev[i]).0 == k;
            assert(self.items@[i].0 == k);
        }
        assert(self@.dom() =~= p@.dom());
        assert forall|k: u128| p@.dom().contains(k) implies (#[trigger] self@[k]).download
            == p@[k].download && self@[k].spec_running() == running by {
            let i = choose|i: int| 0 <= i < prev.len() && (#[trigger] prev[i]).0 == k;
            lemma_entries_map_index(prev, i);
            lemma_entries_map_index(self.items@, i);
        }
        assert forall|k: u128|
            #[trigger] entries_map(self.items@).dom().contains(k) implies entries_map(
            self.items@,
        )[k].download.id == k by {
            assert(entries_map(prev).dom().contains(k));
            assert(self@[k].download == p@[k].download);
        }
    }
}

} // verus!
