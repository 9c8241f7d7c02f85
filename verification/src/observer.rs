//! The observer: the authoritative map from download identifier to its
//! latest known state, fed by the batches the aggregator dispatches.

use vstd::prelude::*;

use crate::keyed::{
    entries_map, lemma_entries_map_len, map_get, map_insert, map_remove, unique_ids,
};
use crate::state::State;

verus! {

/// The map after one batch is applied in order, last writer winning: a
/// tracked id takes the batch's state; an untracked id is dropped, never
/// installed.
pub open spec fn spec_apply_batch(m: Map<u128, State>, batch: Seq<(u128, State)>) -> Map<
    u128,
    State,
>
    decreases batch.len(),
{
    if batch.len() == 0 {
        m
    } else {
        let rest = spec_apply_batch(m, batch.drop_last());
        if m.dom().contains(batch.last().0) {
            rest.insert(batch.last().0, batch.last().1)
        } else {
            rest
        }
    }
}

/// The last state a batch carries for `id`, if any.
pub open spec fn spec_last_state_in(batch: Seq<(u128, State)>, id: u128) -> Option<State>
    decreases batch.len(),
{
    if batch.len() == 0 {
        None
    } else if batch.last().0 == id {
        Some(batch.last().1)
    } else {
        spec_last_state_in(batch.drop_last(), id)
    }
}

/// Applying a batch never changes which ids are tracked.
pub proof fn lemma_apply_batch_dom(m: Map<u128, State>, batch: Seq<(u128, State)>)
    ensures
        spec_apply_batch(m, batch).dom() == m.dom(),
    decreases batch.len(),
{
    if batch.len() > 0 {
        lemma_apply_batch_dom(m, batch.drop_last());
        if m.dom().contains(batch.last().0) {
            assert(spec_apply_batch(m, batch).dom() =~= m.dom());
        }
    }
}

/// After a delete, no batch installs state for the deleted id: applying any
/// batch to a map that does not track the id leaves the id untracked.
pub proof fn lemma_untracked_never_installed(
    m: Map<u128, State>,
    batch: Seq<(u128, State)>,
    id: u128,
)
    requires
        !m.dom().contains(id),
    ensures
        !spec_apply_batch(m, batch).dom().contains(id),
{
    lemma_apply_batch_dom(m, batch);
}

/// A tracked id ends at the last state the batch carries for it, or keeps
/// its old state if the batch carries none.
pub proof fn lemma_apply_batch_last_writer(
    m: Map<u128, State>,
    batch: Seq<(u128, State)>,
    id: u128,
)
    requires
        m.dom().contains(id),
    ensures
        spec_apply_batch(m, batch)[id] == match spec_last_state_in(batch, id) {
            Some(s) => s,
            None => m[id],
        },
    decreases batch.len(),
{
    if batch.len() > 0 {
        lemma_apply_batch_last_writer(m, batch.drop_last(), id);
    }
}

/// A component that consumes subscriber-facing values, keeping its own
/// invariant across deliveries.
pub trait Subscriber<T> {
    /// The receiver's invariant.
    spec fn inv(&self) -> bool;

    /// Delivers one value.
    fn subscribe(&mut self, value: T)
        requires
            old(self).inv(),
        ensures
            final(self).inv(),
    ;
}

/// A component that consumes the aggregator's batches of (id, latest state)
/// pairs, keeping its own invariant across deliveries.
pub trait DownloadUpdateSubscriber {
    /// The receiver's invariant.
    spec fn inv(&self) -> bool;

    /// Delivers one batch.
    fn update(&mut self, updates: &Vec<(u128, State)>)
        requires
            old(self).inv(),
        ensures
            final(self).inv(),
    ;
}

/// The authoritative current state of every tracked download.
pub struct DownloadObserver {
    state: Vec<(u128, State)>,
}

impl View for DownloadObserver {
    type V = Map<u128, State>;

    closed spec fn view(&self) -> Map<u128, State> {
        entries_map(self.state@)
    }
}

impl DownloadObserver {
    /// The state map invariant: one entry per download.
    pub closed spec fn wf(self) -> bool {
        unique_ids(self.state@)
    }

    /// An observer tracking nothing.
    pub fn new() -> (r: DownloadObserver)
        ensures
            r.wf(),
            r@ == Map::<u128, State>::empty(),
    {
        let state: Vec<(u128, State)> = Vec::new();
        proof {
            assert(entries_map(state@) =~= Map::<u128, State>::empty());
        }
        DownloadObserver { state }
    }

    /// Starts tracking `id` at `initial`, so the id is known before any
    /// update arrives; overwrites the state of an id already tracked.
    pub fn track(&mut self, id: u128, initial: State)
        requires
            old(self).wf(),
        ensures
            final(self).wf(),
            final(self)@ == old(self)@.insert(id, initial),
    {
        map_insert(&mut self.state, id, initial);
    }

    /// Stops tracking `id`: from now on no batch installs state for it.
    pub fn untrack(&mut self, id: u128)
        requires
            old(self).wf(),
        ensures
            final(self).wf(),
            final(self)@ == old(self)@.remove(id),
    {
        let removed = map_remove(&mut self.state, id);
        proof {
            if removed is None {
                assert(final(self)@ =~= old(self)@.remove(id));
            }
        }
    }

    /// The current state of `id`, or nothing if it is not tracked.
    pub fn get_state(&self, id: u128) -> (r: Option<State>)
        requires
            self.wf(),
        ensures
            self@.dom().contains(id) ==> r == Some(self@[id]),
            !self@.dom().contains(id) ==> r is None,
    {
        match map_get(&self.state, id) {
            Some(s) => Some(s.duplicate()),
            None => None,
        }
    }

    /// A snapshot of every tracked (id, state) pair, each id once, in
    /// unspecified order.
    pub fn get_state_all(&self) -> (r: Vec<(u128, State)>)
        requires
            self.wf(),
        ensures
            unique_ids(r@),
            entries_map(r@) == self@,
            r@.len() == self@.dom().len(),
    {
        proof {
            lemma_entries_map_len(self.state@);
        }
        let n = self.state.len();
        let mut out: Vec<(u128, State)> = Vec::new();
        let mut i: usize = 0;
        while i < n
            invariant
                0 <= i <= n,
                n == self.state@.len(),
                self.wf(),
                out@ =~= self.state@.subrange(0, i as int),
            decreases n - i,
        {
            let id = self.state[i].0;
            let s = self.state[i].1.duplicate();
            out.push((id, s));
            proof {
                assert(self.state@[i as int] == (self.state@[i as int].0, self.state@[i as int].1));
                assert(out@ =~= self.state@.subrange(0, i + 1));
            }
            i = i + 1;
        }
        proof {
            assert(out@ =~= self.state@);
        }
        out
    }

    /// Read access to the whole tracked map, as its entry list.
    pub fn read_state(&self) -> (r: &Vec<(u128, State)>)
        requires
            self.wf(),
        ensures
            unique_ids(r@),
            entries_map(r@) == self@,
    {
        &self.state
    }

    /// The subscriber callback: installs each pair of the batch in order,
    /// last writer winning, for the ids it tracks; pairs for untracked ids
    /// are dropped.
    pub fn update(&mut self, batch: &Vec<(u128, State)>)
        requires
            old(self).wf(),
        ensures
            final(self).wf(),
            final(self)@ == spec_apply_batch(old(self)@, batch@),
    {
        let n = batch.len();
        let mut i: usize = 0;
        proof {
            assert(batch@.subrange(0, 0) =~= Seq::<(u128, State)>::empty());
        }
        while i < n
            invariant
                0 <= i <= n,
                n == batch@.len(),
                self.wf(),
                self@ == spec_apply_batch(old(self)@, batch@.subrange(0, i as int)),
                self@.dom() == old(self)@.dom(),
            decreases n - i,
        {
            let ghost pre = self@;
            let id = batch[i].0;
            let tracked_here = match map_get(&self.state, id) {
                Some(_) => true,
                None => false,
            };
            if tracked_here {
                let s = batch[i].1.duplicate();
                map_insert(&mut self.state, id, s);
            }
            proof {
                let b1 = batch@.subrange(0, i + 1);
                assert(b1.drop_last() =~= batch@.subrange(0, i as int));
                assert(b1.last() == batch@[i as int]);
                if tracked_here {
                    assert(self@.dom() =~= pre.dom());
                }
            }
            i = i + 1;
        }
        proof {
            assert(batch@.subrange(0, n as int) =~= batch@);
        }
    }
}

impl DownloadUpdateSubscriber for DownloadObserver {
    open spec fn inv(&self) -> bool {
        self.wf()
    }

    fn update(&mut self, updates: &Vec<(u128, State)>) {
        self.update(updates)
    }
}

} // verus!
