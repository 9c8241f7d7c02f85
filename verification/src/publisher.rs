//! The update aggregator: coalesces the high-rate stream of per-download
//! updates into low-rate batches. The runtime hands each consumed update in
//! together with the time elapsed since the last flush, and dispatches the
//! batch this hands back to every subscriber without blocking the producer.

use vstd::prelude::*;

use crate::keyed::{entries_map, map_insert, unique_ids};
use crate::state::{DownloadUpdate, State};
use crate::HALF_SECOND_MS;

verus! {

/// Whether consuming this update must flush the cache now: any terminal
/// transition flushes once half a second has passed since the last flush;
/// `Running` updates never flush, which rate-limits them.
pub open spec fn spec_flush_due(state: State, elapsed_ms: u64) -> bool {
    elapsed_ms > HALF_SECOND_MS && state.is_terminal()
}

/// A component that consumes the raw per-download update stream, keeping
/// its own invariant across updates. The aggregator below is the consumer
/// the registry's runtime is given, once a clock is wrapped around it.
pub trait UpdateConsumer {
    /// The consumer's invariant.
    spec fn inv(&self) -> bool;

    /// Consumes one update.
    fn consume(&mut self, update: DownloadUpdate)
        requires
            old(self).inv(),
        ensures
            final(self).inv(),
    ;
}

/// The aggregator's cache: the latest state per download since the last
/// flush, last writer winning.
pub struct DownloadUpdatePublisher {
    cache: Vec<(u128, State)>,
}

impl View for DownloadUpdatePublisher {
    type V = Map<u128, State>;

    closed spec fn view(&self) -> Map<u128, State> {
        entries_map(self.cache@)
    }
}

impl DownloadUpdatePublisher {
    /// The cache invariant: one entry per download.
    pub closed spec fn wf(self) -> bool {
        unique_ids(self.cache@)
    }

    /// An empty aggregator.
    pub fn new() -> (r: DownloadUpdatePublisher)
        ensures
            r.wf(),
            r@ == Map::<u128, State>::empty(),
    {
        let cache: Vec<(u128, State)> = Vec::new();
        proof {
            assert(entries_map(cache@) =~= Map::<u128, State>::empty());
        }
        DownloadUpdatePublisher { cache }
    }

    /// Consumes one update: the cache takes the update's state as the latest
    /// for its id, and if a flush is due — half a second has passed since the
    /// last flush and the update is terminal — the whole cache drains into
    /// the batch handed back, each id at most once in it. The runtime resets
    /// its flush clock exactly when a batch comes back.
    pub fn consume(&mut self, update: DownloadUpdate, elapsed_since_flush_ms: u64) -> (r: Option<
        Vec<(u128, State)>,
    >)
        requires
            old(self).wf(),
        ensures
            final(self).wf(),
            !spec_flush_due(update.state, elapsed_since_flush_ms) ==> r is None && final(self)@
                == old(self)@.insert(update.id, update.state),
            spec_flush_due(update.state, elapsed_since_flush_ms) ==> (r matches Some(batch) && {
                &&& unique_ids(batch@)
                &&& entries_map(batch@) == old(self)@.insert(update.id, update.state)
                &&& final(self)@ == Map::<u128, State>::empty()
            }),
    {
        let flush = elapsed_since_flush_ms > HALF_SECOND_MS && match update.state {
            State::Running { .. } => false,
            _ => true,
        };
        map_insert(&mut self.cache, update.id, update.state);
        if flush {
            let mut batch: Vec<(u128, State)> = Vec::new();
            core::mem::swap(&mut self.cache, &mut batch);
            proof {
                assert(entries_map(self.cache@) =~= Map::<u128, State>::empty());
            }
            Some(batch)
        } else {
            None
        }
    }
}

} // verus!
