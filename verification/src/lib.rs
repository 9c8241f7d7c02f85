//! Core of a multi-download HTTP fetcher: per-resource download planning and
//! progress accounting, a registry of download items, an update aggregator,
//! and an observer that tracks the latest state of every download.

pub mod api;
pub mod config;
pub mod download;
pub mod error;
pub mod item;
pub mod keyed;
pub mod laws;
pub mod manager;
pub mod numfmt;
pub mod observer;
pub mod publisher;
pub mod state;
pub mod util;

use vstd::prelude::*;

verus! {

/// Half a second, in milliseconds: the progress emission period and the
/// publisher's flush period.
pub const HALF_SECOND_MS: u64 = 500;

} // verus!
