//! Core of a peer-to-peer network crawler: a bounded block recency cache
//! classifying peers as synced, a failure ledger driving a ban-on-failure
//! policy over a two-layer handshake, and the assembly of normalized peer
//! records, with the behaviour of each stated in its contract. The
//! surrounding binary supplies the discovery streams, handshake codec, chain
//! subscription, geolocation and persistence, and consults these functions
//! for every decision.

mod cache;
mod ledger;
mod listener;
mod peer;

pub use cache::{
    BlockHashNum, backfilled, cache_after_insert, has_block, lemma_backfill_deterministic,
    lemma_has_block_append, lemma_has_block_drop_last, lemma_insert_full_evicts,
    lemma_insert_membership, lemma_insert_preserves_wf, lemma_remove_block, remove_block,
    unique_blocks,
};
pub use ledger::FailureLedger;
pub use listener::{
    FailureEvent, SessionJudgment, UpdateListener, Verdict, backfill_start, record_assembled,
};
pub use peer::{
    BlockHash, ClientData, GeoInfo, HelloInfo, PeerCandidate, PeerData, StatusInfo,
    client_versions, same_but_isp, with_isp,
};

use vstd::prelude::*;

verus! {

/// How many blocks a peer may lag behind and still be considered synced;
/// also the capacity of the block recency cache.
pub const SYNCED_THRESHOLD: u64 = 100;

/// Number of non-capacity transport-handshake failures after which a peer
/// address is banned.
pub const P2P_FAILURE_THRESHOLD: u64 = 5;

} // verus!
