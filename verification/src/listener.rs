use vstd::prelude::*;
use crate::cache::{BlockHashNum, backfilled, cache_after_insert, has_block};
use crate::ledger::FailureLedger;
use crate::peer::{BlockHash, GeoInfo, HelloInfo, PeerCandidate, PeerData, StatusInfo};
use crate::{P2P_FAILURE_THRESHOLD, SYNCED_THRESHOLD};

verus! {

/// A handshake failure event for one candidate.
#[derive(Clone, Copy, Debug, PartialEq, Eq, Structural)]
pub enum FailureEvent {
    /// The transport (layer-1) handshake failed; `at_capacity` tells whether
    /// it failed only because the peer is at its connection limit.
    Layer1 { at_capacity: bool },
    /// The application (layer-2) handshake failed.
    Layer2,
}

/// What the ban policy decides for one failure event.
#[derive(Clone, Copy, Debug, PartialEq, Eq, Structural)]
pub enum Verdict {
    /// Capacity failure: drop the candidate silently, the ledger untouched.
    Discard,
    /// The incremented failure count was recorded; no ban yet.
    Recorded,
    /// Ban the candidate's network address at the discovery layer.
    Ban,
}

/// Outcome of the success path of the handshake pipeline.
pub enum SessionJudgment {
    /// Ban the candidate's network address: it completed the handshake with
    /// an empty client version.
    BanPeer,
    /// Hand this record to the persistence sink.
    Persist(PeerData),
}

/// The record `p` is assembled from exactly these inputs: the candidate's
/// identity and address, the handshake metadata, the geolocation result
/// (left empty when the lookup failed), the sync classification, and the
/// observation timestamp.
pub open spec fn record_assembled(
    p: PeerData,
    cand: PeerCandidate,
    client_version: String,
    capabilities: Vec<String>,
    status: StatusInfo,
    geo: Option<GeoInfo>,
    synced: bool,
    last_seen: Seq<char>,
) -> bool {
    &&& p.enode_url@ == cand.enode_url@
    &&& p.id@ == cand.id_text@
    &&& p.address@ == cand.address@
    &&& p.tcp_port == cand.tcp_port
    &&& p.client_version@ == client_version@
    &&& p.eth_version == status.version
    &&& p.capabilities == capabilities
    &&& p.total_difficulty@ == status.total_difficulty@
    &&& p.chain@ == status.chain@
    &&& p.best_block@ == status.best_block_text@
    &&& p.genesis_block_hash@ == status.genesis_hash@
    &&& p.last_seen@ == last_seen
    &&& match geo {
        Some(g) => p.country@ == g.country@ && p.city@ == g.city@ && p.isp@ == g.isp@,
        None => p.country@.len() == 0 && p.city@.len() == 0 && p.isp@.len() == 0,
    }
    &&& p.synced == Some(synced)
}

/// Relies on chrono's Utc::now: the printed observation timestamp is a
/// non-empty string; its value depends on the clock alone.
#[verifier::external_body]
fn utc_now_string() -> (r: String)
    ensures
        r@.len() > 0,
{
    chrono::Utc::now().to_string()
}

/// The first height of the startup backfill range, `SYNCED_THRESHOLD` blocks
/// behind the chain head.
pub fn backfill_start(last_block_number: u64) -> (r: u64)
    requires
        last_block_number >= SYNCED_THRESHOLD,
    ensures
        r == last_block_number - SYNCED_THRESHOLD,
{
    last_block_number - SYNCED_THRESHOLD
}

/// The peer-update orchestrator's shared state: the ledger of consecutive
/// transport-handshake failures consulted by the ban policy, and the block
/// recency cache used to classify a peer's sync status.
pub struct UpdateListener {
    pub p2p_failures: FailureLedger,
    pub state: BlockHashNum,
}

impl UpdateListener {
    pub open spec fn wf(&self) -> bool {
        &&& self.p2p_failures.wf()
        &&& self.state.wf()
    }

    pub fn new() -> (r: Self)
        ensures
            r.wf(),
            forall|id: u64| #[trigger] r.p2p_failures.spec_count(id) == 0,
            r.state@ == Seq::<(BlockHash, u64)>::empty(),
    {
        UpdateListener { p2p_failures: FailureLedger::new(), state: BlockHashNum::new() }
    }

    /// Applies the ban policy to one handshake failure of the candidate
    /// identified by `peer_id`:
    /// a capacity failure is ignored; any other transport failure raises the
    /// failure count by one until it would reach the threshold, where a ban
    /// is issued instead and the count resets to zero; an application-layer
    /// failure is an immediate ban whatever the count, the ledger untouched.
    pub fn on_failure(&mut self, peer_id: u64, event: FailureEvent) -> (v: Verdict)
        requires
            old(self).wf(),
        ensures
            final(self).wf(),
            final(self).state == old(self).state,
            forall|q: u64|
                q != peer_id ==> #[trigger] final(self).p2p_failures.spec_count(q) == old(
                    self,
                ).p2p_failures.spec_count(q),
            match event {
                FailureEvent::Layer2 => v == Verdict::Ban && final(self).p2p_failures.spec_count(
                    peer_id,
                ) == old(self).p2p_failures.spec_count(peer_id),
                FailureEvent::Layer1 { at_capacity } => {
                    if at_capacity {
                        v == Verdict::Discard && final(self).p2p_failures.spec_count(peer_id)
                            == old(self).p2p_failures.spec_count(peer_id)
                    } else if old(self).p2p_failures.spec_count(peer_id) + 1
                        >= P2P_FAILURE_THRESHOLD {
                        v == Verdict::Ban && final(self).p2p_failures.spec_count(peer_id) == 0
                    } else {
                        v == Verdict::Recorded && final(self).p2p_failures.spec_count(peer_id)
                            == old(self).p2p_failures.spec_count(peer_id) + 1
                    }
                },
            },
    {
        match event {
            FailureEvent::Layer2 => Verdict::Ban,
            FailureEvent::Layer1 { at_capacity } => {
                if at_capacity {
                    Verdict::Discard
                } else {
                    let count = self.p2p_failures.count(peer_id);
                    let next = count + 1;
                    if next >= P2P_FAILURE_THRESHOLD {
                        self.p2p_failures.set(peer_id, 0);
                        Verdict::Ban
                    } else {
                        self.p2p_failures.set(peer_id, next);
                        Verdict::Recorded
                    }
                }
            },
        }
    }

    /// Judges the success path of the handshake pipeline: a peer whose hello
    /// carries an empty client version is banned and yields no record; any
    /// other peer yields exactly one assembled record, classified as synced
    /// when its best block is among the recently observed chain blocks.
    pub fn judge_session(
        &self,
        cand: PeerCandidate,
        hello: HelloInfo,
        status: StatusInfo,
        geo: Option<GeoInfo>,
        last_seen: String,
    ) -> (r: SessionJudgment)
        ensures
            match r {
                SessionJudgment::BanPeer => hello.client_version@.len() == 0,
                SessionJudgment::Persist(p) => hello.client_version@.len() > 0
                    && record_assembled(
                    p,
                    cand,
                    hello.client_version,
                    hello.capabilities,
                    status,
                    geo,
                    has_block(self.state@, status.best_block),
                    last_seen@,
                ),
            },
    {
        if hello.client_version.as_str().is_empty() {
            return SessionJudgment::BanPeer;
        }
        let synced = self.state.is_recent(&status.best_block);
        let (country, city, isp) = match geo {
            Some(g) => (g.country, g.city, g.isp),
            None => (String::new(), String::new(), String::new()),
        };
        SessionJudgment::Persist(
            PeerData {
                enode_url: cand.enode_url,
                id: cand.id_text,
                address: cand.address,
                tcp_port: cand.tcp_port,
                client_version: hello.client_version,
                eth_version: status.version,
                capabilities: hello.capabilities,
                total_difficulty: status.total_difficulty,
                chain: status.chain,
                best_block: status.best_block_text,
                genesis_block_hash: status.genesis_hash,
                last_seen,
                country,
                city,
                isp,
                synced: Some(synced),
            },
        )
    }

    /// The success-path judgment stamped with the current observation time.
    pub fn judge_session_now(
        &self,
        cand: PeerCandidate,
        hello: HelloInfo,
        status: StatusInfo,
        geo: Option<GeoInfo>,
    ) -> (r: SessionJudgment)
        ensures
            match r {
                SessionJudgment::BanPeer => hello.client_version@.len() == 0,
                SessionJudgment::Persist(p) => hello.client_version@.len() > 0
                    && p.last_seen@.len() > 0 && record_assembled(
                    p,
                    cand,
                    hello.client_version,
                    hello.capabilities,
                    status,
                    geo,
                    has_block(self.state@, status.best_block),
                    p.last_seen@,
                ),
            },
    {
        let last_seen = utc_now_string();
        self.judge_session(cand, hello, status, geo, last_seen)
    }

    /// Judges an already-established network session, whose handshake was done
    /// by the network stack itself: only metadata extraction, geolocation and
    /// sync classification apply, and an empty client version yields no
    /// record (the candidate is dropped without a ban).
    pub fn judge_established_session(
        &self,
        cand: PeerCandidate,
        client_version: String,
        capabilities: Vec<String>,
        status: StatusInfo,
        geo: Option<GeoInfo>,
        last_seen: String,
    ) -> (r: Option<PeerData>)
        ensures
            match r {
                None => client_version@.len() == 0,
                Some(p) => client_version@.len() > 0 && record_assembled(
                    p,
                    cand,
                    client_version,
                    capabilities,
                    status,
                    geo,
                    has_block(self.state@, status.best_block),
                    last_seen@,
                ),
            },
    {
        if client_version.as_str().is_empty() {
            return None;
        }
        let synced = self.state.is_recent(&status.best_block);
        let (country, city, isp) = match geo {
            Some(g) => (g.country, g.city, g.isp),
            None => (String::new(), String::new(), String::new()),
        };
        Some(
            PeerData {
                enode_url: cand.enode_url,
                id: cand.id_text,
                address: cand.address,
                tcp_port: cand.tcp_port,
                client_version,
                eth_version: status.version,
                capabilities,
                total_difficulty: status.total_difficulty,
                chain: status.chain,
                best_block: status.best_block_text,
                genesis_block_hash: status.genesis_hash,
                last_seen,
                country,
                city,
                isp,
                synced: Some(synced),
            },
        )
    }

    /// Seeds the recency cache from the canonical blocks of the startup
    /// range query, oldest first, before any live classification.
    pub fn initialize_state(&mut self, blocks: &Vec<(BlockHash, u64)>)
        requires
            old(self).wf(),
        ensures
            final(self).wf(),
            final(self).state@ == backfilled(old(self).state@, blocks@),
            final(self).p2p_failures == old(self).p2p_failures,
    {
        self.state.backfill(blocks);
    }

    /// Records one new chain-head block, as the live block subscription does.
    pub fn insert_block(&mut self, hash: BlockHash, number: u64)
        requires
            old(self).wf(),
        ensures
            final(self).wf(),
            final(self).state@ == cache_after_insert(
                old(self).state@,
                SYNCED_THRESHOLD as nat,
                hash,
                number,
            ),
            final(self).p2p_failures == old(self).p2p_failures,
    {
        self.state.insert(hash, number);
    }

    /// Is `hash` among the most recently observed chain blocks?
    pub fn is_recent(&self, hash: &BlockHash) -> (r: bool)
        ensures
            r == has_block(self.state@, *hash),
    {
        self.state.is_recent(hash)
    }

    /// The failure count currently held against `peer_id`.
    pub fn failure_count(&self, peer_id: u64) -> (n: u64)
        ensures
            n == self.p2p_failures.spec_count(peer_id),
    {
        self.p2p_failures.count(peer_id)
    }
}

} // verus!
