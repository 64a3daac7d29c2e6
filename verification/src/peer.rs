use vstd::prelude::*;

verus! {

/// A 256-bit block hash, held as four 64-bit limbs.
pub type BlockHash = (u64, u64, u64, u64);

/// A discovered peer that has not yet been handshaken. The numeric `id` keys
/// the failure ledger; the text fields are the printable forms that end up in
/// the persisted record.
#[derive(Clone, Debug)]
pub struct PeerCandidate {
    pub id: u64,
    pub id_text: String,
    pub enode_url: String,
    pub address: String,
    pub tcp_port: u16,
}

/// The peer's self-reported hello from the transport (layer-1) handshake.
#[derive(Clone, Debug)]
pub struct HelloInfo {
    pub client_version: String,
    pub capabilities: Vec<String>,
}

/// The peer's chain status from the application (layer-2) handshake.
#[derive(Debug)]
pub struct StatusInfo {
    pub version: u8,
    pub chain: String,
    pub total_difficulty: String,
    pub best_block: BlockHash,
    pub best_block_text: String,
    pub genesis_hash: String,
}

/// Best-effort reverse-geolocation result for a peer address.
#[derive(Clone, Debug)]
pub struct GeoInfo {
    pub country: String,
    pub city: String,
    pub isp: String,
}

/// The normalized peer record handed to the persistence sink.
#[derive(Clone, Debug)]
pub struct PeerData {
    pub enode_url: String,
    pub id: String,
    pub address: String,
    pub tcp_port: u16,
    pub client_version: String,
    pub eth_version: u8,
    pub capabilities: Vec<String>,
    pub total_difficulty: String,
    pub chain: String,
    pub best_block: String,
    pub genesis_block_hash: String,
    pub last_seen: String,
    pub country: String,
    pub city: String,
    pub synced: Option<bool>,
    pub isp: String,
}

/// A peer record reduced to the client-software string, as served by the
/// read-only query surface.
#[derive(Clone, Debug)]
pub struct ClientData {
    pub client_version: String,
}

/// Two records that agree on every field except `isp`.
pub open spec fn same_but_isp(a: PeerData, b: PeerData) -> bool {
    &&& a.enode_url == b.enode_url
    &&& a.id == b.id
    &&& a.address == b.address
    &&& a.tcp_port == b.tcp_port
    &&& a.client_version == b.client_version
    &&& a.eth_version == b.eth_version
    &&& a.capabilities == b.capabilities
    &&& a.total_difficulty == b.total_difficulty
    &&& a.chain == b.chain
    &&& a.best_block == b.best_block
    &&& a.genesis_block_hash == b.genesis_block_hash
    &&& a.last_seen == b.last_seen
    &&& a.country == b.country
    &&& a.city == b.city
    &&& a.synced == b.synced
}

/// Reduces stored peer records to their client-software strings.
pub fn client_versions(peers: &Vec<PeerData>) -> (r: Vec<ClientData>)
    ensures
        r@.len() == peers@.len(),
        forall|i: int|
            0 <= i < r@.len() ==> #[trigger] r@[i].client_version@
                == peers@[i].client_version@,
{
    let mut r: Vec<ClientData> = Vec::new();
    let mut i: usize = 0;
    while i < peers.len()
        invariant
            i <= peers@.len(),
            r@.len() == i,
            forall|j: int|
                0 <= j < i ==> #[trigger] r@[j].client_version@
                    == peers@[j].client_version@,
        decreases peers@.len() - i,
    {
        let client_version = peers[i].client_version.clone();
        r.push(ClientData { client_version });
        i = i + 1;
    }
    r
}

/// Applies a best-effort ISP lookup to a stored record: on success the field
/// is replaced, on failure it is left empty; no other field changes.
pub fn with_isp(peer: PeerData, lookup: Option<String>) -> (r: PeerData)
    ensures
        same_but_isp(peer, r),
        match lookup {
            Some(isp) => r.isp == isp,
            None => r.isp@.len() == 0,
        },
{
    let isp = match lookup {
        Some(isp) => isp,
        None => String::new(),
    };
    PeerData { isp, ..peer }
}

} // verus!
