use reth_crawler::{PeerData, backfill_start, client_versions, with_isp};

fn record(client_version: &str, isp: &str) -> PeerData {
    PeerData {
        enode_url: "enode://aa@198.51.100.2:30303".to_string(),
        id: "0xaa".to_string(),
        address: "198.51.100.2".to_string(),
        tcp_port: 30303,
        client_version: client_version.to_string(),
        eth_version: 68,
        capabilities: vec!["eth/68".to_string()],
        total_difficulty: "17179869184".to_string(),
        chain: "mainnet".to_string(),
        best_block: "0x01".to_string(),
        genesis_block_hash: "0x02".to_string(),
        last_seen: "2023-09-01 12:00:00 UTC".to_string(),
        country: "Norway".to_string(),
        city: "Oslo".to_string(),
        synced: Some(true),
        isp: isp.to_string(),
    }
}

#[test]
fn client_versions_keeps_order_and_length() {
    let peers = vec![record("reth/v0.1.0", "a"), record("geth/v1.13", "b"), record("", "c")];
    let clients = client_versions(&peers);
    assert_eq!(clients.len(), 3);
    assert_eq!(clients[0].client_version, "reth/v0.1.0");
    assert_eq!(clients[1].client_version, "geth/v1.13");
    assert_eq!(clients[2].client_version, "");
}

#[test]
fn with_isp_replaces_only_the_isp() {
    let p = with_isp(record("reth/v0.1.0", ""), Some("New ISP".to_string()));
    assert_eq!(p.isp, "New ISP");
    assert_eq!(p.client_version, "reth/v0.1.0");
    assert_eq!(p.country, "Norway");
    assert_eq!(p.city, "Oslo");
    assert_eq!(p.last_seen, "2023-09-01 12:00:00 UTC");
    assert_eq!(p.synced, Some(true));
}

#[test]
fn with_isp_on_failed_lookup_leaves_it_empty() {
    let p = with_isp(record("reth/v0.1.0", "Old ISP"), None);
    assert_eq!(p.isp, "");
    assert_eq!(p.client_version, "reth/v0.1.0");
}

#[test]
fn backfill_range_starts_a_threshold_behind_the_head() {
    assert_eq!(backfill_start(1000), 900);
    assert_eq!(backfill_start(100), 0);
}
