use reth_crawler::{
    GeoInfo, HelloInfo, PeerCandidate, SessionJudgment, StatusInfo, UpdateListener,
};

fn candidate() -> PeerCandidate {
    PeerCandidate {
        id: 11,
        id_text: "0xabcdef".to_string(),
        enode_url: "enode://abcdef@203.0.113.7:30303".to_string(),
        address: "203.0.113.7".to_string(),
        tcp_port: 30303,
    }
}

fn hello(client_version: &str) -> HelloInfo {
    HelloInfo {
        client_version: client_version.to_string(),
        capabilities: vec!["eth/68".to_string(), "snap/1".to_string()],
    }
}

fn status(best_block: (u64, u64, u64, u64)) -> StatusInfo {
    StatusInfo {
        version: 68,
        chain: "mainnet".to_string(),
        total_difficulty: "58750003716598352816469".to_string(),
        best_block,
        best_block_text: "0x00aa".to_string(),
        genesis_hash: "0xd4e5".to_string(),
    }
}

fn geo() -> GeoInfo {
    GeoInfo {
        country: "Iceland".to_string(),
        city: "Reykjavik".to_string(),
        isp: "Example ISP".to_string(),
    }
}

#[test]
fn scenario_c_synced_peer_record() {
    let mut l = UpdateListener::new();
    let best = (1, 2, 3, 4);
    l.insert_block(best, 900);
    let r = l.judge_session(
        candidate(),
        hello("reth/v0.1.0"),
        status(best),
        Some(geo()),
        "2023-09-01 12:00:00 UTC".to_string(),
    );
    match r {
        SessionJudgment::Persist(p) => {
            assert_eq!(p.synced, Some(true));
            assert_eq!(p.enode_url, "enode://abcdef@203.0.113.7:30303");
            assert_eq!(p.id, "0xabcdef");
            assert_eq!(p.address, "203.0.113.7");
            assert_eq!(p.tcp_port, 30303);
            assert_eq!(p.client_version, "reth/v0.1.0");
            assert_eq!(p.eth_version, 68);
            assert_eq!(p.capabilities, vec!["eth/68".to_string(), "snap/1".to_string()]);
            assert_eq!(p.total_difficulty, "58750003716598352816469");
            assert_eq!(p.chain, "mainnet");
            assert_eq!(p.best_block, "0x00aa");
            assert_eq!(p.genesis_block_hash, "0xd4e5");
            assert_eq!(p.last_seen, "2023-09-01 12:00:00 UTC");
            assert_eq!(p.country, "Iceland");
            assert_eq!(p.city, "Reykjavik");
            assert_eq!(p.isp, "Example ISP");
        }
        SessionJudgment::BanPeer => panic!("a synced peer must yield a record"),
    }
}

#[test]
fn scenario_d_empty_client_version_is_banned() {
    let l = UpdateListener::new();
    let r = l.judge_session(
        candidate(),
        hello(""),
        status((1, 2, 3, 4)),
        Some(geo()),
        "2023-09-01 12:00:00 UTC".to_string(),
    );
    assert!(matches!(r, SessionJudgment::BanPeer));
}

#[test]
fn unknown_best_block_classifies_not_synced() {
    let l = UpdateListener::new();
    let r = l.judge_session(
        candidate(),
        hello("geth/v1.13"),
        status((9, 9, 9, 9)),
        None,
        "now".to_string(),
    );
    match r {
        SessionJudgment::Persist(p) => assert_eq!(p.synced, Some(false)),
        SessionJudgment::BanPeer => panic!("a named client must yield a record"),
    }
}

#[test]
fn failed_geolocation_leaves_location_empty() {
    let l = UpdateListener::new();
    let r = l.judge_session(
        candidate(),
        hello("geth/v1.13"),
        status((9, 9, 9, 9)),
        None,
        "now".to_string(),
    );
    match r {
        SessionJudgment::Persist(p) => {
            assert_eq!(p.country, "");
            assert_eq!(p.city, "");
            assert_eq!(p.isp, "");
        }
        SessionJudgment::BanPeer => panic!("a named client must yield a record"),
    }
}

#[test]
fn judge_session_now_stamps_a_timestamp() {
    let l = UpdateListener::new();
    let r = l.judge_session_now(candidate(), hello("reth/v0.1.0"), status((1, 2, 3, 4)), None);
    match r {
        SessionJudgment::Persist(p) => assert!(!p.last_seen.is_empty()),
        SessionJudgment::BanPeer => panic!("a named client must yield a record"),
    }
}

#[test]
fn established_session_with_empty_version_yields_nothing() {
    let l = UpdateListener::new();
    let r = l.judge_established_session(
        candidate(),
        String::new(),
        vec!["eth/68".to_string()],
        status((1, 2, 3, 4)),
        Some(geo()),
        "now".to_string(),
    );
    assert!(r.is_none());
}

#[test]
fn established_session_yields_a_record() {
    let mut l = UpdateListener::new();
    let best = (5, 6, 7, 8);
    l.insert_block(best, 901);
    let r = l.judge_established_session(
        candidate(),
        "besu/23.7".to_string(),
        vec!["eth/68".to_string()],
        status(best),
        None,
        "now".to_string(),
    );
    let p = r.expect("a named client must yield a record");
    assert_eq!(p.client_version, "besu/23.7");
    assert_eq!(p.capabilities, vec!["eth/68".to_string()]);
    assert_eq!(p.synced, Some(true));
    assert_eq!(p.country, "");
}
