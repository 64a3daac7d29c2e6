use reth_crawler::{BlockHashNum, UpdateListener};

fn hash_of(height: u64) -> (u64, u64, u64, u64) {
    (height, height ^ 0xffff, 0, 42)
}

#[test]
fn scenario_e_inserting_block_101_evicts_block_1() {
    let mut l = UpdateListener::new();
    for height in 1..=100u64 {
        l.insert_block(hash_of(height), height);
    }
    for height in 1..=100u64 {
        assert!(l.is_recent(&hash_of(height)));
    }
    l.insert_block(hash_of(101), 101);
    assert!(!l.is_recent(&hash_of(1)));
    for height in 2..=101u64 {
        assert!(l.is_recent(&hash_of(height)));
    }
}

#[test]
fn cache_never_exceeds_capacity() {
    let mut c = BlockHashNum::new();
    for height in 1..=150u64 {
        c.insert(hash_of(height), height);
        assert!(c.len() <= 100);
    }
    assert_eq!(c.len(), 100);
}

#[test]
fn is_recent_tracks_insertions() {
    let mut c = BlockHashNum::new();
    assert!(!c.is_recent(&hash_of(5)));
    c.insert(hash_of(5), 5);
    assert!(c.is_recent(&hash_of(5)));
    assert!(!c.is_recent(&hash_of(6)));
}

#[test]
fn reinserting_a_present_hash_does_not_grow_the_cache() {
    let mut c = BlockHashNum::new();
    c.insert(hash_of(1), 1);
    c.insert(hash_of(2), 2);
    c.insert(hash_of(1), 1);
    assert_eq!(c.len(), 2);
}

#[test]
fn reinserting_promotes_to_most_recent() {
    let mut c = BlockHashNum::new();
    for height in 1..=100u64 {
        c.insert(hash_of(height), height);
    }
    // promote the oldest entry, then overflow: the eviction must fall on
    // height 2, which is now the least recently used
    c.insert(hash_of(1), 1);
    c.insert(hash_of(101), 101);
    assert!(c.is_recent(&hash_of(1)));
    assert!(!c.is_recent(&hash_of(2)));
    assert!(c.is_recent(&hash_of(101)));
}

#[test]
fn backfill_inserts_every_block() {
    let mut c = BlockHashNum::new();
    let blocks: Vec<((u64, u64, u64, u64), u64)> =
        (900..=1000u64).map(|h| (hash_of(h), h)).collect();
    c.backfill(&blocks);
    assert_eq!(c.len(), 100);
    assert!(!c.is_recent(&hash_of(900)));
    for height in 901..=1000u64 {
        assert!(c.is_recent(&hash_of(height)));
    }
}

#[test]
fn rerunning_backfill_yields_the_same_membership() {
    let blocks: Vec<((u64, u64, u64, u64), u64)> =
        (900..=1000u64).map(|h| (hash_of(h), h)).collect();

    let mut cold = BlockHashNum::new();
    cold.backfill(&blocks);

    // a cache that already went through the same backfill, plus stray content
    let mut warm = BlockHashNum::new();
    warm.insert(hash_of(7777), 7777);
    warm.backfill(&blocks);
    warm.backfill(&blocks);

    assert_eq!(cold.len(), warm.len());
    for height in 900..=1000u64 {
        assert_eq!(cold.is_recent(&hash_of(height)), warm.is_recent(&hash_of(height)));
    }
    assert!(!warm.is_recent(&hash_of(7777)));
}

#[test]
fn default_cache_is_empty() {
    let c = BlockHashNum::default();
    assert_eq!(c.len(), 0);
    assert!(!c.is_recent(&hash_of(1)));
}
