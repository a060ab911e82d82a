use xyk::{AssetId, AssetIdHash, Config, LPPairs, Pair, Pallet};

const HASH: AssetIdHash = AssetIdHash::BlakeTwo256;

fn lp_token(x: AssetId, y: AssetId) -> AssetId {
    Pallet::new(Config { dex_addr: 1000, lp_min_balance: 1, hash_fn: HASH }).lp_token(x, y)
}


#[test]
fn new_registry_is_empty() {
    let pools = LPPairs::new();
    assert_eq!(pools.len(), 0);
    assert!(!pools.contains_key(0));
    assert!(!pools.contains_key(lp_token(1, 2)));
    assert_eq!(pools.get(lp_token(1, 2)), None);
}

#[test]
fn insert_files_a_record_under_its_pool_id() {
    let mut pools = LPPairs::new();
    let pair = Pair::new(2, 30, 1, 40);
    let id = pools.insert(HASH, pair);
    assert_eq!(id, lp_token(1, 2));
    assert_eq!(pools.len(), 1);
    assert!(pools.contains_key(id));
    assert_eq!(
        pools.get(id),
        Some(Pair { x_id: 1, x_balance: 40, y_id: 2, y_balance: 30 })
    );
    assert_eq!(pools.get(lp_token(1, 3)), None);
}

#[test]
fn insert_replaces_the_record_of_the_same_pool() {
    let mut pools = LPPairs::new();
    let first = pools.insert(HASH, Pair::new(1, 10, 2, 20));
    let second = pools.insert(HASH, Pair::new(2, 7, 1, 5));
    assert_eq!(first, second);
    assert_eq!(pools.len(), 1);
    assert_eq!(
        pools.get(first),
        Some(Pair { x_id: 1, x_balance: 5, y_id: 2, y_balance: 7 })
    );
}

#[test]
fn records_of_different_pools_stand_side_by_side() {
    let mut pools = LPPairs::new();
    let a = pools.insert(HASH, Pair::new(1, 10, 2, 20));
    let b = pools.insert(HASH, Pair::new(1, 11, 3, 21));
    let c = pools.insert(HASH, Pair::new(2, 12, 3, 22));
    assert_eq!(pools.len(), 3);
    assert_eq!(pools.get(a).unwrap().y_balance, 20);
    assert_eq!(pools.get(b).unwrap().y_balance, 21);
    assert_eq!(pools.get(c).unwrap().y_balance, 22);
}

#[test]
fn insert_files_a_record_under_the_id_of_the_chosen_hash() {
    let keccak = Pallet::new(Config {
        dex_addr: 1000,
        lp_min_balance: 1,
        hash_fn: AssetIdHash::Keccak256,
    });
    let mut pools = LPPairs::new();
    let id = pools.insert(AssetIdHash::Keccak256, Pair::new(1, 10, 2, 20));
    assert_eq!(id, keccak.lp_token(1, 2));
    assert_ne!(id, lp_token(1, 2));
    assert!(pools.contains_key(id));
    assert!(!pools.contains_key(lp_token(1, 2)));
}
