use rollup_core::config::{GenesisConfig, RollupConfig};
use rollup_core::genesis::{build_genesis, init_genesis};
use rollup_core::hash::H256;
use rollup_core::store::Store;
use rollup_core::types::{HeaderInfo, Script, ScriptHashType};

fn fixture_aggregator_script() -> Script {
    Script {
        code_hash: H256 { limb0: 11, limb1: 22, limb2: 33, limb3: 44 },
        hash_type: ScriptHashType::Data,
        args: vec![1, 2, 3],
    }
}

fn fixture_config(timestamp: u64) -> GenesisConfig {
    GenesisConfig {
        initial_aggregator_script: fixture_aggregator_script(),
        initial_deposition: 500,
        timestamp,
    }
}

#[test]
fn test_init_genesis() {
    let genesis_block_hash = H256 {
        limb0: 8681143321444598059,
        limb1: 1518502742970959165,
        limb2: 1518502742970959166,
        limb3: 1518502742970959167,
    };
    let config = fixture_config(42);
    let rollup_config = RollupConfig { finality_blocks: 0 };
    let genesis = build_genesis(&config, &rollup_config).unwrap();
    assert_eq!(genesis.genesis.hash(), genesis_block_hash);
    let header_info = HeaderInfo { number: 0, block_hash: H256::zero() };
    let mut store = Store::open();
    init_genesis(&mut store, &config, &rollup_config, header_info, H256::zero()).unwrap();
    // check init values
    assert_ne!(store.get_block_smt_root().unwrap(), H256::zero());
    assert_ne!(store.get_account_smt_root().unwrap(), H256::zero());
    let tree = store.checkout_state(0).unwrap();
    assert!(tree.get_account_count() > 0);
    // get reserved account's script
    let meta_contract_script_hash = tree.get_script_hash(0);
    assert_ne!(meta_contract_script_hash, H256::zero());
    let script = tree.get_script(&meta_contract_script_hash).expect("script");
    assert!(script.hash_type == ScriptHashType::Data);
    assert_ne!(script.code_hash, H256::zero());
}

#[test]
fn build_genesis_is_deterministic() {
    let rollup_config = RollupConfig { finality_blocks: 0 };
    let a = build_genesis(&fixture_config(42), &rollup_config).unwrap();
    let b = build_genesis(&fixture_config(42), &rollup_config).unwrap();
    assert_eq!(a.genesis.hash(), b.genesis.hash());
    assert_eq!(a.genesis.post_account, b.genesis.post_account);
    assert_eq!(a.leaves_map.len(), b.leaves_map.len());
    for (x, y) in a.leaves_map.iter().zip(b.leaves_map.iter()) {
        assert_eq!(x, y);
    }
    // a different timestamp gives a different block hash
    let c = build_genesis(&fixture_config(43), &rollup_config).unwrap();
    assert_ne!(a.genesis.hash(), c.genesis.hash());
}

#[test]
fn init_genesis_refuses_nonempty_store() {
    let config = fixture_config(42);
    let rollup_config = RollupConfig { finality_blocks: 0 };
    let header_info = HeaderInfo { number: 0, block_hash: H256::zero() };
    let mut store = Store::open();
    init_genesis(&mut store, &config, &rollup_config, header_info, H256::zero()).unwrap();
    let again = init_genesis(&mut store, &config, &rollup_config, header_info, H256::zero());
    assert!(again.is_err());
}

#[test]
fn genesis_funds_initial_aggregator() {
    let config = fixture_config(42);
    let rollup_config = RollupConfig { finality_blocks: 0 };
    let header_info = HeaderInfo { number: 0, block_hash: H256::zero() };
    let mut store = Store::open();
    init_genesis(&mut store, &config, &rollup_config, header_info, H256::zero()).unwrap();
    let tree = store.checkout_state(0).unwrap();
    assert_eq!(tree.get_account_count(), 2);
    assert_eq!(tree.get_balance(1), 500);
    assert_eq!(tree.get_nonce(1), 0);
    let aggregator_hash = fixture_aggregator_script().hash();
    assert_eq!(tree.get_script_hash(1), aggregator_hash);
    assert_eq!(tree.get_account_id_by_script_hash(&aggregator_hash), Some(1));
}
