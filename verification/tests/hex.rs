use rollup_core::config::{parse_hex_bytes, parse_hex_h256, build_rollup_script, generate_config, ConfigError};
use rollup_core::hash::H256;
use rollup_core::types::{Script, ScriptHashType};

#[test]
fn parse_hex_bytes_decodes_pairs() {
    let out = parse_hex_bytes(&b"0x00aBcD".to_vec()).unwrap();
    assert_eq!(out, vec![0x00, 0xab, 0xcd]);
    let bare = parse_hex_bytes(&b"ff01".to_vec()).unwrap();
    assert_eq!(bare, vec![0xff, 0x01]);
    let empty = parse_hex_bytes(&b"0x".to_vec()).unwrap();
    assert_eq!(empty, Vec::<u8>::new());
}

#[test]
fn parse_hex_bytes_rejects_bad_input() {
    assert_eq!(parse_hex_bytes(&b"0xabc".to_vec()), Err(ConfigError::InvalidHex));
    assert_eq!(parse_hex_bytes(&b"zz".to_vec()), Err(ConfigError::InvalidHex));
}

#[test]
fn parse_hex_h256_reads_limbs_big_endian() {
    let h = parse_hex_h256(
        &b"0x0000000000000001000000000000000200000000000000030000000000000004".to_vec(),
    )
    .unwrap();
    assert_eq!(h, H256 { limb0: 1, limb1: 2, limb2: 3, limb3: 4 });
    let short = parse_hex_h256(&b"0x0011".to_vec());
    assert_eq!(short, Err(ConfigError::InvalidLength));
}

#[test]
fn build_rollup_script_content_addresses_the_code() {
    let a = build_rollup_script(&vec![1, 2, 3]);
    let b = build_rollup_script(&vec![1, 2, 3]);
    let c = build_rollup_script(&vec![1, 2, 4]);
    assert_eq!(a.code_hash, b.code_hash);
    assert_ne!(a.code_hash, c.code_hash);
    assert!(a.hash_type == ScriptHashType::Data);
    assert!(a.args.is_empty());
    assert!(!a.code_hash.is_zero());
}

#[test]
fn generate_config_assembles_fields() {
    let rollup = Script {
        code_hash: H256 { limb0: 9, limb1: 9, limb2: 9, limb3: 9 },
        hash_type: ScriptHashType::Data,
        args: vec![],
    };
    let config = generate_config(
        vec![0xaa, 0xbb],
        H256 { limb0: 1, limb1: 2, limb2: 3, limb3: 4 },
        1000,
        42,
        String::from("127.0.0.1:3000"),
        rollup,
    );
    assert_eq!(config.consensus.aggregator_id, 1);
    assert_eq!(config.aggregator.unwrap().account_id, 1);
    assert_eq!(config.genesis.initial_deposition, 1000);
    assert_eq!(config.genesis.timestamp, 42);
    assert_eq!(config.genesis.initial_aggregator_script.args, vec![0xaa, 0xbb]);
    assert_eq!(config.rpc.listen, "127.0.0.1:3000");
}
