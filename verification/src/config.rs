//! Deployment configuration: the immutable struct handed in at process
//! start, and the verified assembly of one from raw setup inputs.
//!
//! The hex-encoded inputs of the setup flow are decoded here; only the
//! decoding call itself is delegated to an outside routine, under an exact
//! contract.

use vstd::prelude::*;

use crate::hash::{h256_from_bytes, spec_h256_from_bytes, H256};
use crate::types::{Script, ScriptHashType, ScriptView};

verus! {

/// Consensus parameters of the rollup deployment.
#[derive(Clone, Copy, PartialEq, Eq, Structural, Debug)]
pub struct RollupConfig {
    /// Blocks after which a committed block is final on the base layer.
    pub finality_blocks: u64,
}

/// Signing material of an aggregator; deployment-specific and opaque here.
#[derive(Clone, Copy, PartialEq, Eq, Structural, Debug, Default, Hash)]
pub struct SignerConfig {}

/// An aggregator identity: its account id and its signer.
#[derive(Clone, Copy, PartialEq, Eq, Structural, Debug, Default, Hash)]
pub struct AggregatorConfig {
    pub account_id: u32,
    pub signer: SignerConfig,
}

/// Which aggregator the consensus follows.
#[derive(Clone, Copy, PartialEq, Eq, Structural, Debug, Default, Hash)]
pub struct ConsensusConfig {
    pub aggregator_id: u32,
}

/// What the genesis block is built from.
#[derive(Clone, Debug)]
pub struct GenesisConfig {
    pub initial_aggregator_script: Script,
    pub initial_deposition: u64,
    pub timestamp: u64,
}

pub ghost struct GenesisConfigView {
    pub initial_aggregator_script: ScriptView,
    pub initial_deposition: u64,
    pub timestamp: u64,
}

impl View for GenesisConfig {
    type V = GenesisConfigView;

    open spec fn view(&self) -> GenesisConfigView {
        GenesisConfigView {
            initial_aggregator_script: self.initial_aggregator_script@,
            initial_deposition: self.initial_deposition,
            timestamp: self.timestamp,
        }
    }
}

/// Which base-layer cell the chain watches.
#[derive(Clone, Debug)]
pub struct ChainConfig {
    pub rollup_type_script: Script,
}

/// Where the node's RPC server listens.
#[derive(Clone, PartialEq, Eq, Debug, Default, Hash)]
pub struct RPC {
    pub listen: String,
}

/// The whole deployment configuration.
#[derive(Clone, Debug)]
pub struct Config {
    pub chain: ChainConfig,
    pub consensus: ConsensusConfig,
    pub rpc: RPC,
    pub genesis: GenesisConfig,
    pub aggregator: Option<AggregatorConfig>,
}

/// A failure while decoding setup inputs.
#[derive(Clone, Copy, PartialEq, Eq, Structural, Debug, Hash)]
pub enum ConfigError {
    /// A byte outside `0-9a-fA-F`, or an odd number of hex digits.
    InvalidHex,
    /// A decoded value of the wrong size.
    InvalidLength,
}

/// An ASCII hex digit.
pub open spec fn spec_is_hex_digit(b: u8) -> bool {
    (0x30 <= b <= 0x39) || (0x61 <= b <= 0x66) || (0x41 <= b <= 0x46)
}

/// The value of an ASCII hex digit.
pub open spec fn spec_hex_val(b: u8) -> u8 {
    if 0x30 <= b <= 0x39 {
        (b - 0x30) as u8
    } else if 0x61 <= b <= 0x66 {
        (b - 0x61 + 10) as u8
    } else {
        (b - 0x41 + 10) as u8
    }
}

/// Every byte is a hex digit.
pub open spec fn spec_hex_valid(s: Seq<u8>) -> bool {
    forall|i: int| 0 <= i < s.len() ==> spec_is_hex_digit(#[trigger] s[i])
}

/// The bytes encoded by a hex string: two digits each.
pub open spec fn spec_hex_decode(s: Seq<u8>) -> Seq<u8> {
    Seq::new((s.len() / 2) as nat, |i: int| (spec_hex_val(s[2 * i]) * 16 + spec_hex_val(
        s[2 * i + 1],
    )) as u8)
}

/// Relies on faster_hex::hex_decode: it decodes all of `src` as hex into the
/// front of `dst` and returns `Ok` exactly when `src` has even length, `dst`
/// has room for the decoded bytes, and every byte of `src` is a hex digit;
/// on any error it leaves `dst` entirely unchanged.
#[verifier::external_body]
fn hex_decode_into(src: &Vec<u8>, dst: &mut Vec<u8>) -> (r: bool)
    ensures
        r == (src@.len() % 2 == 0 && src@.len() <= old(dst)@.len() * 2 && spec_hex_valid(src@)),
        final(dst)@.len() == old(dst)@.len(),
        r ==> final(dst)@ == spec_hex_decode(src@) + old(dst)@.skip((src@.len() / 2) as int),
        !r ==> final(dst)@ == old(dst)@,
{
    faster_hex::hex_decode(src.as_slice(), dst.as_mut_slice()).is_ok()
}

/// The hex body of a setup input: one leading `0x`, when present, is
/// dropped.
pub open spec fn spec_hex_body(s: Seq<u8>) -> Seq<u8> {
    if s.len() >= 2 && s[0] == 0x30u8 && s[1] == 0x78u8 {
        s.skip(2)
    } else {
        s
    }
}

/// Decode a hex-encoded setup input, with or without a `0x` prefix, into
/// bytes. Succeeds exactly on an even number of hex digits.
pub fn parse_hex_bytes(src: &Vec<u8>) -> (r: Result<Vec<u8>, ConfigError>)
    ensures
        (r is Ok) == (spec_hex_body(src@).len() % 2 == 0 && spec_hex_valid(spec_hex_body(src@))),
        r is Ok ==> r->Ok_0@ == spec_hex_decode(spec_hex_body(src@)),
        r is Err ==> r->Err_0 == ConfigError::InvalidHex,
{
    let has_prefix = src.len() >= 2 && src[0] == 0x30u8 && src[1] == 0x78u8;
    let start: usize = if has_prefix {
        2
    } else {
        0
    };
    let mut body: Vec<u8> = Vec::new();
    let mut i: usize = start;
    while i < src.len()
        invariant
            start <= i <= src@.len(),
            body@ == src@.skip(start as int).take(i - start),
        decreases src@.len() - i,
    {
        body.push(src[i]);
        proof {
            assert(src@.skip(start as int).take(i - start + 1) =~= src@.skip(start as int).take(
                i - start,
            ).push(src@[i as int]));
        }
        i = i + 1;
    }
    proof {
        assert(src@.skip(start as int).take(src@.len() - start) =~= src@.skip(start as int));
        if has_prefix {
            assert(spec_hex_body(src@) == src@.skip(2));
        } else {
            assert(src@.skip(0) =~= src@);
        }
        assert(body@ == spec_hex_body(src@));
    }
    if body.len() % 2 != 0 {
        return Err(ConfigError::InvalidHex);
    }
    let out_len = body.len() / 2;
    let mut out: Vec<u8> = Vec::new();
    let mut j: usize = 0;
    while j < out_len
        invariant
            0 <= j <= out_len,
            out@.len() == j,
            forall|q: int| 0 <= q < j ==> out@[q] == 0u8,
        decreases out_len - j,
    {
        out.push(0u8);
        j = j + 1;
    }
    if hex_decode_into(&body, &mut out) {
        proof {
            assert(out@ =~= spec_hex_decode(body@) + out@.skip((body@.len() / 2) as int));
            assert(out@ =~= spec_hex_decode(spec_hex_body(src@)));
        }
        Ok(out)
    } else {
        Err(ConfigError::InvalidHex)
    }
}

/// Decode a hex-encoded 256-bit value, with or without a `0x` prefix.
/// Succeeds exactly on 64 hex digits.
pub fn parse_hex_h256(src: &Vec<u8>) -> (r: Result<H256, ConfigError>)
    ensures
        (r is Ok) == (spec_hex_body(src@).len() == 64 && spec_hex_valid(spec_hex_body(src@))),
        r is Ok ==> r->Ok_0 == spec_h256_from_bytes(spec_hex_decode(spec_hex_body(src@))),
        r is Err ==> (r->Err_0 == ConfigError::InvalidHex || r->Err_0 == ConfigError::InvalidLength),
{
    match parse_hex_bytes(src) {
        Ok(bytes) => {
            if bytes.len() != 32 {
                return Err(ConfigError::InvalidLength);
            }
            Ok(h256_from_bytes(&bytes))
        },
        Err(e) => Err(e),
    }
}

/// The script of the rollup's own state-validator contract: its code body
/// is content-addressed by hash, with no arguments.
pub fn build_rollup_script(rollup_contract: &Vec<u8>) -> (r: Script)
    ensures
        r@ == (ScriptView {
            code_hash: crate::account::spec_data_hash(rollup_contract@),
            hash_type: ScriptHashType::Data,
            args: Seq::empty(),
        }),
{
    let code_hash = crate::account::data_hash(rollup_contract);
    let r = Script { code_hash, hash_type: ScriptHashType::Data, args: Vec::new() };
    proof {
        assert(r@.args =~= Seq::<u8>::empty());
    }
    r
}

/// Assemble the deployment configuration from decoded setup inputs. The
/// initial aggregator account id is one: id zero is reserved for the meta
/// account created at genesis.
pub fn generate_config(
    aggregator_args: Vec<u8>,
    aggregator_code_hash: H256,
    initial_deposition: u64,
    genesis_timestamp: u64,
    rpc_listen: String,
    rollup_type_script: Script,
) -> (r: Config)
    ensures
        r.consensus.aggregator_id == 1u32,
        r.aggregator is Some && r.aggregator->0.account_id == 1u32,
        r.genesis.initial_aggregator_script@ == (ScriptView {
            code_hash: aggregator_code_hash,
            hash_type: ScriptHashType::Data,
            args: aggregator_args@,
        }),
        r.genesis.initial_deposition == initial_deposition,
        r.genesis.timestamp == genesis_timestamp,
        r.rpc.listen@ == rpc_listen@,
        r.chain.rollup_type_script@ == rollup_type_script@,
{
    let initial_account_id: u32 = 1;
    let initial_aggregator_script = Script {
        code_hash: aggregator_code_hash,
        hash_type: ScriptHashType::Data,
        args: aggregator_args,
    };
    Config {
        chain: ChainConfig { rollup_type_script },
        consensus: ConsensusConfig { aggregator_id: initial_account_id },
        rpc: RPC { listen: rpc_listen },
        genesis: GenesisConfig {
            initial_aggregator_script,
            initial_deposition,
            timestamp: genesis_timestamp,
        },
        aggregator: Some(
            AggregatorConfig { account_id: initial_account_id, signer: SignerConfig {} },
        ),
    }
}

} // verus!
