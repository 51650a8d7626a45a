//! The genesis builder: the deterministic first block and the initial
//! state-tree contents, derived from the genesis configuration alone — no
//! randomness, no wall clock.
//!
//! Genesis creates the meta account (id zero) bound to the fixed system
//! script, creates the initial aggregator account (id one) funded with the
//! configured deposit, and commits the result as version zero of the store.

use vstd::prelude::*;

use crate::account::{
    spec_balance_of, spec_create_account, spec_key_balance, spec_key_script_hash,
    spec_key_script_to_id, spec_script_hash_of, spec_value_u64, key_balance, value_u64,
    AccountState, AccountStateView,
};
use crate::config::{GenesisConfig, GenesisConfigView, RollupConfig};
use crate::hash::H256;
use crate::state::{seq_get, seq_set, spec_root, TreeEntry};
use crate::store::{spec_commit, Store, StoreError, StoreView};
use crate::types::{
    spec_block_hash, spec_script_hash, HeaderInfo, L2Block, L2BlockView, MerkleState, Script,
    ScriptHashType, ScriptView,
};

verus! {

/// The code-hash of the fixed system script backing the meta account; a
/// reserved constant of the protocol, never zero.
pub open spec fn spec_meta_contract_code_hash() -> H256 {
    H256 { limb0: 0x6d65_7461_0000_0001, limb1: 0, limb2: 0, limb3: 1 }
}

pub fn meta_contract_code_hash() -> (r: H256)
    ensures
        r == spec_meta_contract_code_hash(),
{
    H256 { limb0: 0x6d65_7461_0000_0001, limb1: 0, limb2: 0, limb3: 1 }
}

/// The meta account's script.
pub open spec fn spec_meta_contract_script() -> ScriptView {
    ScriptView {
        code_hash: spec_meta_contract_code_hash(),
        hash_type: ScriptHashType::Data,
        args: Seq::empty(),
    }
}

/// The empty account universe.
pub open spec fn spec_empty_state() -> AccountStateView {
    AccountStateView {
        tree: Seq::<TreeEntry>::empty(),
        account_count: 0,
        scripts: Seq::empty(),
        data: Seq::empty(),
    }
}

/// The initial account universe: the meta account as id zero, the initial
/// aggregator as id one holding the configured deposit.
pub open spec fn spec_genesis_state(c: GenesisConfigView) -> AccountStateView {
    let v1 = spec_create_account(
        spec_empty_state(),
        spec_meta_contract_script(),
        spec_script_hash(spec_meta_contract_script()),
    );
    let v2 = spec_create_account(
        v1,
        c.initial_aggregator_script,
        spec_script_hash(c.initial_aggregator_script),
    );
    AccountStateView {
        tree: seq_set(v2.tree, spec_key_balance(1u32), spec_value_u64(c.initial_deposition)),
        ..v2
    }
}

/// The genesis block: number zero, header fields derived solely from the
/// configuration's timestamp and the resulting commitments, an empty body.
pub open spec fn spec_genesis_block(c: GenesisConfigView) -> L2BlockView {
    L2BlockView {
        number: 0,
        aggregator_id: 0,
        timestamp: c.timestamp,
        prev_account: MerkleState { root: H256::spec_zero(), count: 0 },
        post_account: MerkleState { root: spec_root(spec_genesis_state(c).tree), count: 2 },
        transactions: Seq::empty(),
        withdrawal_requests: Seq::empty(),
        compacted_post_roots: Seq::empty(),
    }
}

/// The genesis block with the initial tree contents, leaf by leaf.
#[derive(Debug)]
pub struct GenesisWithSMTState {
    pub genesis: L2Block,
    pub leaves_map: Vec<LeafMapEntry>,
}

/// One leaf of the initial state tree.
#[derive(Clone, Copy, PartialEq, Eq, Structural, Debug, Default, Hash)]
pub struct LeafNode {
    pub key: H256,
    pub value: H256,
}

/// A leaf keyed by its tree key, as persisted snapshots carry it.
#[derive(Clone, Copy, PartialEq, Eq, Structural, Debug, Default, Hash)]
pub struct LeafMapEntry {
    pub key: H256,
    pub value: LeafNode,
}

/// The tree entries a leaf snapshot stands for.
pub open spec fn leaves_entries(s: Seq<LeafMapEntry>) -> Seq<TreeEntry> {
    s.map_values(|e: LeafMapEntry| (e.key, e.value.value))
}

/// Build the genesis state and block from the configuration. Deterministic:
/// identical configurations give identical blocks, leaf for leaf. The
/// consensus parameters accompany the call because a deployment records
/// them beside its genesis; the block itself derives from the genesis
/// configuration alone.
pub fn build_genesis(config: &GenesisConfig, rollup_config: &RollupConfig) -> (r: Result<
    GenesisWithSMTState,
    StoreError,
>)
    ensures
        r is Ok,
        r is Ok ==> r->Ok_0.genesis@ == spec_genesis_block(config@),
        r is Ok ==> leaves_entries(r->Ok_0.leaves_map@) == spec_genesis_state(config@).tree,
{
    let _ = rollup_config;
    let (block, state) = build_genesis_parts(config);
    let entries = state.tree_entries();
    let mut leaves_map: Vec<LeafMapEntry> = Vec::new();
    let mut i: usize = 0;
    while i < entries.len()
        invariant
            0 <= i <= entries@.len(),
            leaves_map@.len() == i,
            forall|q: int|
                0 <= q < i ==> (#[trigger] leaves_map@[q]).key == entries@[q].0
                    && leaves_map@[q].value.value == entries@[q].1,
        decreases entries@.len() - i,
    {
        let (k, v) = entries[i];
        leaves_map.push(LeafMapEntry { key: k, value: LeafNode { key: k, value: v } });
        i = i + 1;
    }
    proof {
        assert(leaves_entries(leaves_map@) =~= entries@);
    }
    Ok(GenesisWithSMTState { genesis: block, leaves_map })
}

/// The genesis block and the state it commits to.
fn build_genesis_parts(config: &GenesisConfig) -> (r: (L2Block, AccountState))
    ensures
        r.0@ == spec_genesis_block(config@),
        r.1@ == spec_genesis_state(config@),
        r.1.wf(),
{
    let mut state = AccountState::new();
    let meta_script = Script {
        code_hash: meta_contract_code_hash(),
        hash_type: ScriptHashType::Data,
        args: Vec::new(),
    };
    proof {
        assert(meta_script@.args =~= Seq::<u8>::empty());
        assert(meta_script@ == spec_meta_contract_script());
    }
    let meta_id = state.create_account(meta_script);
    proof {
        assert(meta_id is Ok);
    }
    let aggregator_id = state.create_account(config.initial_aggregator_script.duplicate());
    proof {
        assert(aggregator_id is Ok);
    }
    state.update_raw(key_balance(1u32), value_u64(config.initial_deposition));
    proof {
        assert(state@ =~~= spec_genesis_state(config@));
    }
    let root = state.root();
    let block = L2Block {
        number: 0,
        aggregator_id: 0,
        timestamp: config.timestamp,
        prev_account: MerkleState { root: H256::zero(), count: 0 },
        post_account: MerkleState { root, count: 2 },
        transactions: Vec::new(),
        withdrawal_requests: Vec::new(),
        compacted_post_roots: Vec::new(),
    };
    proof {
        assert(block@.transactions =~= Seq::<crate::types::L2TransactionView>::empty());
        assert(block@.withdrawal_requests =~= Seq::<crate::types::WithdrawalRequestView>::empty());
        assert(block@.compacted_post_roots =~= Seq::<H256>::empty());
        assert(block@ =~~= spec_genesis_block(config@));
    }
    (block, state)
}

/// Commit the genesis block and its state into a fresh store as version
/// zero. Calling this on a store that already holds a version is a
/// programming error and fails without touching the store. The base-layer
/// position and the deployment identity accompany the call as the record a
/// deployment keeps of where its genesis was observed; the committed
/// version derives from the configuration alone.
pub fn init_genesis(
    store: &mut Store,
    config: &GenesisConfig,
    rollup_config: &RollupConfig,
    header_info: HeaderInfo,
    rollup_script_hash: H256,
) -> (r: Result<(), StoreError>)
    requires
        old(store).wf(),
    ensures
        final(store).wf(),
        (r is Ok) == (old(store)@.versions.len() == 0),
        r is Ok ==> final(store)@ == spec_commit(
            old(store)@,
            spec_genesis_block(config@),
            spec_genesis_state(config@),
        ),
        r is Err ==> final(store)@ == old(store)@ && r->Err_0 == StoreError::VersionMismatch,
{
    let _ = rollup_config;
    let _ = header_info;
    let _ = rollup_script_hash;
    if store.has_genesis() {
        return Err(StoreError::VersionMismatch);
    }
    let (block, state) = build_genesis_parts(config);
    match store.commit_block(block, state) {
        Ok(_) => Ok(()),
        Err(e) => Err(e),
    }
}

} // verus!

verus! {

/// Determinism: the genesis block, its hash, and the initial account root
/// are functions of the configuration alone — identical configurations
/// give byte-identical genesis blocks.
pub proof fn lemma_build_genesis_deterministic(a: GenesisConfigView, b: GenesisConfigView)
    requires
        a == b,
    ensures
        spec_block_hash(spec_genesis_block(a)) == spec_block_hash(spec_genesis_block(b)),
        spec_genesis_block(a) == spec_genesis_block(b),
        spec_genesis_state(a) == spec_genesis_state(b),
{
}

/// Non-triviality of genesis: two accounts exist, account zero resolves to
/// the meta contract script — stored and findable under its hash, with a
/// non-zero code-hash — and the account root is not the empty commitment.
pub proof fn lemma_genesis_nontrivial(c: GenesisConfigView)
    ensures
        spec_genesis_state(c).account_count == 2,
        spec_script_hash_of(spec_genesis_state(c), 0u32) == spec_script_hash(
            spec_meta_contract_script(),
        ),
        spec_script_hash_of(spec_genesis_state(c), 0u32) != H256::spec_zero(),
        crate::account::assoc_find(
            spec_genesis_state(c).scripts,
            spec_script_hash(spec_meta_contract_script()),
        ) == Some(spec_meta_contract_script()),
        spec_meta_contract_code_hash() != H256::spec_zero(),
        spec_root(spec_genesis_state(c).tree) != H256::spec_zero(),
{
    let hm = spec_script_hash(spec_meta_contract_script());
    let ha = spec_script_hash(c.initial_aggregator_script);
    crate::types::lemma_script_hash_nonzero(spec_meta_contract_script());
    let t0 = Seq::<TreeEntry>::empty();
    let k0 = spec_key_script_hash(0u32);
    let t1 = seq_set(t0, k0, hm);
    let t2 = seq_set(t1, spec_key_script_to_id(hm), spec_value_u64(1u64));
    let t3 = seq_set(t2, spec_key_script_hash(1u32), ha);
    let t4 = seq_set(t3, spec_key_script_to_id(ha), spec_value_u64(2u64));
    let t5 = seq_set(t4, spec_key_balance(1u32), spec_value_u64(c.initial_deposition));
    assert(crate::state::entries_wf(t0));
    crate::state::lemma_seq_set_wf(t0, k0, hm);
    crate::state::lemma_seq_get_set(t0, k0, hm, k0);
    crate::state::lemma_seq_set_wf(t1, spec_key_script_to_id(hm), spec_value_u64(1u64));
    crate::state::lemma_seq_get_set(t1, spec_key_script_to_id(hm), spec_value_u64(1u64), k0);
    crate::state::lemma_seq_set_wf(t2, spec_key_script_hash(1u32), ha);
    crate::state::lemma_seq_get_set(t2, spec_key_script_hash(1u32), ha, k0);
    crate::state::lemma_seq_set_wf(t3, spec_key_script_to_id(ha), spec_value_u64(2u64));
    crate::state::lemma_seq_get_set(t3, spec_key_script_to_id(ha), spec_value_u64(2u64), k0);
    crate::state::lemma_seq_set_wf(t4, spec_key_balance(1u32), spec_value_u64(c.initial_deposition));
    crate::state::lemma_seq_get_set(
        t4,
        spec_key_balance(1u32),
        spec_value_u64(c.initial_deposition),
        k0,
    );
    assert(spec_genesis_state(c).tree == t5);
    assert(seq_get(t5, k0) == hm);
    if t5.len() == 0 {
        assert(seq_get(t5, k0) == H256::spec_zero());
    }
    crate::state::lemma_root_zero_iff_empty(t5);
    let scripts = spec_genesis_state(c).scripts;
    assert(scripts[0] == (hm, spec_meta_contract_script()));
}

/// Non-triviality after `init_genesis`: the fresh store holds exactly the
/// genesis version, and its block-index root is not the empty commitment
/// either.
pub proof fn lemma_init_genesis_nontrivial(c: GenesisConfigView, sv: StoreView)
    requires
        sv.versions.len() == 0,
        sv.tip == 0,
    ensures
        ({
            let after = spec_commit(sv, spec_genesis_block(c), spec_genesis_state(c));
            &&& after.versions.len() == 1
            &&& after.tip == 0
            &&& spec_root(after.versions[0].block_tree) != H256::spec_zero()
            &&& spec_root(after.versions[0].state.tree) != H256::spec_zero()
        }),
{
    let gb = spec_genesis_block(c);
    let hb = spec_block_hash(gb);
    crate::types::lemma_block_hash_nonzero(gb);
    let after = spec_commit(sv, gb, spec_genesis_state(c));
    let e0 = Seq::<TreeEntry>::empty();
    let kn = crate::store::spec_key_block_number(0u64);
    let b1 = seq_set(e0, kn, hb);
    let b2 = seq_set(b1, crate::store::spec_key_block_hash(hb), spec_value_u64(1u64));
    assert(crate::state::entries_wf(e0));
    crate::state::lemma_seq_set_wf(e0, kn, hb);
    crate::state::lemma_seq_get_set(e0, kn, hb, kn);
    crate::state::lemma_seq_get_set(b1, crate::store::spec_key_block_hash(hb), spec_value_u64(1u64), kn);
    assert(after.versions[0].block_tree == b2);
    assert(seq_get(b2, kn) == hb);
    if b2.len() == 0 {
        assert(seq_get(b2, kn) == H256::spec_zero());
    }
    crate::state::lemma_root_zero_iff_empty(b2);
    lemma_genesis_nontrivial(c);
}

} // verus!
