use rollup_core::account_lock::{AccountLockManage, AlwaysSuccess, LockAlgorithmKind};
use rollup_core::chain::{
    Chain, L1Action, L1ActionContext, L1Transaction, NextBlockContext, ProduceBlockParam,
    SyncEvent, SyncParam,
};
use rollup_core::config::{ChainConfig, GenesisConfig, RollupConfig};
use rollup_core::generator::{Generator, GeneratorError};
use rollup_core::genesis::init_genesis;
use rollup_core::hash::H256;
use rollup_core::store::Store;
use rollup_core::tx_pool::{TxPool, TxPoolError};
use rollup_core::types::{
    CancelChallenge, DepositionRequest, GlobalState, HeaderInfo, L2Transaction, MerkleState,
    Script, ScriptHashType, StartChallenge, Status, WithdrawalRequest,
};

fn dummy_global_state() -> GlobalState {
    GlobalState {
        account: MerkleState { root: H256::zero(), count: 0 },
        block: MerkleState { root: H256::zero(), count: 0 },
        status: Status::Running,
    }
}

fn always_success_code_hash() -> H256 {
    H256 { limb0: 5, limb1: 6, limb2: 7, limb3: 8 }
}

fn aggregator_script() -> Script {
    Script {
        code_hash: always_success_code_hash(),
        hash_type: ScriptHashType::Data,
        args: vec![7],
    }
}

fn setup_chain(timestamp: u64, deposition: u64) -> Chain {
    let config = GenesisConfig {
        initial_aggregator_script: aggregator_script(),
        initial_deposition: deposition,
        timestamp,
    };
    let rollup_config = RollupConfig { finality_blocks: 6 };
    let mut store = Store::open();
    let header_info = HeaderInfo { number: 0, block_hash: H256::zero() };
    init_genesis(&mut store, &config, &rollup_config, header_info, H256::zero()).unwrap();
    let mut manage = AccountLockManage::new();
    manage.register_lock_algorithm(
        always_success_code_hash(),
        LockAlgorithmKind::AlwaysSuccess(AlwaysSuccess),
    );
    let generator = Generator::new(manage, H256::zero());
    let chain_config = ChainConfig { rollup_type_script: aggregator_script() };
    Chain::create(chain_config, rollup_config, store, generator).unwrap()
}

fn transfer(from: u32, to: u32, nonce: u32, amount: u64) -> L2Transaction {
    L2Transaction { from_id: from, to_id: to, nonce, amount, args: vec![], signature: vec![] }
}

fn submit_action(block: rollup_core::chain::ProduceBlockResult) -> L1Action {
    L1Action {
        transaction: L1Transaction { block: block.block, global_state: block.global_state },
        header_info: HeaderInfo { number: 1, block_hash: H256::zero() },
        context: L1ActionContext::SubmitTxs { deposition_requests: vec![] },
    }
}

fn sync_one(chain: &mut Chain, action: L1Action) -> SyncEvent {
    let param = SyncParam {
        reverts: vec![],
        updates: vec![action],
        next_block_context: NextBlockContext { aggregator_id: 1, timestamp: 100 },
    };
    chain.sync(param).unwrap()
}

fn produce_one(chain: &Chain, txs: Vec<L2Transaction>) -> rollup_core::chain::ProduceBlockResult {
    let tip = chain.store().tip_number().unwrap();
    let state = chain.store().checkout_state(tip).unwrap();
    let mut pool = TxPool::create(state);
    for tx in txs {
        pool.push_transaction(chain.generator(), tx).unwrap();
    }
    let param = ProduceBlockParam {
        aggregator_id: 1,
        deposition_requests: vec![],
        tx_pool_pkg: pool.package(),
    };
    chain.produce_block(&param).unwrap()
}

#[test]
fn end_to_end_transfer_advances_the_chain() {
    let mut chain = setup_chain(42, 500);
    let genesis_root = chain.store().get_account_smt_root().unwrap();
    let result = produce_one(&chain, vec![transfer(1, 0, 0, 50)]);
    assert_eq!(result.unused_transactions.len(), 0);
    assert_eq!(result.unused_withdrawal_requests.len(), 0);
    assert_eq!(result.block.number, 1);
    let event = sync_one(&mut chain, submit_action(result));
    assert_eq!(event, SyncEvent::Success);
    assert_eq!(chain.store().tip_number(), Some(1));
    let new_root = chain.store().get_account_smt_root().unwrap();
    assert_ne!(new_root, genesis_root);
    let state = chain.store().checkout_state(1).unwrap();
    assert_eq!(state.get_balance(1), 450);
    assert_eq!(state.get_balance(0), 50);
    assert_eq!(state.get_nonce(1), 1);
}

#[test]
fn bad_post_root_is_classified_bad_block() {
    let mut chain = setup_chain(42, 500);
    let mut result = produce_one(&chain, vec![transfer(1, 0, 0, 50)]);
    // corrupt the first per-transaction commitment
    result.block.compacted_post_roots[0].limb1 ^= 1;
    let event = sync_one(&mut chain, submit_action(result));
    assert_eq!(
        event,
        SyncEvent::BadBlock(StartChallenge { block_number: 1, tx_index: 0 })
    );
    // nothing was committed
    assert_eq!(chain.store().tip_number(), Some(0));
}

#[test]
fn challenge_then_valid_cancel_resumes() {
    let mut chain = setup_chain(42, 500);
    let result = produce_one(&chain, vec![transfer(1, 0, 0, 50)]);
    assert_eq!(sync_one(&mut chain, submit_action(result)), SyncEvent::Success);
    let target = StartChallenge { block_number: 1, tx_index: 0 };
    let challenge = L1Action {
        transaction: L1Transaction {
            block: chain.store().get_block(1).unwrap(),
            global_state: dummy_global_state(),
        },
        header_info: HeaderInfo { number: 2, block_hash: H256::zero() },
        context: L1ActionContext::Challenge { context: target },
    };
    assert_eq!(sync_one(&mut chain, challenge), SyncEvent::WaitChallenge);
    assert_eq!(chain.status(), Status::Halting);
    assert_eq!(chain.open_challenge(), Some(target));
    // the honest answer presents the recorded commitment
    let recorded = chain.store().get_block(1).unwrap().compacted_post_roots[0];
    let cancel = L1Action {
        transaction: L1Transaction {
            block: chain.store().get_block(1).unwrap(),
            global_state: dummy_global_state(),
        },
        header_info: HeaderInfo { number: 3, block_hash: H256::zero() },
        context: L1ActionContext::CancelChallenge {
            context: CancelChallenge { block_number: 1, tx_index: 0, post_account_root: recorded },
        },
    };
    assert_eq!(sync_one(&mut chain, cancel), SyncEvent::Success);
    assert_eq!(chain.status(), Status::Running);
    assert_eq!(chain.open_challenge(), None);
    // block submission resumes
    let next = produce_one(&chain, vec![transfer(1, 0, 1, 10)]);
    assert_eq!(sync_one(&mut chain, submit_action(next)), SyncEvent::Success);
    assert_eq!(chain.store().tip_number(), Some(2));
}

#[test]
fn invalid_cancel_is_classified_bad_challenge() {
    let mut chain = setup_chain(42, 500);
    let result = produce_one(&chain, vec![transfer(1, 0, 0, 50)]);
    assert_eq!(sync_one(&mut chain, submit_action(result)), SyncEvent::Success);
    let target = StartChallenge { block_number: 1, tx_index: 0 };
    let challenge = L1Action {
        transaction: L1Transaction {
            block: chain.store().get_block(1).unwrap(),
            global_state: dummy_global_state(),
        },
        header_info: HeaderInfo { number: 2, block_hash: H256::zero() },
        context: L1ActionContext::Challenge { context: target },
    };
    assert_eq!(sync_one(&mut chain, challenge), SyncEvent::WaitChallenge);
    let wrong = CancelChallenge {
        block_number: 1,
        tx_index: 0,
        post_account_root: H256 { limb0: 1, limb1: 1, limb2: 1, limb3: 1 },
    };
    let cancel = L1Action {
        transaction: L1Transaction {
            block: chain.store().get_block(1).unwrap(),
            global_state: dummy_global_state(),
        },
        header_info: HeaderInfo { number: 3, block_hash: H256::zero() },
        context: L1ActionContext::CancelChallenge { context: wrong },
    };
    assert_eq!(sync_one(&mut chain, cancel), SyncEvent::BadChallenge(wrong));
    // the dispute stays open
    assert_eq!(chain.status(), Status::Halting);
}

#[test]
fn out_of_range_challenge_is_bad() {
    let mut chain = setup_chain(42, 500);
    let target = StartChallenge { block_number: 7, tx_index: 0 };
    let challenge = L1Action {
        transaction: L1Transaction {
            block: chain.store().get_block(0).unwrap(),
            global_state: dummy_global_state(),
        },
        header_info: HeaderInfo { number: 2, block_hash: H256::zero() },
        context: L1ActionContext::Challenge { context: target },
    };
    let event = sync_one(&mut chain, challenge);
    assert_eq!(
        event,
        SyncEvent::BadChallenge(CancelChallenge {
            block_number: 7,
            tx_index: 0,
            post_account_root: H256::zero(),
        })
    );
    assert_eq!(chain.status(), Status::Running);
}

#[test]
fn revert_restores_prior_version_and_root() {
    let mut chain = setup_chain(42, 500);
    let genesis_root = chain.store().get_account_smt_root().unwrap();
    let result = produce_one(&chain, vec![transfer(1, 0, 0, 50)]);
    assert_eq!(sync_one(&mut chain, submit_action(result)), SyncEvent::Success);
    assert_eq!(chain.store().tip_number(), Some(1));
    let revert = L1Action {
        transaction: L1Transaction {
            block: chain.store().get_block(1).unwrap(),
            global_state: dummy_global_state(),
        },
        header_info: HeaderInfo { number: 4, block_hash: H256::zero() },
        context: L1ActionContext::Revert {
            context: StartChallenge { block_number: 1, tx_index: 0 },
        },
    };
    let param = SyncParam {
        reverts: vec![revert],
        updates: vec![],
        next_block_context: NextBlockContext { aggregator_id: 1, timestamp: 100 },
    };
    assert_eq!(chain.sync(param).unwrap(), SyncEvent::Success);
    assert_eq!(chain.store().tip_number(), Some(0));
    assert_eq!(chain.store().get_account_smt_root().unwrap(), genesis_root);
    // the reverted version is superseded, not destroyed
    assert!(chain.store().checkout_state(1).is_ok());
}

#[test]
fn generator_rejects_each_kind_of_bad_entry() {
    let chain = setup_chain(42, 500);
    let state = chain.store().checkout_state(0).unwrap();
    let g = chain.generator();
    // wrong nonce
    assert_eq!(
        g.execute_transaction(&state, &transfer(1, 0, 5, 10)).unwrap_err(),
        GeneratorError::InvalidNonce
    );
    // more than the balance
    assert_eq!(
        g.execute_transaction(&state, &transfer(1, 0, 0, 501)).unwrap_err(),
        GeneratorError::InsufficientBalance
    );
    // missing account
    assert_eq!(
        g.execute_transaction(&state, &transfer(9, 0, 0, 1)).unwrap_err(),
        GeneratorError::Unknown
    );
    // a payload whose backend exit status is non-zero
    let mut tx = transfer(1, 0, 0, 10);
    tx.args = vec![1];
    assert_eq!(g.execute_transaction(&state, &tx).unwrap_err(), GeneratorError::InvalidExitCode);
    // the meta account's lock is not registered
    assert_eq!(
        g.execute_transaction(&state, &transfer(0, 1, 0, 0)).unwrap_err(),
        GeneratorError::UnknownLockScript
    );
    // a valid transfer passes
    assert!(g.execute_transaction(&state, &transfer(1, 0, 0, 10)).is_ok());
}

#[test]
fn pool_keeps_kinds_mutually_exclusive() {
    let chain = setup_chain(42, 500);
    let state = chain.store().checkout_state(0).unwrap();
    let mut pool = TxPool::create(state);
    pool.push_transaction(chain.generator(), transfer(1, 0, 0, 10)).unwrap();
    let wd = WithdrawalRequest { account_id: 1, nonce: 1, amount: 5, signature: vec![] };
    assert_eq!(
        pool.push_withdrawal_request(chain.generator(), wd),
        Err(TxPoolError::KindConflict)
    );
    for entry in pool.pending() {
        assert!(entry.txs.is_empty() || entry.withdrawals.is_empty());
    }
}

#[test]
fn pool_admits_withdrawals_and_blocks_settle_them() {
    let mut chain = setup_chain(42, 500);
    let tip = chain.store().tip_number().unwrap();
    let state = chain.store().checkout_state(tip).unwrap();
    let mut pool = TxPool::create(state);
    let wd = WithdrawalRequest { account_id: 1, nonce: 0, amount: 100, signature: vec![] };
    pool.push_withdrawal_request(chain.generator(), wd).unwrap();
    let param = ProduceBlockParam {
        aggregator_id: 1,
        deposition_requests: vec![DepositionRequest { script: aggregator_script(), amount: 7 }],
        tx_pool_pkg: pool.package(),
    };
    let result = chain.produce_block(&param).unwrap();
    let action = L1Action {
        transaction: L1Transaction { block: result.block, global_state: result.global_state },
        header_info: HeaderInfo { number: 1, block_hash: H256::zero() },
        context: L1ActionContext::SubmitTxs {
            deposition_requests: vec![
                DepositionRequest { script: aggregator_script(), amount: 7 },
            ],
        },
    };
    assert_eq!(sync_one(&mut chain, action), SyncEvent::Success);
    let state = chain.store().checkout_state(1).unwrap();
    // 500 funded at genesis, plus 7 deposited, minus 100 withdrawn
    assert_eq!(state.get_balance(1), 407);
    assert_eq!(state.get_nonce(1), 1);
}

#[test]
fn pool_purges_stale_entries_on_new_tip() {
    let mut chain = setup_chain(42, 500);
    let state = chain.store().checkout_state(0).unwrap();
    let mut pool = TxPool::create(state);
    let tx = transfer(1, 0, 0, 50);
    pool.push_transaction(chain.generator(), tx.duplicate()).unwrap();
    // the same transfer is included in a block; its nonce is now consumed
    let result = produce_one(&chain, vec![tx]);
    assert_eq!(sync_one(&mut chain, submit_action(result)), SyncEvent::Success);
    let new_tip = chain.store().checkout_state(1).unwrap();
    pool.update_tip(chain.generator(), new_tip);
    let still_pending: usize = pool.pending().iter().map(|e| e.txs.len()).sum();
    assert_eq!(still_pending, 0);
    // a transfer at the advanced nonce is admitted against the new tip
    pool.push_transaction(chain.generator(), transfer(1, 0, 1, 10)).unwrap();
}

#[test]
fn run_result_is_a_pure_reproducible_diff() {
    let chain = setup_chain(42, 500);
    let state = chain.store().checkout_state(0).unwrap();
    let g = chain.generator();
    let rr = g.execute_transaction(&state, &transfer(1, 0, 0, 50)).unwrap();
    // every consulted slot is recorded, changed or not
    assert_eq!(rr.read_values.len(), 5);
    assert_eq!(rr.write_values.len(), 3);
    assert!(rr.new_scripts.is_empty());
    assert!(rr.new_data.is_empty());
    assert!(rr.account_count.is_none());
    // applying the write-set to the pre-state reproduces one root, however
    // often it is replayed
    let mut a = state.duplicate();
    let mut b = state.duplicate();
    rollup_core::generator::apply_run_result(&mut a, &rr);
    rollup_core::generator::apply_run_result(&mut b, &rr);
    assert_eq!(a.root(), b.root());
    assert_ne!(a.root(), state.root());
    // re-running the generator from scratch yields the same diff
    let rr2 = g.execute_transaction(&state, &transfer(1, 0, 0, 50)).unwrap();
    assert_eq!(rr.write_values, rr2.write_values);
    assert_eq!(rr.read_values, rr2.read_values);
}

#[test]
fn defaults_and_error_variants() {
    assert_eq!(Status::default(), Status::Running);
    match rollup_core::chain::L1ActionContext::default() {
        L1ActionContext::SubmitTxs { deposition_requests } => {
            assert!(deposition_requests.is_empty())
        }
        _ => panic!("default context"),
    }
    let mut chain = setup_chain(42, 500);
    // a missing version is a store error
    assert!(chain.store().checkout_state(5).is_err());
    // a revert of a block that is not on the chain is fatal for the batch
    let bad_revert = L1Action {
        transaction: L1Transaction {
            block: chain.store().get_block(0).unwrap(),
            global_state: dummy_global_state(),
        },
        header_info: HeaderInfo { number: 1, block_hash: H256::zero() },
        context: L1ActionContext::Revert {
            context: StartChallenge { block_number: 5, tx_index: 0 },
        },
    };
    let param = SyncParam {
        reverts: vec![bad_revert],
        updates: vec![],
        next_block_context: NextBlockContext { aggregator_id: 1, timestamp: 100 },
    };
    assert!(chain.sync(param).is_err());
    // a revert-tagged action among the updates breaks the protocol
    let misplaced = L1Action {
        transaction: L1Transaction {
            block: chain.store().get_block(0).unwrap(),
            global_state: dummy_global_state(),
        },
        header_info: HeaderInfo { number: 1, block_hash: H256::zero() },
        context: L1ActionContext::Revert {
            context: StartChallenge { block_number: 1, tx_index: 0 },
        },
    };
    let param = SyncParam {
        reverts: vec![],
        updates: vec![misplaced],
        next_block_context: NextBlockContext { aggregator_id: 1, timestamp: 100 },
    };
    assert!(chain.sync(param).is_err());
    // the pool hands the generator's refusal back
    let state = chain.store().checkout_state(0).unwrap();
    let mut pool = TxPool::create(state);
    assert_eq!(
        pool.push_transaction(chain.generator(), transfer(1, 0, 9, 1)),
        Err(TxPoolError::Rejected(GeneratorError::InvalidNonce))
    );
}
