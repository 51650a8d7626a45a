//! The chain: the top-level driver consuming ordered base-layer actions.
//!
//! `sync` applies a batch atomically per action: reverts first, oldest to
//! newest, then updates. A submitted block is never trusted: its execution
//! is re-derived through the generator against the pre-block state, and the
//! first divergence classifies the block as bad. Challenges and their
//! cancellations drive the running/halting status and the open dispute.
//! `produce_block` drains a mem-pool snapshot into a block that this same
//! re-derivation accepts.

use vstd::prelude::*;

use crate::account::AccountState;
use crate::account_lock::LockAlgorithmKind;
use crate::config::{ChainConfig, RollupConfig};
use crate::generator::{
    spec_apply_deposition, spec_apply_run_result, spec_execute_transaction,
    spec_execute_withdrawal, Generator,
};
use crate::hash::{digest, H256};
use crate::state::spec_root;
use crate::store::{spec_commit, Store, StoreError, StoreView};
use crate::tx_pool::TxPoolPackage;
use crate::types::{
    spec_compacted_root, compacted_account_root, ChallengeContext, CancelChallenge,
    DepositionRequest, DepositionRequestView, GlobalState, HeaderInfo, L2Block, L2BlockView,
    L2Transaction, L2TransactionView, MerkleState, StartChallenge, Status, WithdrawalRequest,
    WithdrawalRequestView,
};

verus! {

/// A base-layer transaction as the chain reads it: the rollup block it
/// carries and the global state it posted.
#[derive(Debug)]
pub struct L1Transaction {
    pub block: L2Block,
    pub global_state: GlobalState,
}

/// The payload of one observed base-layer action.
#[derive(Debug)]
pub enum L1ActionContext {
    SubmitTxs { deposition_requests: Vec<DepositionRequest> },
    Challenge { context: StartChallenge },
    CancelChallenge { context: CancelChallenge },
    Revert { context: StartChallenge },
}

impl Default for L1ActionContext {
    fn default() -> (r: L1ActionContext)
        ensures
            r matches L1ActionContext::SubmitTxs { deposition_requests }
                && deposition_requests@.len() == 0,
    {
        L1ActionContext::SubmitTxs { deposition_requests: Vec::new() }
    }
}

/// One observed base-layer action: the transaction, where it was observed,
/// and what it means.
#[derive(Debug)]
pub struct L1Action {
    pub transaction: L1Transaction,
    pub header_info: HeaderInfo,
    pub context: L1ActionContext,
}

/// Hints for the next block to produce.
#[derive(Clone, Copy, PartialEq, Eq, Structural, Debug, Default, Hash)]
pub struct NextBlockContext {
    pub aggregator_id: u32,
    pub timestamp: u64,
}

/// An ordered batch for one `sync` call: actions to undo, oldest first,
/// then actions to apply, oldest first.
#[derive(Debug, Default)]
pub struct SyncParam {
    pub reverts: Vec<L1Action>,
    pub updates: Vec<L1Action>,
    pub next_block_context: NextBlockContext,
}

/// What one `sync` call concluded.
#[derive(Clone, Copy, PartialEq, Eq, Structural, Debug)]
pub enum SyncEvent {
    /// The whole batch applied and no dispute is open.
    Success,
    /// A submitted block does not re-derive; the payload identifies the
    /// first divergent transaction.
    BadBlock(StartChallenge),
    /// A challenge that does not hold, or a cancellation that does not
    /// verify; the payload is the cancellation answering it.
    BadChallenge(CancelChallenge),
    /// A dispute is open; block submission waits for its resolution.
    WaitChallenge,
}

/// A failure of `sync` itself: a store fault, or a batch that breaks the
/// protocol's own ordering rules. Both are fatal for the batch.
#[derive(Clone, Copy, PartialEq, Eq, Structural, Debug, Hash)]
pub enum ChainError {
    Store(StoreError),
    ProtocolViolation,
}

/// A withdrawal sequence replayed over a state: the state it reaches, or
/// nothing if some request is refused.
pub open spec fn spec_apply_withdrawals(
    m: Seq<(H256, LockAlgorithmKind)>,
    v: crate::account::AccountStateView,
    ws: Seq<WithdrawalRequestView>,
) -> Option<crate::account::AccountStateView>
    decreases ws.len(),
{
    if ws.len() == 0 {
        Some(v)
    } else {
        match spec_execute_withdrawal(m, v, ws[0]) {
            Ok(rr) => spec_apply_withdrawals(m, spec_apply_run_result(v, rr), ws.drop_first()),
            Err(_) => None,
        }
    }
}

/// A deposition sequence credited into a state.
pub open spec fn spec_apply_depositions(
    v: crate::account::AccountStateView,
    ds: Seq<DepositionRequestView>,
) -> Option<crate::account::AccountStateView>
    decreases ds.len(),
{
    if ds.len() == 0 {
        Some(v)
    } else {
        match spec_apply_deposition(v, ds[0].script, ds[0].amount) {
            Ok(v1) => spec_apply_depositions(v1, ds.drop_first()),
            Err(_) => None,
        }
    }
}

/// A transaction sequence replayed over a state, holding each step to the
/// claimed compacted commitment: the state reached, or the index of the
/// first transaction that fails or diverges.
pub open spec fn spec_apply_transactions(
    m: Seq<(H256, LockAlgorithmKind)>,
    v: crate::account::AccountStateView,
    txs: Seq<L2TransactionView>,
    roots: Seq<H256>,
) -> Result<crate::account::AccountStateView, int>
    decreases txs.len(),
{
    if txs.len() == 0 {
        Ok(v)
    } else {
        match spec_execute_transaction(m, v, txs[0]) {
            Err(_) => Err(0int),
            Ok(rr) => {
                let v1 = spec_apply_run_result(v, rr);
                if spec_compacted_root(
                    MerkleState { root: spec_root(v1.tree), count: v1.account_count },
                ) != roots[0] {
                    Err(0int)
                } else {
                    match spec_apply_transactions(m, v1, txs.drop_first(), roots.drop_first()) {
                        Ok(v2) => Ok(v2),
                        Err(i) => Err(i + 1),
                    }
                }
            },
        }
    }
}

pub proof fn lemma_apply_withdrawals_snoc(
    m: Seq<(H256, LockAlgorithmKind)>,
    v: crate::account::AccountStateView,
    ws: Seq<WithdrawalRequestView>,
    w: WithdrawalRequestView,
)
    requires
        spec_apply_withdrawals(m, v, ws) is Some,
        spec_execute_withdrawal(m, spec_apply_withdrawals(m, v, ws)->0, w) is Ok,
    ensures
        spec_apply_withdrawals(m, v, ws.push(w)) == Some(
            spec_apply_run_result(
                spec_apply_withdrawals(m, v, ws)->0,
                spec_execute_withdrawal(m, spec_apply_withdrawals(m, v, ws)->0, w)->Ok_0,
            ),
        ),
    decreases ws.len(),
{
    reveal_with_fuel(spec_apply_withdrawals, 3);
    if ws.len() == 0 {
        assert(ws.push(w)[0] == w);
        assert(ws.push(w).drop_first() =~= Seq::<WithdrawalRequestView>::empty());
    } else {
        assert(ws.push(w)[0] == ws[0]);
        assert(ws.push(w).drop_first() =~= ws.drop_first().push(w));
        let rr = spec_execute_withdrawal(m, v, ws[0])->Ok_0;
        lemma_apply_withdrawals_snoc(m, spec_apply_run_result(v, rr), ws.drop_first(), w);
    }
}

pub proof fn lemma_apply_transactions_snoc(
    m: Seq<(H256, LockAlgorithmKind)>,
    v: crate::account::AccountStateView,
    txs: Seq<L2TransactionView>,
    roots: Seq<H256>,
    t: L2TransactionView,
    root: H256,
)
    requires
        txs.len() == roots.len(),
        spec_apply_transactions(m, v, txs, roots) is Ok,
        spec_execute_transaction(m, spec_apply_transactions(m, v, txs, roots)->Ok_0, t) is Ok,
        ({
            let u = spec_apply_run_result(
                spec_apply_transactions(m, v, txs, roots)->Ok_0,
                spec_execute_transaction(m, spec_apply_transactions(m, v, txs, roots)->Ok_0, t)->Ok_0,
            );
            root == spec_compacted_root(
                MerkleState { root: spec_root(u.tree), count: u.account_count },
            )
        }),
    ensures
        spec_apply_transactions(m, v, txs.push(t), roots.push(root)) == Ok::<_, int>(
            spec_apply_run_result(
                spec_apply_transactions(m, v, txs, roots)->Ok_0,
                spec_execute_transaction(m, spec_apply_transactions(m, v, txs, roots)->Ok_0, t)->Ok_0,
            ),
        ),
    decreases txs.len(),
{
    reveal_with_fuel(spec_apply_transactions, 3);
    if txs.len() == 0 {
        assert(txs.push(t)[0] == t);
        assert(roots.push(root)[0] == root);
        assert(txs.push(t).drop_first() =~= Seq::<L2TransactionView>::empty());
        assert(roots.push(root).drop_first() =~= Seq::<H256>::empty());
    } else {
        assert(txs.push(t)[0] == txs[0]);
        assert(roots.push(root)[0] == roots[0]);
        assert(txs.push(t).drop_first() =~= txs.drop_first().push(t));
        assert(roots.push(root).drop_first() =~= roots.drop_first().push(root));
        let rr = spec_execute_transaction(m, v, txs[0])->Ok_0;
        lemma_apply_transactions_snoc(
            m,
            spec_apply_run_result(v, rr),
            txs.drop_first(),
            roots.drop_first(),
            t,
            root,
        );
    }
}

/// A challenge target holds exactly when it points at a transaction of a
/// block on the current chain.
pub open spec fn spec_challenge_valid(store: StoreView, c: StartChallenge) -> bool {
    &&& store.versions.len() > 0
    &&& c.block_number <= store.tip
    &&& (c.tx_index as int) < store.versions[c.block_number as int].block.transactions.len()
}

/// A cancellation verifies exactly when it answers the open dispute and
/// presents the compacted commitment that honest re-execution of the
/// disputed transaction reproduces — the one recorded in the committed
/// block at that height.
pub open spec fn spec_cancel_valid(
    store: StoreView,
    open_challenge: Option<StartChallenge>,
    c: CancelChallenge,
) -> bool {
    &&& open_challenge is Some
    &&& open_challenge->0.block_number == c.block_number
    &&& open_challenge->0.tx_index == c.tx_index
    &&& store.versions.len() > 0
    &&& c.block_number <= store.tip
    &&& (c.tx_index as int) < store.versions[c.block_number as int].block.compacted_post_roots.len()
    &&& c.post_account_root == store.versions[c.block_number as int].block.compacted_post_roots[c.tx_index as int]
}

/// The digest identifying a consensus-parameter set.
pub open spec fn spec_rollup_config_hash(c: RollupConfig) -> H256 {
    crate::hash::spec_digest(seq![c.finality_blocks])
}

pub ghost struct ChainView {
    pub store: StoreView,
    pub status: Status,
    pub challenge: Option<StartChallenge>,
    pub next_block_context: NextBlockContext,
    pub last_synced: HeaderInfo,
    pub rollup_type_script_hash: H256,
    pub rollup_config_hash: H256,
}

/// The chain driver.
#[derive(Debug)]
pub struct Chain {
    store: Store,
    generator: Generator,
    rollup_type_script_hash: H256,
    rollup_config: RollupConfig,
    rollup_config_hash: H256,
    status: Status,
    challenge_context: Option<ChallengeContext>,
    next_block_context: NextBlockContext,
    last_synced: HeaderInfo,
}

impl View for Chain {
    type V = ChainView;

    closed spec fn view(&self) -> ChainView {
        ChainView {
            store: self.store@,
            status: self.status,
            challenge: match self.challenge_context {
                Some(ref c) => Some(c.target),
                None => None,
            },
            next_block_context: self.next_block_context,
            last_synced: self.last_synced,
            rollup_type_script_hash: self.rollup_type_script_hash,
            rollup_config_hash: self.rollup_config_hash,
        }
    }
}

impl Chain {
    /// The lock registry the chain authorizes against.
    pub closed spec fn manage(self) -> Seq<(H256, LockAlgorithmKind)> {
        self.generator.manage_view()
    }

    pub open spec fn wf(self) -> bool {
        &&& crate::store::store_wf(self@.store)
        &&& self@.store.versions.len() > 0
        &&& (self@.challenge is Some) == (self@.status == Status::Halting)
    }

    /// Create the driver over a store that already holds genesis.
    pub fn create(
        config: ChainConfig,
        rollup_config: RollupConfig,
        store: Store,
        generator: Generator,
    ) -> (r: Result<Chain, ChainError>)
        requires
            store.wf(),
        ensures
            (r is Ok) == (store@.versions.len() > 0),
            r is Ok ==> r->Ok_0.wf() && r->Ok_0@.store == store@ && r->Ok_0.manage()
                == generator.manage_view() && r->Ok_0@.status == Status::Running
                && r->Ok_0@.challenge is None,
            r is Ok ==> r->Ok_0@.rollup_type_script_hash == crate::types::spec_script_hash(
                config.rollup_type_script@,
            ) && r->Ok_0@.rollup_config_hash == spec_rollup_config_hash(rollup_config)
                && r->Ok_0@.next_block_context == (NextBlockContext {
                aggregator_id: 0,
                timestamp: 0,
            }) && r->Ok_0@.last_synced == (HeaderInfo {
                number: 0,
                block_hash: H256::spec_zero(),
            }),
            r is Err ==> r->Err_0 == ChainError::ProtocolViolation,
    {
        if !store.has_genesis() {
            return Err(ChainError::ProtocolViolation);
        }
        let rollup_type_script_hash = config.rollup_type_script.hash();
        let mut words: Vec<u64> = Vec::new();
        words.push(rollup_config.finality_blocks);
        proof {
            assert(words@ =~= seq![rollup_config.finality_blocks]);
        }
        let rollup_config_hash = digest(&words);
        Ok(
            Chain {
                store,
                generator,
                rollup_type_script_hash,
                rollup_config,
                rollup_config_hash,
                status: Status::Running,
                challenge_context: None,
                next_block_context: NextBlockContext { aggregator_id: 0, timestamp: 0 },
                last_synced: HeaderInfo { number: 0, block_hash: H256::zero() },
            },
        )
    }

    pub fn status(&self) -> (r: Status)
        ensures
            r == self@.status,
    {
        self.status
    }

    /// The open dispute's target, if any.
    pub fn open_challenge(&self) -> (r: Option<StartChallenge>)
        ensures
            r == self@.challenge,
    {
        match &self.challenge_context {
            Some(c) => Some(c.target),
            None => None,
        }
    }

    pub fn store(&self) -> (r: &Store)
        ensures
            r@ == self@.store,
    {
        &self.store
    }

    pub fn generator(&self) -> (r: &Generator)
        ensures
            r.manage_view() == self.manage(),
    {
        &self.generator
    }

    pub fn rollup_config_hash(&self) -> (r: H256)
        ensures
            r == self@.rollup_config_hash,
    {
        self.rollup_config_hash
    }

    /// Record a challenge when its target holds: the chain halts until the
    /// dispute resolves. A target off the chain or past the end of its
    /// block is answered at once as a bad challenge.
    pub fn process_challenge(&mut self, context: StartChallenge, witness: Vec<u8>) -> (r:
        SyncEvent)
        requires
            old(self).wf(),
        ensures
            final(self).wf(),
            final(self).manage() == old(self).manage(),
            spec_challenge_valid(old(self)@.store, context) ==> r == SyncEvent::WaitChallenge
                && final(self)@ == (ChainView {
                status: Status::Halting,
                challenge: Some(context),
                ..old(self)@
            }),
            !spec_challenge_valid(old(self)@.store, context) ==> r == SyncEvent::BadChallenge(
                CancelChallenge {
                    block_number: context.block_number,
                    tx_index: context.tx_index,
                    post_account_root: H256::spec_zero(),
                },
            ) && final(self)@ == old(self)@,
    {
        let valid = match self.store.get_block(context.block_number) {
            Ok(block) => (context.tx_index as usize) < block.transactions.len(),
            Err(_) => false,
        };
        if valid {
            self.challenge_context = Some(ChallengeContext { target: context, witness });
            self.status = Status::Halting;
            SyncEvent::WaitChallenge
        } else {
            SyncEvent::BadChallenge(
                CancelChallenge {
                    block_number: context.block_number,
                    tx_index: context.tx_index,
                    post_account_root: H256::zero(),
                },
            )
        }
    }

    /// Clear the open dispute when the cancellation verifies; otherwise
    /// answer it as a bad challenge and leave the dispute open.
    pub fn process_cancel_challenge(&mut self, context: CancelChallenge) -> (r: SyncEvent)
        requires
            old(self).wf(),
        ensures
            final(self).wf(),
            final(self).manage() == old(self).manage(),
            spec_cancel_valid(old(self)@.store, old(self)@.challenge, context) ==> r
                == SyncEvent::Success && final(self)@ == (ChainView {
                status: Status::Running,
                challenge: None,
                ..old(self)@
            }),
            !spec_cancel_valid(old(self)@.store, old(self)@.challenge, context) ==> r
                == SyncEvent::BadChallenge(context) && final(self)@ == old(self)@,
    {
        let target_matches = match &self.challenge_context {
            Some(c) => c.target.block_number == context.block_number && c.target.tx_index
                == context.tx_index,
            None => false,
        };
        let valid = target_matches && match self.store.get_block(context.block_number) {
            Ok(block) => (context.tx_index as usize) < block.compacted_post_roots.len()
                && block.compacted_post_roots[context.tx_index as usize]
                == context.post_account_root,
            Err(_) => false,
        };
        if valid {
            self.challenge_context = None;
            self.status = Status::Running;
            SyncEvent::Success
        } else {
            SyncEvent::BadChallenge(context)
        }
    }

    /// Undo one reverted action: move the store tip back to just before the
    /// offending block, release any open dispute, and resume running.
    pub fn process_revert(&mut self, context: StartChallenge) -> (r: Result<(), ChainError>)
        requires
            old(self).wf(),
        ensures
            final(self).wf(),
            final(self).manage() == old(self).manage(),
            (r is Ok) == (1 <= context.block_number <= old(self)@.store.tip),
            r is Ok ==> final(self)@ == (ChainView {
                store: StoreView { tip: context.block_number - 1, ..old(self)@.store },
                status: Status::Running,
                challenge: None,
                ..old(self)@
            }),
            r is Err ==> final(self)@ == old(self)@ && r->Err_0 == ChainError::Store(
                StoreError::VersionNotFound,
            ),
    {
        match self.store.revert_to_before(context.block_number) {
            Ok(()) => {
                self.challenge_context = None;
                self.status = Status::Running;
                Ok(())
            },
            Err(e) => Err(ChainError::Store(e)),
        }
    }
}

} // verus!

verus! {

/// Replay a withdrawal sequence into `state`; `false` reports that some
/// request was refused, leaving the caller to discard the state.
fn replay_withdrawals(
    generator: &Generator,
    state: &mut AccountState,
    ws: &Vec<WithdrawalRequest>,
) -> (r: bool)
    requires
        old(state).wf(),
    ensures
        final(state).wf(),
        r == (spec_apply_withdrawals(
            generator.manage_view(),
            old(state)@,
            crate::types::withdrawals_view(ws@),
        ) is Some),
        r ==> final(state)@ == spec_apply_withdrawals(
            generator.manage_view(),
            old(state)@,
            crate::types::withdrawals_view(ws@),
        )->0,
{
    let ghost m = generator.manage_view();
    let ghost wsv = crate::types::withdrawals_view(ws@);
    proof {
        assert(wsv.skip(0) =~= wsv);
    }
    let n = ws.len();
    let mut i: usize = 0;
    while i < n
        invariant
            0 <= i <= n,
            n == ws@.len(),
            m == generator.manage_view(),
            wsv == crate::types::withdrawals_view(ws@),
            state.wf(),
            spec_apply_withdrawals(m, old(state)@, wsv) == spec_apply_withdrawals(
                m,
                state@,
                wsv.skip(i as int),
            ),
        decreases n - i,
    {
        proof {
            assert(wsv.skip(i as int)[0] == ws@[i as int]@);
            assert(wsv.skip(i as int).drop_first() =~= wsv.skip(i as int + 1));
        }
        match generator.execute_withdrawal(state, &ws[i]) {
            Ok(rr) => {
                crate::generator::apply_run_result(state, &rr);
            },
            Err(_) => {
                return false;
            },
        }
        i = i + 1;
    }
    proof {
        assert(wsv.skip(n as int) =~= Seq::<WithdrawalRequestView>::empty());
    }
    true
}

/// Credit a deposition sequence into `state`; `false` reports that some
/// request could not be credited.
fn replay_depositions(state: &mut AccountState, ds: &Vec<DepositionRequest>) -> (r: bool)
    requires
        old(state).wf(),
    ensures
        final(state).wf(),
        r == (spec_apply_depositions(old(state)@, crate::types::depositions_view(ds@)) is Some),
        r ==> final(state)@ == spec_apply_depositions(
            old(state)@,
            crate::types::depositions_view(ds@),
        )->0,
{
    let ghost dsv = crate::types::depositions_view(ds@);
    proof {
        assert(dsv.skip(0) =~= dsv);
    }
    let n = ds.len();
    let mut i: usize = 0;
    while i < n
        invariant
            0 <= i <= n,
            n == ds@.len(),
            dsv == crate::types::depositions_view(ds@),
            state.wf(),
            spec_apply_depositions(old(state)@, dsv) == spec_apply_depositions(
                state@,
                dsv.skip(i as int),
            ),
        decreases n - i,
    {
        proof {
            assert(dsv.skip(i as int)[0] == ds@[i as int]@);
            assert(dsv.skip(i as int).drop_first() =~= dsv.skip(i as int + 1));
        }
        match crate::generator::apply_deposition_request(state, &ds[i]) {
            Ok(()) => {},
            Err(_) => {
                return false;
            },
        }
        i = i + 1;
    }
    proof {
        assert(dsv.skip(n as int) =~= Seq::<DepositionRequestView>::empty());
    }
    true
}

/// Replay a transaction sequence into `state`, holding each step to its
/// claimed compacted commitment; reports the first divergent index.
fn replay_transactions(
    generator: &Generator,
    state: &mut AccountState,
    txs: &Vec<L2Transaction>,
    roots: &Vec<H256>,
) -> (r: Option<usize>)
    requires
        old(state).wf(),
        txs@.len() == roots@.len(),
    ensures
        final(state).wf(),
        (r is None) == (spec_apply_transactions(
            generator.manage_view(),
            old(state)@,
            crate::types::txs_view(txs@),
            roots@,
        ) is Ok),
        r is None ==> final(state)@ == spec_apply_transactions(
            generator.manage_view(),
            old(state)@,
            crate::types::txs_view(txs@),
            roots@,
        )->Ok_0,
        r is Some ==> spec_apply_transactions(
            generator.manage_view(),
            old(state)@,
            crate::types::txs_view(txs@),
            roots@,
        ) == Err::<crate::account::AccountStateView, int>(r->0 as int) && r->0 < txs@.len(),
{
    let ghost m = generator.manage_view();
    let ghost txsv = crate::types::txs_view(txs@);
    proof {
        assert(txsv.skip(0) =~= txsv);
        assert(roots@.skip(0) =~= roots@);
    }
    let n = txs.len();
    let mut i: usize = 0;
    while i < n
        invariant
            0 <= i <= n,
            n == txs@.len(),
            n == roots@.len(),
            m == generator.manage_view(),
            txsv == crate::types::txs_view(txs@),
            state.wf(),
            ({
                let full = spec_apply_transactions(m, old(state)@, txsv, roots@);
                let rest = spec_apply_transactions(
                    m,
                    state@,
                    txsv.skip(i as int),
                    roots@.skip(i as int),
                );
                &&& (rest is Ok ==> full == rest)
                &&& (rest is Err ==> full == Err::<crate::account::AccountStateView, int>(
                    rest->Err_0 + i,
                ))
            }),
        decreases n - i,
    {
        proof {
            assert(txsv.skip(i as int)[0] == txs@[i as int]@);
            assert(roots@.skip(i as int)[0] == roots@[i as int]);
            assert(txsv.skip(i as int).drop_first() =~= txsv.skip(i as int + 1));
            assert(roots@.skip(i as int).drop_first() =~= roots@.skip(i as int + 1));
        }
        match generator.execute_transaction(state, &txs[i]) {
            Ok(rr) => {
                crate::generator::apply_run_result(state, &rr);
                let post = state.merkle_state();
                let compacted = compacted_account_root(&post);
                if compacted != roots[i] {
                    return Some(i);
                }
            },
            Err(_) => {
                return Some(i);
            },
        }
        i = i + 1;
    }
    proof {
        assert(txsv.skip(n as int) =~= Seq::<L2TransactionView>::empty());
    }
    None
}

/// A submitted block is refused outright when it does not carry the next
/// block number, or when the number space is exhausted: that breaks the
/// protocol's ordering and is fatal, not a bad block.
pub open spec fn spec_submit_rejected(sv: StoreView, b: L2BlockView) -> bool {
    let tn = sv.versions[sv.tip].block.number;
    !(tn < u64::MAX - 1 && b.number == tn + 1)
}

/// The block's claims have the right shape: one commitment per
/// transaction, a representable transaction count, and the pre-state
/// commitment the chain actually has at its tip.
pub open spec fn spec_submit_shape_ok(sv: StoreView, b: L2BlockView) -> bool {
    let tip_state = sv.versions[sv.tip].state;
    &&& b.compacted_post_roots.len() == b.transactions.len()
    &&& b.transactions.len() <= u32::MAX
    &&& b.prev_account == (MerkleState {
        root: spec_root(tip_state.tree),
        count: tip_state.account_count,
    })
}

/// The state a valid submitted block reaches: tip state, then the
/// action's depositions, then the block's withdrawals, then the block's
/// transactions.
pub open spec fn spec_submit_state(
    m: Seq<(H256, LockAlgorithmKind)>,
    sv: StoreView,
    b: L2BlockView,
    ds: Seq<DepositionRequestView>,
) -> crate::account::AccountStateView {
    let tip_state = sv.versions[sv.tip].state;
    let after_ds = spec_apply_depositions(tip_state, ds)->0;
    let after_ws = spec_apply_withdrawals(m, after_ds, b.withdrawal_requests)->0;
    spec_apply_transactions(m, after_ws, b.transactions, b.compacted_post_roots)->Ok_0
}

/// A submitted block re-derives exactly when every stage replays and the
/// final commitment matches the claim.
pub open spec fn spec_submit_ok(
    m: Seq<(H256, LockAlgorithmKind)>,
    sv: StoreView,
    b: L2BlockView,
    ds: Seq<DepositionRequestView>,
) -> bool {
    let tip_state = sv.versions[sv.tip].state;
    &&& spec_submit_shape_ok(sv, b)
    &&& spec_apply_depositions(tip_state, ds) is Some
    &&& spec_apply_withdrawals(
        m,
        spec_apply_depositions(tip_state, ds)->0,
        b.withdrawal_requests,
    ) is Some
    &&& spec_apply_transactions(
        m,
        spec_apply_withdrawals(
            m,
            spec_apply_depositions(tip_state, ds)->0,
            b.withdrawal_requests,
        )->0,
        b.transactions,
        b.compacted_post_roots,
    ) is Ok
    &&& b.post_account == (MerkleState {
        root: spec_root(spec_submit_state(m, sv, b, ds).tree),
        count: spec_submit_state(m, sv, b, ds).account_count,
    })
}

/// The first divergent transaction index of a bad block; divergence before
/// or after the transactions reports index zero or the transaction count.
pub open spec fn spec_submit_bad_index(
    m: Seq<(H256, LockAlgorithmKind)>,
    sv: StoreView,
    b: L2BlockView,
    ds: Seq<DepositionRequestView>,
) -> int {
    let tip_state = sv.versions[sv.tip].state;
    if !spec_submit_shape_ok(sv, b) {
        0
    } else if !(spec_apply_depositions(tip_state, ds) is Some) {
        0
    } else if !(spec_apply_withdrawals(
        m,
        spec_apply_depositions(tip_state, ds)->0,
        b.withdrawal_requests,
    ) is Some) {
        0
    } else {
        let txres = spec_apply_transactions(
            m,
            spec_apply_withdrawals(
                m,
                spec_apply_depositions(tip_state, ds)->0,
                b.withdrawal_requests,
            )->0,
            b.transactions,
            b.compacted_post_roots,
        );
        if txres is Err {
            txres->Err_0
        } else {
            b.transactions.len() as int
        }
    }
}

/// The chain after undoing one batch of reverted actions, oldest first:
/// each must carry the revert tag, each rolls the tip back to just before
/// its offending block and releases any open dispute. A mistagged action
/// or a target off the chain is fatal, leaving the fold at that error.
pub open spec fn spec_sync_reverts(v: ChainView, reverts: Seq<L1Action>) -> Result<
    ChainView,
    ChainError,
>
    decreases reverts.len(),
{
    if reverts.len() == 0 {
        Ok(v)
    } else {
        match reverts[0].context {
            L1ActionContext::Revert { context } => {
                if 1 <= context.block_number <= v.store.tip {
                    spec_sync_reverts(
                        ChainView {
                            store: StoreView { tip: context.block_number - 1, ..v.store },
                            status: Status::Running,
                            challenge: None,
                            ..v
                        },
                        reverts.drop_first(),
                    )
                } else {
                    Err(ChainError::Store(StoreError::VersionNotFound))
                }
            },
            _ => Err(ChainError::ProtocolViolation),
        }
    }
}

/// The chain after applying one batch of updates, oldest first, and the
/// event that ended the batch early, if one did: a submitted block while a
/// dispute is open waits; a re-derived block commits and the fold goes on;
/// a divergent block or a failing challenge answer ends the batch with its
/// classification, the effects of the earlier actions standing; a
/// revert-tagged update is fatal.
pub open spec fn spec_sync_updates(
    m: Seq<(H256, LockAlgorithmKind)>,
    v: ChainView,
    updates: Seq<L1Action>,
) -> Result<(ChainView, Option<SyncEvent>), ChainError>
    decreases updates.len(),
{
    if updates.len() == 0 {
        Ok((v, None))
    } else {
        let a = updates[0];
        match a.context {
            L1ActionContext::SubmitTxs { deposition_requests } => {
                if v.status == Status::Halting {
                    Ok((v, Some(SyncEvent::WaitChallenge)))
                } else if spec_submit_rejected(v.store, a.transaction.block@) {
                    Err(ChainError::ProtocolViolation)
                } else if spec_submit_ok(
                    m,
                    v.store,
                    a.transaction.block@,
                    crate::types::depositions_view(deposition_requests@),
                ) {
                    spec_sync_updates(
                        m,
                        ChainView {
                            store: spec_commit(
                                v.store,
                                a.transaction.block@,
                                spec_submit_state(
                                    m,
                                    v.store,
                                    a.transaction.block@,
                                    crate::types::depositions_view(deposition_requests@),
                                ),
                            ),
                            last_synced: a.header_info,
                            ..v
                        },
                        updates.drop_first(),
                    )
                } else {
                    Ok(
                        (
                            v,
                            Some(
                                SyncEvent::BadBlock(
                                    StartChallenge {
                                        block_number: a.transaction.block@.number,
                                        tx_index: spec_submit_bad_index(
                                            m,
                                            v.store,
                                            a.transaction.block@,
                                            crate::types::depositions_view(deposition_requests@),
                                        ) as u32,
                                    },
                                ),
                            ),
                        ),
                    )
                }
            },
            L1ActionContext::Challenge { context } => {
                if spec_challenge_valid(v.store, context) {
                    spec_sync_updates(
                        m,
                        ChainView { status: Status::Halting, challenge: Some(context), ..v },
                        updates.drop_first(),
                    )
                } else {
                    Ok(
                        (
                            v,
                            Some(
                                SyncEvent::BadChallenge(
                                    CancelChallenge {
                                        block_number: context.block_number,
                                        tx_index: context.tx_index,
                                        post_account_root: H256::spec_zero(),
                                    },
                                ),
                            ),
                        ),
                    )
                }
            },
            L1ActionContext::CancelChallenge { context } => {
                if spec_cancel_valid(v.store, v.challenge, context) {
                    spec_sync_updates(
                        m,
                        ChainView { status: Status::Running, challenge: None, ..v },
                        updates.drop_first(),
                    )
                } else {
                    Ok((v, Some(SyncEvent::BadChallenge(context))))
                }
            },
            L1ActionContext::Revert { .. } => Err(ChainError::ProtocolViolation),
        }
    }
}

impl Chain {
    /// Re-derive a submitted block against the pre-block state and either
    /// commit it or classify it as bad, reporting the first divergent
    /// transaction index.
    #[verifier::spinoff_prover]
    #[verifier::rlimit(100)]
    pub fn process_submit_txs(
        &mut self,
        block: &L2Block,
        header_info: HeaderInfo,
        deposition_requests: &Vec<DepositionRequest>,
    ) -> (r: Result<SyncEvent, ChainError>)
        requires
            old(self).wf(),
            old(self)@.status == Status::Running,
        ensures
            final(self).wf(),
            final(self).manage() == old(self).manage(),
            (r is Err) == spec_submit_rejected(old(self)@.store, block@),
            r is Err ==> final(self)@ == old(self)@ && r->Err_0 == ChainError::ProtocolViolation,
            r is Ok && spec_submit_ok(
                old(self).manage(),
                old(self)@.store,
                block@,
                crate::types::depositions_view(deposition_requests@),
            ) ==> r->Ok_0 == SyncEvent::Success && final(self)@ == (ChainView {
                store: spec_commit(
                    old(self)@.store,
                    block@,
                    spec_submit_state(
                        old(self).manage(),
                        old(self)@.store,
                        block@,
                        crate::types::depositions_view(deposition_requests@),
                    ),
                ),
                last_synced: header_info,
                ..old(self)@
            }),
            r is Ok && !spec_submit_ok(
                old(self).manage(),
                old(self)@.store,
                block@,
                crate::types::depositions_view(deposition_requests@),
            ) ==> r->Ok_0 == SyncEvent::BadBlock(
                StartChallenge {
                    block_number: block@.number,
                    tx_index: spec_submit_bad_index(
                        old(self).manage(),
                        old(self)@.store,
                        block@,
                        crate::types::depositions_view(deposition_requests@),
                    ) as u32,
                },
            ) && final(self)@ == old(self)@,
    {
        let tip_num = match self.store.tip_number() {
            Some(n) => n,
            None => {
                return Err(ChainError::ProtocolViolation);
            },
        };
        if tip_num >= u64::MAX - 1 || block.number != tip_num + 1 {
            return Err(ChainError::ProtocolViolation);
        }
        let bad0 = SyncEvent::BadBlock(
            StartChallenge { block_number: block.number, tx_index: 0 },
        );
        if block.compacted_post_roots.len() != block.transactions.len() {
            return Ok(bad0);
        }
        if block.transactions.len() > u32::MAX as usize {
            return Ok(bad0);
        }
        let mut state = match self.store.checkout_state(tip_num) {
            Ok(s) => s,
            Err(e) => {
                return Err(ChainError::Store(e));
            },
        };
        proof {
            assert(self@.store.versions[self@.store.tip].block.number == self@.store.tip as u64);
            assert(state@ == self@.store.versions[self@.store.tip].state);
        }
        let tip_merkle = state.merkle_state();
        if !(tip_merkle == block.prev_account) {
            return Ok(bad0);
        }
        if !replay_depositions(&mut state, deposition_requests) {
            return Ok(bad0);
        }
        if !replay_withdrawals(&self.generator, &mut state, &block.withdrawal_requests) {
            return Ok(bad0);
        }
        match replay_transactions(
            &self.generator,
            &mut state,
            &block.transactions,
            &block.compacted_post_roots,
        ) {
            Some(i) => {
                return Ok(
                    SyncEvent::BadBlock(
                        StartChallenge { block_number: block.number, tx_index: i as u32 },
                    ),
                );
            },
            None => {},
        }
        let post_merkle = state.merkle_state();
        if !(post_merkle == block.post_account) {
            return Ok(
                SyncEvent::BadBlock(
                    StartChallenge {
                        block_number: block.number,
                        tx_index: block.transactions.len() as u32,
                    },
                ),
            );
        }
        match self.store.commit_block(block.duplicate(), state) {
            Ok(_) => {},
            Err(e) => {
                return Err(ChainError::Store(e));
            },
        }
        self.last_synced = header_info;
        Ok(SyncEvent::Success)
    }

    /// Consume one ordered batch: undo the reverts, oldest first, then
    /// apply the updates, oldest first, classifying each. The outcome and
    /// the chain reached are exactly the folds [`spec_sync_reverts`] and
    /// [`spec_sync_updates`] of the batch: the first bad block or bad
    /// challenge ends the batch with the effects of the earlier actions
    /// standing, and a batch that completes reports success, or a waiting
    /// dispute. A fatal error ends the batch at the offending action; per
    /// the propagation policy, what earlier actions already committed
    /// stands.
    #[verifier::spinoff_prover]
    #[verifier::rlimit(100)]
    pub fn sync(&mut self, param: SyncParam) -> (r: Result<SyncEvent, ChainError>)
        requires
            old(self).wf(),
        ensures
            final(self).wf(),
            final(self).manage() == old(self).manage(),
            ({
                let rv = spec_sync_reverts(old(self)@, param.reverts@);
                &&& rv is Err ==> r is Err && r->Err_0 == rv->Err_0
                &&& rv is Ok ==> {
                    let uv = spec_sync_updates(old(self).manage(), rv->Ok_0, param.updates@);
                    &&& (r is Err) == (uv is Err)
                    &&& uv is Err ==> r->Err_0 == uv->Err_0
                    &&& uv is Ok ==> match uv->Ok_0.1 {
                        Some(ev) => r == Ok::<SyncEvent, ChainError>(ev) && final(self)@
                            == uv->Ok_0.0,
                        None => final(self)@ == (ChainView {
                            next_block_context: param.next_block_context,
                            ..uv->Ok_0.0
                        }) && r == Ok::<SyncEvent, ChainError>(
                            if uv->Ok_0.0.challenge is Some {
                                SyncEvent::WaitChallenge
                            } else {
                                SyncEvent::Success
                            },
                        ),
                    }
                }
            }),
            r == Ok::<SyncEvent, ChainError>(SyncEvent::Success) ==> final(self)@.challenge is None
                && final(self)@.status == Status::Running,
            r == Ok::<SyncEvent, ChainError>(SyncEvent::WaitChallenge) && final(self)@.challenge is Some
                ==> final(self)@.status == Status::Halting,
    {
        proof {
            assert(param.reverts@.skip(0) =~= param.reverts@);
        }
        let mut i: usize = 0;
        while i < param.reverts.len()
            invariant
                0 <= i <= param.reverts@.len(),
                self.wf(),
                self.manage() == old(self).manage(),
                spec_sync_reverts(old(self)@, param.reverts@) == spec_sync_reverts(
                    self@,
                    param.reverts@.skip(i as int),
                ),
            decreases param.reverts@.len() - i,
        {
            proof {
                assert(param.reverts@.skip(i as int)[0] == param.reverts@[i as int]);
                assert(param.reverts@.skip(i as int).drop_first() =~= param.reverts@.skip(
                    i as int + 1,
                ));
            }
            match &param.reverts[i].context {
                L1ActionContext::Revert { context } => {
                    match self.process_revert(*context) {
                        Ok(()) => {},
                        Err(e) => {
                            return Err(e);
                        },
                    }
                },
                _ => {
                    return Err(ChainError::ProtocolViolation);
                },
            }
            i = i + 1;
        }
        proof {
            assert(param.reverts@.skip(param.reverts@.len() as int) =~= Seq::<L1Action>::empty());
        }
        let ghost v_r = self@;
        proof {
            assert(param.updates@.skip(0) =~= param.updates@);
        }
        let mut j: usize = 0;
        while j < param.updates.len()
            invariant
                0 <= j <= param.updates@.len(),
                self.wf(),
                self.manage() == old(self).manage(),
                spec_sync_reverts(old(self)@, param.reverts@) == Ok::<ChainView, ChainError>(v_r),
                spec_sync_updates(old(self).manage(), v_r, param.updates@) == spec_sync_updates(
                    old(self).manage(),
                    self@,
                    param.updates@.skip(j as int),
                ),
            decreases param.updates@.len() - j,
        {
            proof {
                assert(param.updates@.skip(j as int)[0] == param.updates@[j as int]);
                assert(param.updates@.skip(j as int).drop_first() =~= param.updates@.skip(
                    j as int + 1,
                ));
            }
            let action = &param.updates[j];
            match &action.context {
                L1ActionContext::SubmitTxs { deposition_requests } => {
                    if self.status() == Status::Halting {
                        return Ok(SyncEvent::WaitChallenge);
                    }
                    match self.process_submit_txs(
                        &action.transaction.block,
                        action.header_info,
                        deposition_requests,
                    ) {
                        Ok(SyncEvent::Success) => {},
                        Ok(ev) => {
                            return Ok(ev);
                        },
                        Err(e) => {
                            return Err(e);
                        },
                    }
                },
                L1ActionContext::Challenge { context } => {
                    match self.process_challenge(*context, Vec::new()) {
                        SyncEvent::WaitChallenge => {},
                        ev => {
                            return Ok(ev);
                        },
                    }
                },
                L1ActionContext::CancelChallenge { context } => {
                    match self.process_cancel_challenge(*context) {
                        SyncEvent::Success => {},
                        ev => {
                            return Ok(ev);
                        },
                    }
                },
                L1ActionContext::Revert { .. } => {
                    return Err(ChainError::ProtocolViolation);
                },
            }
            j = j + 1;
        }
        proof {
            assert(param.updates@.skip(param.updates@.len() as int) =~= Seq::<L1Action>::empty());
        }
        self.next_block_context = param.next_block_context;
        if self.open_challenge().is_some() {
            Ok(SyncEvent::WaitChallenge)
        } else {
            Ok(SyncEvent::Success)
        }
    }
}

} // verus!

verus! {

/// The transactions of a receipt sequence, in order.
pub open spec fn spec_receipt_txs(rs: Seq<crate::types::TxReceiptView>) -> Seq<
    L2TransactionView,
> {
    rs.map_values(|rc: crate::types::TxReceiptView| rc.tx)
}

/// A withdrawal sequence filtered over an evolving state: the requests the
/// generator accepts, in order, each applied before the next is tried; the
/// requests it refuses, in order; and the state reached. Every request goes
/// to exactly one side, and only because its own dry run passed or failed.
pub open spec fn spec_filter_withdrawals(
    m: Seq<(H256, LockAlgorithmKind)>,
    v: crate::account::AccountStateView,
    ws: Seq<WithdrawalRequestView>,
) -> (Seq<WithdrawalRequestView>, Seq<WithdrawalRequestView>, crate::account::AccountStateView)
    decreases ws.len(),
{
    if ws.len() == 0 {
        (Seq::empty(), Seq::empty(), v)
    } else {
        match spec_execute_withdrawal(m, v, ws[0]) {
            Ok(rr) => {
                let rest = spec_filter_withdrawals(
                    m,
                    spec_apply_run_result(v, rr),
                    ws.drop_first(),
                );
                (seq![ws[0]] + rest.0, rest.1, rest.2)
            },
            Err(_) => {
                let rest = spec_filter_withdrawals(m, v, ws.drop_first());
                (rest.0, seq![ws[0]] + rest.1, rest.2)
            },
        }
    }
}

/// A transaction sequence filtered over an evolving state: the
/// transactions the generator accepts, the compacted commitment recorded
/// right after each, the transactions it refuses, and the state reached.
pub open spec fn spec_filter_transactions(
    m: Seq<(H256, LockAlgorithmKind)>,
    v: crate::account::AccountStateView,
    ts: Seq<L2TransactionView>,
) -> (Seq<L2TransactionView>, Seq<H256>, Seq<L2TransactionView>, crate::account::AccountStateView)
    decreases ts.len(),
{
    if ts.len() == 0 {
        (Seq::empty(), Seq::empty(), Seq::empty(), v)
    } else {
        match spec_execute_transaction(m, v, ts[0]) {
            Ok(rr) => {
                let v1 = spec_apply_run_result(v, rr);
                let root = spec_compacted_root(
                    MerkleState { root: spec_root(v1.tree), count: v1.account_count },
                );
                let rest = spec_filter_transactions(m, v1, ts.drop_first());
                (seq![ts[0]] + rest.0, seq![root] + rest.1, rest.2, rest.3)
            },
            Err(_) => {
                let rest = spec_filter_transactions(m, v, ts.drop_first());
                (rest.0, rest.1, seq![ts[0]] + rest.2, rest.3)
            },
        }
    }
}

/// What the block producer works from: which aggregator signs, which
/// depositions to credit, and the mem-pool snapshot to drain.
#[derive(Debug)]
pub struct ProduceBlockParam {
    pub aggregator_id: u32,
    pub deposition_requests: Vec<DepositionRequest>,
    pub tx_pool_pkg: TxPoolPackage,
}

/// What block production yields: the assembled block, the global state
/// commitment it reaches, and the snapshot entries that went stale before
/// production and were left out.
#[derive(Debug)]
pub struct ProduceBlockResult {
    pub block: L2Block,
    pub global_state: GlobalState,
    pub unused_transactions: Vec<L2Transaction>,
    pub unused_withdrawal_requests: Vec<WithdrawalRequest>,
}

impl Chain {
    /// Drain a mem-pool snapshot into the next block: credit the
    /// depositions, then re-execute every snapshot entry against a single
    /// evolving copy of the tip state, dropping entries that have gone
    /// stale instead of aborting. The assembled block re-derives under the
    /// same rules `sync` applies, so the chain it is submitted to accepts
    /// it.
    #[verifier::spinoff_prover]
    #[verifier::rlimit(100)]
    pub fn produce_block(&self, param: &ProduceBlockParam) -> (r: Result<
        ProduceBlockResult,
        ChainError,
    >)
        requires
            self.wf(),
        ensures
            ({
                let sv = self@.store;
                let tn = sv.versions[sv.tip].block.number;
                let dsv = crate::types::depositions_view(param.deposition_requests@);
                &&& (r is Ok) == (tn < u64::MAX - 1 && sv.tip < u32::MAX - 1
                    && param.tx_pool_pkg.tx_receipts@.len() <= u32::MAX && spec_apply_depositions(
                    sv.versions[sv.tip].state,
                    dsv,
                ) is Some)
                &&& r is Ok ==> {
                    let b = r->Ok_0.block@;
                    &&& b.number == tn + 1
                    &&& b.aggregator_id == param.aggregator_id
                    &&& b.timestamp == self@.next_block_context.timestamp
                    &&& spec_submit_ok(self.manage(), sv, b, dsv)
                    &&& r->Ok_0.global_state.account == b.post_account
                    &&& r->Ok_0.global_state.status == self@.status
                    &&& r->Ok_0.global_state.block == (MerkleState {
                        root: spec_root(
                            crate::store::spec_index_block(
                                sv.versions[sv.tip].block_tree,
                                b.number,
                                crate::types::spec_block_hash(b),
                            ),
                        ),
                        count: (sv.tip + 2) as u32,
                    })
                    &&& {
                        let fw = spec_filter_withdrawals(
                            self.manage(),
                            spec_apply_depositions(sv.versions[sv.tip].state, dsv)->0,
                            param.tx_pool_pkg@.withdrawal_requests,
                        );
                        let ft = spec_filter_transactions(
                            self.manage(),
                            fw.2,
                            spec_receipt_txs(param.tx_pool_pkg@.tx_receipts),
                        );
                        &&& b.withdrawal_requests == fw.0
                        &&& crate::types::withdrawals_view(
                            r->Ok_0.unused_withdrawal_requests@,
                        ) == fw.1
                        &&& b.transactions == ft.0
                        &&& b.compacted_post_roots == ft.1
                        &&& crate::types::txs_view(r->Ok_0.unused_transactions@) == ft.2
                    }
                }
            }),
    {
        let ghost m = self.manage();
        let tip_num = match self.store.tip_number() {
            Some(n) => n,
            None => {
                return Err(ChainError::ProtocolViolation);
            },
        };
        if tip_num >= u64::MAX - 1 {
            return Err(ChainError::ProtocolViolation);
        }
        if self.store.tip_index_exceeds_u32() {
            return Err(ChainError::ProtocolViolation);
        }
        if param.tx_pool_pkg.tx_receipts.len() > u32::MAX as usize {
            return Err(ChainError::ProtocolViolation);
        }
        let mut state = match self.store.checkout_state(tip_num) {
            Ok(s) => s,
            Err(e) => {
                return Err(ChainError::Store(e));
            },
        };
        proof {
            assert(self@.store.versions[self@.store.tip].block.number == self@.store.tip as u64);
            assert(state@ == self@.store.versions[self@.store.tip].state);
        }
        let prev_account = state.merkle_state();
        if !replay_depositions(&mut state, &param.deposition_requests) {
            return Err(ChainError::ProtocolViolation);
        }
        let ghost dep_state = state@;
        let ghost wsv = crate::types::withdrawals_view(param.tx_pool_pkg.withdrawal_requests@);
        proof {
            assert(wsv.skip(0) =~= wsv);
        }
        // withdrawals: keep what still validates, drop the rest
        let mut withdrawal_requests: Vec<WithdrawalRequest> = Vec::new();
        let mut unused_withdrawal_requests: Vec<WithdrawalRequest> = Vec::new();
        proof {
            assert(crate::types::withdrawals_view(withdrawal_requests@)
                =~= Seq::<WithdrawalRequestView>::empty());
            assert(crate::types::withdrawals_view(unused_withdrawal_requests@)
                =~= Seq::<WithdrawalRequestView>::empty());
        }
        let mut i: usize = 0;
        while i < param.tx_pool_pkg.withdrawal_requests.len()
            invariant
                0 <= i <= param.tx_pool_pkg.withdrawal_requests@.len(),
                m == self.manage(),
                wsv == crate::types::withdrawals_view(param.tx_pool_pkg.withdrawal_requests@),
                state.wf(),
                spec_apply_withdrawals(
                    m,
                    dep_state,
                    crate::types::withdrawals_view(withdrawal_requests@),
                ) == Some(state@),
                ({
                    let full = spec_filter_withdrawals(m, dep_state, wsv);
                    let rest = spec_filter_withdrawals(m, state@, wsv.skip(i as int));
                    &&& full.0 == crate::types::withdrawals_view(withdrawal_requests@) + rest.0
                    &&& full.1 == crate::types::withdrawals_view(unused_withdrawal_requests@)
                        + rest.1
                    &&& full.2 == rest.2
                }),
            decreases param.tx_pool_pkg.withdrawal_requests@.len() - i,
        {
            proof {
                assert(wsv.skip(i as int)[0]
                    == param.tx_pool_pkg.withdrawal_requests@[i as int]@);
                assert(wsv.skip(i as int).drop_first() =~= wsv.skip(i as int + 1));
            }
            let req = &param.tx_pool_pkg.withdrawal_requests[i];
            match self.generator.execute_withdrawal(&state, req) {
                Ok(rr) => {
                    let ghost pre_included = crate::types::withdrawals_view(
                        withdrawal_requests@,
                    );
                    let ghost pre_state = state@;
                    crate::generator::apply_run_result(&mut state, &rr);
                    withdrawal_requests.push(req.duplicate());
                    proof {
                        crate::types::lemma_withdrawals_view_push(
                            withdrawal_requests@.take(withdrawal_requests@.len() - 1),
                            withdrawal_requests@[withdrawal_requests@.len() - 1],
                        );
                        assert(withdrawal_requests@.take(withdrawal_requests@.len() - 1)
                            =~= withdrawal_requests@.drop_last());
                        assert(crate::types::withdrawals_view(withdrawal_requests@)
                            =~= pre_included.push(req@));
                        lemma_apply_withdrawals_snoc(m, dep_state, pre_included, req@);
                        assert(pre_included + (seq![req@] + spec_filter_withdrawals(
                            m,
                            state@,
                            wsv.skip(i as int + 1),
                        ).0) =~= pre_included.push(req@) + spec_filter_withdrawals(
                            m,
                            state@,
                            wsv.skip(i as int + 1),
                        ).0);
                    }
                },
                Err(_) => {
                    let ghost pre_unused = crate::types::withdrawals_view(
                        unused_withdrawal_requests@,
                    );
                    unused_withdrawal_requests.push(req.duplicate());
                    proof {
                        crate::types::lemma_withdrawals_view_push(
                            unused_withdrawal_requests@.take(
                                unused_withdrawal_requests@.len() - 1,
                            ),
                            unused_withdrawal_requests@[unused_withdrawal_requests@.len() - 1],
                        );
                        assert(unused_withdrawal_requests@.take(
                            unused_withdrawal_requests@.len() - 1,
                        ) =~= unused_withdrawal_requests@.drop_last());
                        assert(crate::types::withdrawals_view(unused_withdrawal_requests@)
                            =~= pre_unused.push(req@));
                        assert(pre_unused + (seq![req@] + spec_filter_withdrawals(
                            m,
                            state@,
                            wsv.skip(i as int + 1),
                        ).1) =~= pre_unused.push(req@) + spec_filter_withdrawals(
                            m,
                            state@,
                            wsv.skip(i as int + 1),
                        ).1);
                    }
                },
            }
            i = i + 1;
        }
        proof {
            assert(wsv.skip(param.tx_pool_pkg.withdrawal_requests@.len() as int)
                =~= Seq::<WithdrawalRequestView>::empty());
            assert(crate::types::withdrawals_view(withdrawal_requests@) + Seq::<
                WithdrawalRequestView,
            >::empty() =~= crate::types::withdrawals_view(withdrawal_requests@));
            assert(crate::types::withdrawals_view(unused_withdrawal_requests@) + Seq::<
                WithdrawalRequestView,
            >::empty() =~= crate::types::withdrawals_view(unused_withdrawal_requests@));
        }
        let ghost wd_state = state@;
        let ghost tsv = spec_receipt_txs(
            crate::tx_pool::receipts_view(param.tx_pool_pkg.tx_receipts@),
        );
        proof {
            assert(tsv.skip(0) =~= tsv);
        }
        // transactions: keep what still validates, drop the rest
        let mut transactions: Vec<L2Transaction> = Vec::new();
        let mut compacted_post_roots: Vec<H256> = Vec::new();
        let mut unused_transactions: Vec<L2Transaction> = Vec::new();
        proof {
            assert(crate::types::txs_view(transactions@) =~= Seq::<L2TransactionView>::empty());
            assert(crate::types::txs_view(unused_transactions@)
                =~= Seq::<L2TransactionView>::empty());
        }
        let mut j: usize = 0;
        while j < param.tx_pool_pkg.tx_receipts.len()
            invariant
                0 <= j <= param.tx_pool_pkg.tx_receipts@.len(),
                m == self.manage(),
                tsv == spec_receipt_txs(
                    crate::tx_pool::receipts_view(param.tx_pool_pkg.tx_receipts@),
                ),
                state.wf(),
                transactions@.len() == compacted_post_roots@.len(),
                transactions@.len() <= j,
                spec_apply_transactions(
                    m,
                    wd_state,
                    crate::types::txs_view(transactions@),
                    compacted_post_roots@,
                ) == Ok::<crate::account::AccountStateView, int>(state@),
                ({
                    let full = spec_filter_transactions(m, wd_state, tsv);
                    let rest = spec_filter_transactions(m, state@, tsv.skip(j as int));
                    &&& full.0 == crate::types::txs_view(transactions@) + rest.0
                    &&& full.1 == compacted_post_roots@ + rest.1
                    &&& full.2 == crate::types::txs_view(unused_transactions@) + rest.2
                    &&& full.3 == rest.3
                }),
            decreases param.tx_pool_pkg.tx_receipts@.len() - j,
        {
            proof {
                assert(crate::tx_pool::receipts_view(param.tx_pool_pkg.tx_receipts@)[j as int]
                    == param.tx_pool_pkg.tx_receipts@[j as int]@);
                assert(tsv.skip(j as int)[0]
                    == param.tx_pool_pkg.tx_receipts@[j as int].tx@);
                assert(tsv.skip(j as int).drop_first() =~= tsv.skip(j as int + 1));
            }
            let tx = &param.tx_pool_pkg.tx_receipts[j].tx;
            match self.generator.execute_transaction(&state, tx) {
                Ok(rr) => {
                    let ghost pre_included = crate::types::txs_view(transactions@);
                    let ghost pre_roots = compacted_post_roots@;
                    crate::generator::apply_run_result(&mut state, &rr);
                    let post = state.merkle_state();
                    let root = compacted_account_root(&post);
                    transactions.push(tx.duplicate());
                    compacted_post_roots.push(root);
                    proof {
                        crate::types::lemma_txs_view_push(
                            transactions@.take(transactions@.len() - 1),
                            transactions@[transactions@.len() - 1],
                        );
                        assert(transactions@.take(transactions@.len() - 1)
                            =~= transactions@.drop_last());
                        assert(crate::types::txs_view(transactions@) =~= pre_included.push(tx@));
                        assert(compacted_post_roots@ =~= pre_roots.push(root));
                        lemma_apply_transactions_snoc(
                            m,
                            wd_state,
                            pre_included,
                            pre_roots,
                            tx@,
                            root,
                        );
                        assert(pre_included + (seq![tx@] + spec_filter_transactions(
                            m,
                            state@,
                            tsv.skip(j as int + 1),
                        ).0) =~= pre_included.push(tx@) + spec_filter_transactions(
                            m,
                            state@,
                            tsv.skip(j as int + 1),
                        ).0);
                        assert(pre_roots + (seq![root] + spec_filter_transactions(
                            m,
                            state@,
                            tsv.skip(j as int + 1),
                        ).1) =~= pre_roots.push(root) + spec_filter_transactions(
                            m,
                            state@,
                            tsv.skip(j as int + 1),
                        ).1);
                    }
                },
                Err(_) => {
                    let ghost pre_unused = crate::types::txs_view(unused_transactions@);
                    unused_transactions.push(tx.duplicate());
                    proof {
                        crate::types::lemma_txs_view_push(
                            unused_transactions@.take(unused_transactions@.len() - 1),
                            unused_transactions@[unused_transactions@.len() - 1],
                        );
                        assert(unused_transactions@.take(unused_transactions@.len() - 1)
                            =~= unused_transactions@.drop_last());
                        assert(crate::types::txs_view(unused_transactions@)
                            =~= pre_unused.push(tx@));
                        assert(pre_unused + (seq![tx@] + spec_filter_transactions(
                            m,
                            state@,
                            tsv.skip(j as int + 1),
                        ).2) =~= pre_unused.push(tx@) + spec_filter_transactions(
                            m,
                            state@,
                            tsv.skip(j as int + 1),
                        ).2);
                    }
                },
            }
            j = j + 1;
        }
        proof {
            assert(tsv.skip(param.tx_pool_pkg.tx_receipts@.len() as int)
                =~= Seq::<L2TransactionView>::empty());
            assert(crate::types::txs_view(transactions@) + Seq::<L2TransactionView>::empty()
                =~= crate::types::txs_view(transactions@));
            assert(compacted_post_roots@ + Seq::<H256>::empty() =~= compacted_post_roots@);
            assert(crate::types::txs_view(unused_transactions@) + Seq::<
                L2TransactionView,
            >::empty() =~= crate::types::txs_view(unused_transactions@));
        }
        let post_account = state.merkle_state();
        let block = L2Block {
            number: tip_num + 1,
            aggregator_id: param.aggregator_id,
            timestamp: self.next_block_context.timestamp,
            prev_account,
            post_account,
            transactions,
            withdrawal_requests,
            compacted_post_roots,
        };
        let block_hash = block.hash();
        let mut block_tree = match self.store.tip_block_tree() {
            Ok(t) => t,
            Err(e) => {
                return Err(ChainError::Store(e));
            },
        };
        block_tree.set(crate::store::key_block_number(block.number), block_hash);
        block_tree.set(
            crate::store::key_block_hash(&block_hash),
            crate::account::value_u64(block.number + 1),
        );
        let block_count = self.store.tip_index_u32() + 2;
        let global_state = GlobalState {
            account: post_account,
            block: MerkleState { root: block_tree.root(), count: block_count },
            status: self.status,
        };
        proof {
            assert(spec_submit_shape_ok(self@.store, block@));
            assert(spec_submit_ok(m, self@.store, block@, crate::types::depositions_view(
                param.deposition_requests@,
            )));
        }
        Ok(
            ProduceBlockResult {
                block,
                global_state,
                unused_transactions,
                unused_withdrawal_requests,
            },
        )
    }
}

} // verus!

verus! {

/// Challenge lifecycle: for any challenge whose target holds on the
/// current chain, the cancellation presenting the recorded compacted
/// commitment of the disputed transaction verifies — clearing the dispute
/// and resuming block submission — and every cancellation naming another
/// target or another commitment is classified as a bad challenge.
pub proof fn lemma_challenge_lifecycle(sv: StoreView, c: StartChallenge, answer: CancelChallenge)
    requires
        spec_challenge_valid(sv, c),
        sv.versions[c.block_number as int].block.compacted_post_roots.len()
            == sv.versions[c.block_number as int].block.transactions.len(),
    ensures
        spec_cancel_valid(
            sv,
            Some(c),
            CancelChallenge {
                block_number: c.block_number,
                tx_index: c.tx_index,
                post_account_root: sv.versions[c.block_number as int].block.compacted_post_roots[c.tx_index as int],
            },
        ),
        answer.block_number != c.block_number || answer.tx_index != c.tx_index
            || answer.post_account_root
            != sv.versions[c.block_number as int].block.compacted_post_roots[c.tx_index as int]
            ==> !spec_cancel_valid(sv, Some(c), answer),
{
}

} // verus!
