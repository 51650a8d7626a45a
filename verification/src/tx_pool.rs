//! The mem pool: provisionally valid pending work, keyed by account.
//!
//! Every entry is admitted only after a dry run through the generator
//! against the pool's evolving snapshot of the tip state. Each account
//! bucket holds pending transactions or pending withdrawal requests, never
//! both: the exclusivity is part of the pool's invariant, so a nonce race
//! within one account cannot be admitted. On tip advancement the pool is
//! rebuilt against the new tip and every entry that no longer validates is
//! dropped.

use vstd::prelude::*;

use crate::account::AccountState;
use crate::generator::{
    spec_apply_run_result, spec_execute_transaction, spec_execute_withdrawal, Generator,
    GeneratorError, RunResultView,
};
use crate::hash::H256;
use crate::state::spec_root;
use crate::types::{
    spec_compacted_root, spec_tx_witness_hash, compacted_account_root, L2Transaction,
    L2TransactionView, MerkleState, TxReceipt, TxReceiptView, WithdrawalRequest,
    WithdrawalRequestView,
};

verus! {

/// Why the pool refused an entry.
#[derive(Clone, Copy, PartialEq, Eq, Structural, Debug, Hash)]
pub enum TxPoolError {
    /// The generator's dry run refused the entry.
    Rejected(GeneratorError),
    /// The account already holds pending work of the other kind.
    KindConflict,
}

/// One account's bucket of pending work.
#[derive(Debug)]
pub struct TxPoolEntry {
    pub account_id: u32,
    pub txs: Vec<L2Transaction>,
    pub withdrawals: Vec<WithdrawalRequest>,
}

pub ghost struct TxPoolEntryView {
    pub account_id: u32,
    pub txs: Seq<L2TransactionView>,
    pub withdrawals: Seq<WithdrawalRequestView>,
}

impl View for TxPoolEntry {
    type V = TxPoolEntryView;

    open spec fn view(&self) -> TxPoolEntryView {
        TxPoolEntryView {
            account_id: self.account_id,
            txs: crate::types::txs_view(self.txs@),
            withdrawals: crate::types::withdrawals_view(self.withdrawals@),
        }
    }
}

/// The views of a bucket sequence.
pub open spec fn entries_view(s: Seq<TxPoolEntry>) -> Seq<TxPoolEntryView> {
    s.map_values(|e: TxPoolEntry| e@)
}

/// The views of a receipt sequence.
pub open spec fn receipts_view(s: Seq<TxReceipt>) -> Seq<TxReceiptView> {
    s.map_values(|r: TxReceipt| r@)
}

/// Mutual exclusivity: no bucket holds both pending transactions and
/// pending withdrawal requests.
pub open spec fn entries_exclusive(s: Seq<TxPoolEntryView>) -> bool {
    forall|i: int|
        0 <= i < s.len() ==> ((#[trigger] s[i]).txs.len() == 0 || s[i].withdrawals.len() == 0)
}

/// The first bucket of an account, if any.
pub open spec fn spec_find_entry(s: Seq<TxPoolEntryView>, id: u32) -> Option<int>
    decreases s.len(),
{
    if s.len() == 0 {
        None
    } else if s[0].account_id == id {
        Some(0int)
    } else {
        match spec_find_entry(s.drop_first(), id) {
            Some(i) => Some(i + 1),
            None => None,
        }
    }
}

pub proof fn lemma_find_entry_at(s: Seq<TxPoolEntryView>, id: u32, i: int)
    requires
        0 <= i < s.len(),
        s[i].account_id == id,
        forall|j: int| 0 <= j < i ==> (#[trigger] s[j]).account_id != id,
    ensures
        spec_find_entry(s, id) == Some(i),
    decreases i,
{
    if i > 0 {
        lemma_find_entry_at(s.drop_first(), id, i - 1);
    }
}

pub proof fn lemma_find_entry_absent(s: Seq<TxPoolEntryView>, id: u32)
    requires
        forall|j: int| 0 <= j < s.len() ==> (#[trigger] s[j]).account_id != id,
    ensures
        spec_find_entry(s, id) is None,
    decreases s.len(),
{
    if s.len() > 0 {
        lemma_find_entry_absent(s.drop_first(), id);
    }
}

pub proof fn lemma_find_entry_in_range(s: Seq<TxPoolEntryView>, id: u32)
    requires
        spec_find_entry(s, id) is Some,
    ensures
        0 <= spec_find_entry(s, id)->0 < s.len(),
        s[spec_find_entry(s, id)->0].account_id == id,
    decreases s.len(),
{
    if s.len() > 0 && s[0].account_id != id {
        lemma_find_entry_in_range(s.drop_first(), id);
    }
}

/// The buckets after admitting a transaction of `id`.
pub open spec fn spec_entries_push_tx(
    s: Seq<TxPoolEntryView>,
    id: u32,
    t: L2TransactionView,
) -> Seq<TxPoolEntryView> {
    match spec_find_entry(s, id) {
        None => s.push(TxPoolEntryView { account_id: id, txs: seq![t], withdrawals: Seq::empty() }),
        Some(i) => s.update(i, TxPoolEntryView { txs: s[i].txs.push(t), ..s[i] }),
    }
}

/// The buckets after admitting a withdrawal request of `id`.
pub open spec fn spec_entries_push_withdrawal(
    s: Seq<TxPoolEntryView>,
    id: u32,
    w: WithdrawalRequestView,
) -> Seq<TxPoolEntryView> {
    match spec_find_entry(s, id) {
        None => s.push(
            TxPoolEntryView { account_id: id, txs: Seq::empty(), withdrawals: seq![w] },
        ),
        Some(i) => s.update(i, TxPoolEntryView { withdrawals: s[i].withdrawals.push(w), ..s[i] }),
    }
}

/// The keys of a read- or write-set, in order.
pub open spec fn keys_of(s: Seq<(H256, H256)>) -> Seq<H256> {
    s.map_values(|p: (H256, H256)| p.0)
}

/// All pending withdrawal requests, bucket order.
pub open spec fn spec_pending_withdrawals(s: Seq<TxPoolEntryView>) -> Seq<WithdrawalRequestView>
    decreases s.len(),
{
    if s.len() == 0 {
        Seq::empty()
    } else {
        s[0].withdrawals + spec_pending_withdrawals(s.drop_first())
    }
}

pub proof fn lemma_pending_withdrawals_snoc(s: Seq<TxPoolEntryView>, e: TxPoolEntryView)
    ensures
        spec_pending_withdrawals(s.push(e)) == spec_pending_withdrawals(s) + e.withdrawals,
    decreases s.len(),
{
    reveal_with_fuel(spec_pending_withdrawals, 3);
    if s.len() == 0 {
        assert(s.push(e)[0] == e);
        assert(s.push(e).drop_first() =~= Seq::<TxPoolEntryView>::empty());
        assert(spec_pending_withdrawals(s.push(e)) =~= spec_pending_withdrawals(s) + e.withdrawals);
    } else {
        assert(s.push(e)[0] == s[0]);
        assert(s.push(e).drop_first() =~= s.drop_first().push(e));
        lemma_pending_withdrawals_snoc(s.drop_first(), e);
        assert(s[0].withdrawals + (spec_pending_withdrawals(s.drop_first()) + e.withdrawals) =~= (
        s[0].withdrawals + spec_pending_withdrawals(s.drop_first())) + e.withdrawals);
    }
}

/// A snapshot of the pool handed to the block producer: the receipts of
/// every admitted transaction, every key the admitted work touched, the
/// account commitments the pool started from and reached, and the pending
/// withdrawal requests.
#[derive(Debug)]
pub struct TxPoolPackage {
    pub tx_receipts: Vec<TxReceipt>,
    pub touched_keys: Vec<H256>,
    pub prev_account_state: MerkleState,
    pub post_account_state: MerkleState,
    pub withdrawal_requests: Vec<WithdrawalRequest>,
}

pub ghost struct TxPoolPackageView {
    pub tx_receipts: Seq<TxReceiptView>,
    pub touched_keys: Seq<H256>,
    pub prev_account_state: MerkleState,
    pub post_account_state: MerkleState,
    pub withdrawal_requests: Seq<WithdrawalRequestView>,
}

impl View for TxPoolPackage {
    type V = TxPoolPackageView;

    open spec fn view(&self) -> TxPoolPackageView {
        TxPoolPackageView {
            tx_receipts: receipts_view(self.tx_receipts@),
            touched_keys: self.touched_keys@,
            prev_account_state: self.prev_account_state,
            post_account_state: self.post_account_state,
            withdrawal_requests: crate::types::withdrawals_view(self.withdrawal_requests@),
        }
    }
}

pub ghost struct TxPoolView {
    pub state: crate::account::AccountStateView,
    pub prev_account: MerkleState,
    pub entries: Seq<TxPoolEntryView>,
    pub tx_receipts: Seq<TxReceiptView>,
    pub touched_keys: Seq<H256>,
}

/// The pool after offering it one transaction: admitted — state advanced,
/// bucket extended, receipt and touched keys recorded — exactly when the
/// dry run succeeds and the account's bucket holds no pending withdrawals;
/// otherwise unchanged.
pub open spec fn spec_pool_admit_tx(
    m: Seq<(H256, crate::account_lock::LockAlgorithmKind)>,
    p: TxPoolView,
    t: L2TransactionView,
) -> TxPoolView {
    let d = spec_execute_transaction(m, p.state, t);
    let found = spec_find_entry(p.entries, t.from_id);
    if d is Ok && (found is Some ==> p.entries[found->0].withdrawals.len() == 0) {
        TxPoolView {
            state: spec_apply_run_result(p.state, d->Ok_0),
            entries: spec_entries_push_tx(p.entries, t.from_id, t),
            tx_receipts: p.tx_receipts.push(
                TxReceiptView {
                    tx: t,
                    tx_witness_hash: spec_tx_witness_hash(t),
                    compacted_post_account_root: spec_compacted_root(
                        MerkleState {
                            root: spec_root(spec_apply_run_result(p.state, d->Ok_0).tree),
                            count: spec_apply_run_result(p.state, d->Ok_0).account_count,
                        },
                    ),
                },
            ),
            touched_keys: p.touched_keys + keys_of(d->Ok_0.read_values) + keys_of(
                d->Ok_0.write_values,
            ),
            prev_account: p.prev_account,
        }
    } else {
        p
    }
}

/// The pool after offering it one withdrawal request, symmetrically.
pub open spec fn spec_pool_admit_withdrawal(
    m: Seq<(H256, crate::account_lock::LockAlgorithmKind)>,
    p: TxPoolView,
    w: WithdrawalRequestView,
) -> TxPoolView {
    let d = spec_execute_withdrawal(m, p.state, w);
    let found = spec_find_entry(p.entries, w.account_id);
    if d is Ok && (found is Some ==> p.entries[found->0].txs.len() == 0) {
        TxPoolView {
            state: spec_apply_run_result(p.state, d->Ok_0),
            entries: spec_entries_push_withdrawal(p.entries, w.account_id, w),
            touched_keys: p.touched_keys + keys_of(d->Ok_0.read_values) + keys_of(
                d->Ok_0.write_values,
            ),
            ..p
        }
    } else {
        p
    }
}

pub open spec fn spec_pool_admit_txs(
    m: Seq<(H256, crate::account_lock::LockAlgorithmKind)>,
    p: TxPoolView,
    ts: Seq<L2TransactionView>,
) -> TxPoolView
    decreases ts.len(),
{
    if ts.len() == 0 {
        p
    } else {
        spec_pool_admit_txs(m, spec_pool_admit_tx(m, p, ts[0]), ts.drop_first())
    }
}

pub open spec fn spec_pool_admit_withdrawals(
    m: Seq<(H256, crate::account_lock::LockAlgorithmKind)>,
    p: TxPoolView,
    ws: Seq<WithdrawalRequestView>,
) -> TxPoolView
    decreases ws.len(),
{
    if ws.len() == 0 {
        p
    } else {
        spec_pool_admit_withdrawals(m, spec_pool_admit_withdrawal(m, p, ws[0]), ws.drop_first())
    }
}

/// A pool re-offered a sequence of buckets, bucket order, transactions
/// before withdrawal requests within each: every entry is retained exactly
/// when its dry run against the evolving state succeeds.
pub open spec fn spec_pool_readmit(
    m: Seq<(H256, crate::account_lock::LockAlgorithmKind)>,
    p: TxPoolView,
    es: Seq<TxPoolEntryView>,
) -> TxPoolView
    decreases es.len(),
{
    if es.len() == 0 {
        p
    } else {
        spec_pool_readmit(
            m,
            spec_pool_admit_withdrawals(
                m,
                spec_pool_admit_txs(m, p, es[0].txs),
                es[0].withdrawals,
            ),
            es.drop_first(),
        )
    }
}

/// The mem pool.
#[derive(Debug)]
pub struct TxPool {
    state: AccountState,
    prev_account: MerkleState,
    entries: Vec<TxPoolEntry>,
    tx_receipts: Vec<TxReceipt>,
    touched_keys: Vec<H256>,
}

impl View for TxPool {
    type V = TxPoolView;

    closed spec fn view(&self) -> TxPoolView {
        TxPoolView {
            state: self.state@,
            prev_account: self.prev_account,
            entries: entries_view(self.entries@),
            tx_receipts: receipts_view(self.tx_receipts@),
            touched_keys: self.touched_keys@,
        }
    }
}

impl TxPool {
    /// The pool invariant: a canonical snapshot, and mutual exclusivity of
    /// pending kinds within each account bucket.
    pub open spec fn wf(self) -> bool {
        &&& crate::state::entries_wf(self@.state.tree)
        &&& entries_exclusive(self@.entries)
    }

    /// An empty pool over a copy of the tip state.
    pub fn create(tip_state: AccountState) -> (r: TxPool)
        requires
            tip_state.wf(),
        ensures
            r.wf(),
            r@.state == tip_state@,
            r@.prev_account == (MerkleState {
                root: spec_root(tip_state@.tree),
                count: tip_state@.account_count,
            }),
            r@.entries == Seq::<TxPoolEntryView>::empty(),
            r@.tx_receipts == Seq::<TxReceiptView>::empty(),
            r@.touched_keys == Seq::<H256>::empty(),
    {
        let prev_account = tip_state.merkle_state();
        let r = TxPool {
            state: tip_state,
            prev_account,
            entries: Vec::new(),
            tx_receipts: Vec::new(),
            touched_keys: Vec::new(),
        };
        proof {
            assert(entries_view(r.entries@) =~= Seq::<TxPoolEntryView>::empty());
            assert(receipts_view(r.tx_receipts@) =~= Seq::<TxReceiptView>::empty());
        }
        r
    }

    /// The admitted buckets, admission order within each account.
    pub fn pending(&self) -> (r: &Vec<TxPoolEntry>)
        ensures
            entries_view(r@) == self@.entries,
    {
        &self.entries
    }

    /// Rebuild the pool against a new tip: every admitted entry is re-run
    /// through the generator against the new state, in bucket order;
    /// entries whose assumptions the new tip invalidated — a consumed
    /// nonce, a spent balance — fail the dry run and are purged, the rest
    /// stay admitted. The pool reached is exactly [`spec_pool_readmit`] of
    /// the old buckets over an empty pool at the new tip.
    #[verifier::spinoff_prover]
    #[verifier::rlimit(100)]
    pub fn update_tip(&mut self, generator: &Generator, tip_state: AccountState)
        requires
            old(self).wf(),
            tip_state.wf(),
        ensures
            final(self).wf(),
            final(self)@ == spec_pool_readmit(
                generator.manage_view(),
                TxPoolView {
                    state: tip_state@,
                    prev_account: MerkleState {
                        root: spec_root(tip_state@.tree),
                        count: tip_state@.account_count,
                    },
                    entries: Seq::empty(),
                    tx_receipts: Seq::empty(),
                    touched_keys: Seq::empty(),
                },
                old(self)@.entries,
            ),
    {
        let ghost m = generator.manage_view();
        let ghost old_e = old(self)@.entries;
        let mut old_entries: Vec<TxPoolEntry> = Vec::new();
        core::mem::swap(&mut self.entries, &mut old_entries);
        let prev_account = tip_state.merkle_state();
        self.state = tip_state;
        self.prev_account = prev_account;
        self.tx_receipts = Vec::new();
        self.touched_keys = Vec::new();
        proof {
            assert(entries_view(self.entries@) =~= Seq::<TxPoolEntryView>::empty());
            assert(receipts_view(self.tx_receipts@) =~= Seq::<TxReceiptView>::empty());
        }
        let ghost p0 = self@;
        proof {
            assert(old_e.skip(0) =~= old_e);
        }
        let mut i: usize = 0;
        while i < old_entries.len()
            invariant
                0 <= i <= old_entries@.len(),
                m == generator.manage_view(),
                entries_view(old_entries@) == old_e,
                self.wf(),
                spec_pool_readmit(m, p0, old_e) == spec_pool_readmit(
                    m,
                    self@,
                    old_e.skip(i as int),
                ),
            decreases old_entries@.len() - i,
        {
            proof {
                assert(old_e.skip(i as int)[0] == old_entries@[i as int]@);
                assert(old_e.skip(i as int).drop_first() =~= old_e.skip(i as int + 1));
            }
            let entry = &old_entries[i];
            let ghost e_v = entry@;
            proof {
                assert(e_v.txs.skip(0) =~= e_v.txs);
            }
            let mut j: usize = 0;
            while j < entry.txs.len()
                invariant
                    0 <= j <= entry.txs@.len(),
                    0 <= i < old_entries@.len(),
                    m == generator.manage_view(),
                    e_v == entry@,
                    self.wf(),
                    spec_pool_readmit(m, p0, old_e) == spec_pool_readmit(
                        m,
                        spec_pool_admit_withdrawals(
                            m,
                            spec_pool_admit_txs(m, self@, e_v.txs.skip(j as int)),
                            e_v.withdrawals,
                        ),
                        old_e.skip(i as int + 1),
                    ),
                decreases entry.txs@.len() - j,
            {
                proof {
                    assert(e_v.txs.skip(j as int)[0] == entry.txs@[j as int]@);
                    assert(e_v.txs.skip(j as int).drop_first() =~= e_v.txs.skip(j as int + 1));
                }
                let ghost pre = self@;
                let _ = self.push_transaction(generator, entry.txs[j].duplicate());
                proof {
                    assert(self@ == spec_pool_admit_tx(m, pre, entry.txs@[j as int]@));
                }
                j = j + 1;
            }
            proof {
                assert(e_v.txs.skip(entry.txs@.len() as int) =~= Seq::<L2TransactionView>::empty());
                assert(e_v.withdrawals.skip(0) =~= e_v.withdrawals);
            }
            let mut q: usize = 0;
            while q < entry.withdrawals.len()
                invariant
                    0 <= q <= entry.withdrawals@.len(),
                    0 <= i < old_entries@.len(),
                    m == generator.manage_view(),
                    e_v == entry@,
                    self.wf(),
                    spec_pool_readmit(m, p0, old_e) == spec_pool_readmit(
                        m,
                        spec_pool_admit_withdrawals(
                            m,
                            self@,
                            e_v.withdrawals.skip(q as int),
                        ),
                        old_e.skip(i as int + 1),
                    ),
                decreases entry.withdrawals@.len() - q,
            {
                proof {
                    assert(e_v.withdrawals.skip(q as int)[0] == entry.withdrawals@[q as int]@);
                    assert(e_v.withdrawals.skip(q as int).drop_first() =~= e_v.withdrawals.skip(
                        q as int + 1,
                    ));
                }
                let ghost pre = self@;
                let _ = self.push_withdrawal_request(generator, entry.withdrawals[q].duplicate());
                proof {
                    assert(self@ == spec_pool_admit_withdrawal(
                        m,
                        pre,
                        entry.withdrawals@[q as int]@,
                    ));
                }
                q = q + 1;
            }
            proof {
                assert(e_v.withdrawals.skip(entry.withdrawals@.len() as int)
                    =~= Seq::<WithdrawalRequestView>::empty());
            }
            i = i + 1;
        }
        proof {
            assert(old_e.skip(old_entries@.len() as int) =~= Seq::<TxPoolEntryView>::empty());
        }
    }

    /// A snapshot of the admitted work for block production.
    pub fn package(&self) -> (r: TxPoolPackage)
        ensures
            r@.tx_receipts == self@.tx_receipts,
            r@.touched_keys == self@.touched_keys,
            r@.prev_account_state == self@.prev_account,
            r@.post_account_state == (MerkleState {
                root: spec_root(self@.state.tree),
                count: self@.state.account_count,
            }),
            r@.withdrawal_requests == spec_pending_withdrawals(self@.entries),
    {
        let mut tx_receipts: Vec<TxReceipt> = Vec::new();
        let mut i: usize = 0;
        while i < self.tx_receipts.len()
            invariant
                0 <= i <= self.tx_receipts@.len(),
                receipts_view(tx_receipts@) == receipts_view(self.tx_receipts@.take(i as int)),
            decreases self.tx_receipts@.len() - i,
        {
            let ghost prev = tx_receipts@;
            tx_receipts.push(self.tx_receipts[i].duplicate());
            proof {
                assert(receipts_view(tx_receipts@) =~= receipts_view(prev).push(
                    self.tx_receipts@[i as int]@,
                ));
                assert(receipts_view(self.tx_receipts@.take(i as int + 1)) =~= receipts_view(
                    self.tx_receipts@.take(i as int),
                ).push(self.tx_receipts@[i as int]@));
            }
            i = i + 1;
        }
        let mut touched_keys: Vec<H256> = Vec::new();
        let mut j: usize = 0;
        while j < self.touched_keys.len()
            invariant
                0 <= j <= self.touched_keys@.len(),
                touched_keys@ == self.touched_keys@.take(j as int),
            decreases self.touched_keys@.len() - j,
        {
            touched_keys.push(self.touched_keys[j]);
            proof {
                assert(self.touched_keys@.take(j as int + 1) =~= self.touched_keys@.take(
                    j as int,
                ).push(self.touched_keys@[j as int]));
            }
            j = j + 1;
        }
        let mut withdrawal_requests: Vec<WithdrawalRequest> = Vec::new();
        let mut q: usize = 0;
        while q < self.entries.len()
            invariant
                0 <= q <= self.entries@.len(),
                crate::types::withdrawals_view(withdrawal_requests@) == spec_pending_withdrawals(
                    entries_view(self.entries@.take(q as int)),
                ),
            decreases self.entries@.len() - q,
        {
            let entry = &self.entries[q];
            let mut w: usize = 0;
            while w < entry.withdrawals.len()
                invariant
                    0 <= w <= entry.withdrawals@.len(),
                    crate::types::withdrawals_view(withdrawal_requests@)
                        == spec_pending_withdrawals(entries_view(self.entries@.take(q as int)))
                        + crate::types::withdrawals_view(entry.withdrawals@.take(w as int)),
                decreases entry.withdrawals@.len() - w,
            {
                let ghost prevw = withdrawal_requests@;
                withdrawal_requests.push(entry.withdrawals[w].duplicate());
                proof {
                    crate::types::lemma_withdrawals_view_push(
                        prevw,
                        withdrawal_requests@[withdrawal_requests@.len() - 1],
                    );
                    assert(entry.withdrawals@.take(w as int + 1) =~= entry.withdrawals@.take(
                        w as int,
                    ).push(entry.withdrawals@[w as int]));
                    crate::types::lemma_withdrawals_view_push(
                        entry.withdrawals@.take(w as int),
                        entry.withdrawals@[w as int],
                    );
                    assert(crate::types::withdrawals_view(withdrawal_requests@)
                        =~= spec_pending_withdrawals(entries_view(self.entries@.take(q as int)))
                        + crate::types::withdrawals_view(entry.withdrawals@.take(w as int + 1)));
                }
                w = w + 1;
            }
            proof {
                assert(entry.withdrawals@.take(entry.withdrawals@.len() as int)
                    =~= entry.withdrawals@);
                assert(entries_view(self.entries@.take(q as int + 1)) =~= entries_view(
                    self.entries@.take(q as int),
                ).push(self.entries@[q as int]@));
                lemma_pending_withdrawals_snoc(
                    entries_view(self.entries@.take(q as int)),
                    self.entries@[q as int]@,
                );
            }
            q = q + 1;
        }
        proof {
            assert(self.tx_receipts@.take(self.tx_receipts@.len() as int) =~= self.tx_receipts@);
            assert(self.touched_keys@.take(self.touched_keys@.len() as int)
                =~= self.touched_keys@);
            assert(self.entries@.take(self.entries@.len() as int) =~= self.entries@);
        }
        TxPoolPackage {
            tx_receipts,
            touched_keys,
            prev_account_state: self.prev_account,
            post_account_state: self.state.merkle_state(),
            withdrawal_requests,
        }
    }

    /// Record the touched keys of a diff.
    fn record_touched(&mut self, rr: &crate::generator::RunResult)
        ensures
            final(self)@ == (TxPoolView {
                touched_keys: old(self)@.touched_keys + keys_of(rr@.read_values) + keys_of(
                    rr@.write_values,
                ),
                ..old(self)@
            }),
    {
        let mut i: usize = 0;
        while i < rr.read_values.len()
            invariant
                0 <= i <= rr.read_values@.len(),
                self@ == (TxPoolView {
                    touched_keys: old(self)@.touched_keys + keys_of(
                        rr@.read_values.take(i as int),
                    ),
                    ..old(self)@
                }),
            decreases rr.read_values@.len() - i,
        {
            self.touched_keys.push(rr.read_values[i].0);
            proof {
                assert(old(self)@.touched_keys + keys_of(rr@.read_values.take(i as int + 1))
                    =~= (old(self)@.touched_keys + keys_of(rr@.read_values.take(i as int))).push(
                    rr@.read_values[i as int].0,
                ));
            }
            i = i + 1;
        }
        proof {
            assert(rr@.read_values.take(rr@.read_values.len() as int) =~= rr@.read_values);
        }
        let ghost mid = self@.touched_keys;
        let mut j: usize = 0;
        while j < rr.write_values.len()
            invariant
                0 <= j <= rr.write_values@.len(),
                self@ == (TxPoolView {
                    touched_keys: mid + keys_of(rr@.write_values.take(j as int)),
                    ..old(self)@
                }),
            decreases rr.write_values@.len() - j,
        {
            self.touched_keys.push(rr.write_values[j].0);
            proof {
                assert(mid + keys_of(rr@.write_values.take(j as int + 1)) =~= (mid + keys_of(
                    rr@.write_values.take(j as int),
                )).push(rr@.write_values[j as int].0));
            }
            j = j + 1;
        }
        proof {
            assert(rr@.write_values.take(rr@.write_values.len() as int) =~= rr@.write_values);
            assert(final(self)@.touched_keys =~= old(self)@.touched_keys + keys_of(
                rr@.read_values,
            ) + keys_of(rr@.write_values));
        }
    }

    /// The index of the bucket of `id`, if one exists.
    fn find_entry(&self, id: u32) -> (r: Option<usize>)
        ensures
            r is Some ==> spec_find_entry(self@.entries, id) == Some(r->0 as int),
            r is None ==> spec_find_entry(self@.entries, id) is None,
    {
        let n = self.entries.len();
        let mut i: usize = 0;
        while i < n
            invariant
                0 <= i <= n,
                n == self.entries@.len(),
                forall|j: int|
                    0 <= j < i ==> (#[trigger] entries_view(self.entries@)[j]).account_id != id,
            decreases n - i,
        {
            if self.entries[i].account_id == id {
                proof {
                    lemma_find_entry_at(entries_view(self.entries@), id, i as int);
                }
                return Some(i);
            }
            proof {
                assert(entries_view(self.entries@)[i as int].account_id
                    == self.entries@[i as int].account_id);
            }
            i = i + 1;
        }
        proof {
            lemma_find_entry_absent(entries_view(self.entries@), id);
        }
        None
    }

    /// Admit one transaction: dry-run it through the generator against the
    /// pool snapshot, and only a passing transaction joins its account's
    /// bucket — which must not hold pending withdrawals.
    pub fn push_transaction(&mut self, generator: &Generator, tx: L2Transaction) -> (r: Result<
        (),
        TxPoolError,
    >)
        requires
            old(self).wf(),
        ensures
            final(self).wf(),
            ({
                let d = spec_execute_transaction(generator.manage_view(), old(self)@.state, tx@);
                let found = spec_find_entry(old(self)@.entries, tx.from_id);
                &&& (r is Ok) == (d is Ok && (found is Some ==> old(self)@.entries[found->0].withdrawals.len() == 0))
                &&& r is Err ==> final(self)@ == old(self)@
                &&& r is Ok ==> final(self)@ == (TxPoolView {
                    state: spec_apply_run_result(old(self)@.state, d->Ok_0),
                    entries: spec_entries_push_tx(old(self)@.entries, tx.from_id, tx@),
                    tx_receipts: old(self)@.tx_receipts.push(
                        TxReceiptView {
                            tx: tx@,
                            tx_witness_hash: spec_tx_witness_hash(tx@),
                            compacted_post_account_root: spec_compacted_root(
                                MerkleState {
                                    root: spec_root(
                                        spec_apply_run_result(old(self)@.state, d->Ok_0).tree,
                                    ),
                                    count: spec_apply_run_result(
                                        old(self)@.state,
                                        d->Ok_0,
                                    ).account_count,
                                },
                            ),
                        },
                    ),
                    touched_keys: old(self)@.touched_keys + keys_of(d->Ok_0.read_values) + keys_of(
                        d->Ok_0.write_values,
                    ),
                    ..old(self)@
                })
            }),
    {
        let ghost txv = tx@;
        let from_id = tx.from_id;
        let found = self.find_entry(from_id);
        if let Some(i) = found {
            proof {
                lemma_find_entry_in_range(self@.entries, tx.from_id);
            }
            if self.entries[i].withdrawals.len() > 0 {
                return Err(TxPoolError::KindConflict);
            }
        }
        let rr = match generator.execute_transaction(&self.state, &tx) {
            Ok(rr) => rr,
            Err(e) => {
                return Err(TxPoolError::Rejected(e));
            },
        };
        crate::generator::apply_run_result(&mut self.state, &rr);
        self.record_touched(&rr);
        let post = self.state.merkle_state();
        let witness_hash = tx.witness_hash();
        let receipt = TxReceipt {
            tx: tx.duplicate(),
            tx_witness_hash: witness_hash,
            compacted_post_account_root: compacted_account_root(&post),
        };
        let ghost old_receipts = self.tx_receipts@;
        self.tx_receipts.push(receipt);
        proof {
            assert(receipts_view(self.tx_receipts@) =~= receipts_view(old_receipts).push(
                self.tx_receipts@[self.tx_receipts@.len() - 1]@,
            ));
        }
        let ghost old_entries = entries_view(self.entries@);
        match found {
            Some(i) => {
                let ghost pre_raw = self.entries@;
                let mut entry = self.entries.remove(i);
                let ghost pre_txs = entry.txs@;
                entry.txs.push(tx);
                proof {
                    crate::types::lemma_txs_view_push(
                        pre_txs,
                        entry.txs@[entry.txs@.len() - 1],
                    );
                    assert(entry@.txs == old_entries[i as int].txs.push(txv));
                    assert(entry@.withdrawals == old_entries[i as int].withdrawals);
                }
                self.entries.insert(i, entry);
                proof {
                    assert(self.entries@ =~= pre_raw.update(i as int, self.entries@[i as int]));
                    assert(entries_view(self.entries@) =~= spec_entries_push_tx(
                        old_entries,
                        from_id,
                        txv,
                    ));
                }
            },
            None => {
                let mut txs: Vec<L2Transaction> = Vec::new();
                txs.push(tx);
                let entry = TxPoolEntry { account_id: from_id, txs, withdrawals: Vec::new() };
                proof {
                    assert(entry@.txs =~= seq![txv]);
                    assert(entry@.withdrawals =~= Seq::<WithdrawalRequestView>::empty());
                }
                self.entries.push(entry);
                proof {
                    assert(entries_view(self.entries@) =~= spec_entries_push_tx(
                        old_entries,
                        from_id,
                        txv,
                    ));
                }
            },
        }
        Ok(())
    }

    /// Admit one withdrawal request, symmetrically: its account's bucket
    /// must not hold pending transactions.
    pub fn push_withdrawal_request(
        &mut self,
        generator: &Generator,
        req: WithdrawalRequest,
    ) -> (r: Result<(), TxPoolError>)
        requires
            old(self).wf(),
        ensures
            final(self).wf(),
            ({
                let d = spec_execute_withdrawal(generator.manage_view(), old(self)@.state, req@);
                let found = spec_find_entry(old(self)@.entries, req.account_id);
                &&& (r is Ok) == (d is Ok && (found is Some ==> old(self)@.entries[found->0].txs.len() == 0))
                &&& r is Err ==> final(self)@ == old(self)@
                &&& r is Ok ==> final(self)@ == (TxPoolView {
                    state: spec_apply_run_result(old(self)@.state, d->Ok_0),
                    entries: spec_entries_push_withdrawal(
                        old(self)@.entries,
                        req.account_id,
                        req@,
                    ),
                    touched_keys: old(self)@.touched_keys + keys_of(d->Ok_0.read_values) + keys_of(
                        d->Ok_0.write_values,
                    ),
                    ..old(self)@
                })
            }),
    {
        let ghost reqv = req@;
        let account_id = req.account_id;
        let found = self.find_entry(account_id);
        if let Some(i) = found {
            proof {
                lemma_find_entry_in_range(self@.entries, req.account_id);
            }
            if self.entries[i].txs.len() > 0 {
                return Err(TxPoolError::KindConflict);
            }
        }
        let rr = match generator.execute_withdrawal(&self.state, &req) {
            Ok(rr) => rr,
            Err(e) => {
                return Err(TxPoolError::Rejected(e));
            },
        };
        crate::generator::apply_run_result(&mut self.state, &rr);
        self.record_touched(&rr);
        let ghost old_entries = entries_view(self.entries@);
        match found {
            Some(i) => {
                let ghost pre_raw = self.entries@;
                let mut entry = self.entries.remove(i);
                let ghost pre_wds = entry.withdrawals@;
                entry.withdrawals.push(req);
                proof {
                    crate::types::lemma_withdrawals_view_push(
                        pre_wds,
                        entry.withdrawals@[entry.withdrawals@.len() - 1],
                    );
                    assert(entry@.withdrawals == old_entries[i as int].withdrawals.push(reqv));
                    assert(entry@.txs == old_entries[i as int].txs);
                }
                self.entries.insert(i, entry);
                proof {
                    assert(self.entries@ =~= pre_raw.update(i as int, self.entries@[i as int]));
                    assert(entries_view(self.entries@) =~= spec_entries_push_withdrawal(
                        old_entries,
                        account_id,
                        reqv,
                    ));
                }
            },
            None => {
                let mut withdrawals: Vec<WithdrawalRequest> = Vec::new();
                withdrawals.push(req);
                let entry = TxPoolEntry { account_id, txs: Vec::new(), withdrawals };
                proof {
                    assert(entry@.withdrawals =~= seq![reqv]);
                    assert(entry@.txs =~= Seq::<L2TransactionView>::empty());
                }
                self.entries.push(entry);
                proof {
                    assert(entries_view(self.entries@) =~= spec_entries_push_withdrawal(
                        old_entries,
                        account_id,
                        reqv,
                    ));
                }
            },
        }
        Ok(())
    }
}

} // verus!
