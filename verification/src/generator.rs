//! The generator: deterministic execution of one transaction or withdrawal
//! against an immutable account-state snapshot.
//!
//! Execution never mutates the snapshot; it returns a [`RunResult`], a pure
//! diff carrying the read-set, the write-set and the created objects. The
//! diff is all-or-nothing: on any rule violation a typed error comes back
//! and nothing is written. Applying the write-set to the pre-state is the
//! only way any state changes.

use vstd::prelude::*;

use crate::account::{
    assoc_find, data_view, key_balance, key_nonce, key_script_hash, scripts_view,
    spec_balance_of, spec_create_account, spec_id_by_script_hash, spec_key_balance,
    spec_key_nonce, spec_key_script_hash, spec_key_script_to_id, spec_nonce_of,
    spec_script_hash_of, spec_value_u64, value_u64, AccountState, AccountStateView,
};
use crate::account_lock::{spec_verify, AccountLockManage, LockAlgorithmKind};
use crate::hash::H256;
use crate::state::{entries_wf, seq_get, seq_set, spec_root, TreeEntry};
use crate::types::{
    spec_script_hash, spec_tx_hash, spec_withdrawal_hash, DepositionRequest, L2Transaction,
    L2TransactionView, Script, ScriptView, WithdrawalRequest, WithdrawalRequestView,
};

verus! {

/// Why the generator refused an entry. Recoverable at the pool boundary:
/// the entry is rejected or purged, never the whole block.
#[derive(Clone, Copy, PartialEq, Eq, Structural, Debug, Hash)]
pub enum GeneratorError {
    /// The signature does not verify under the account's lock.
    AuthenticationFailed,
    /// The transaction's nonce is not the account's current nonce.
    InvalidNonce,
    /// The sender's balance does not cover the transfer.
    InsufficientBalance,
    /// No capability is registered for the account's lock code-hash.
    UnknownLockScript,
    /// The backend reported a non-zero exit status for the invocation.
    InvalidExitCode,
    /// A malformed reference: a missing account, or an amount that cannot
    /// be represented.
    Unknown,
}

/// The output of executing one entry: a pure diff over the pre-state.
#[derive(Debug, Default)]
pub struct RunResult {
    /// Every key read, with the value read; recorded for conflict detection.
    pub read_values: Vec<(H256, H256)>,
    /// Every key written, in write order, with its new value.
    pub write_values: Vec<(H256, H256)>,
    pub return_data: Vec<u8>,
    /// The new account count, when the entry created accounts.
    pub account_count: Option<u32>,
    pub new_scripts: Vec<(H256, Script)>,
    pub new_data: Vec<(H256, Vec<u8>)>,
}

pub ghost struct RunResultView {
    pub read_values: Seq<(H256, H256)>,
    pub write_values: Seq<(H256, H256)>,
    pub return_data: Seq<u8>,
    pub account_count: Option<u32>,
    pub new_scripts: Seq<(H256, ScriptView)>,
    pub new_data: Seq<(H256, Seq<u8>)>,
}

impl View for RunResult {
    type V = RunResultView;

    open spec fn view(&self) -> RunResultView {
        RunResultView {
            read_values: self.read_values@,
            write_values: self.write_values@,
            return_data: self.return_data@,
            account_count: self.account_count,
            new_scripts: scripts_view(self.new_scripts@),
            new_data: data_view(self.new_data@),
        }
    }
}

/// A write-set applied to a tree, first write first.
pub open spec fn apply_writes(t: Seq<TreeEntry>, ws: Seq<(H256, H256)>) -> Seq<TreeEntry>
    decreases ws.len(),
{
    if ws.len() == 0 {
        t
    } else {
        apply_writes(seq_set(t, ws[0].0, ws[0].1), ws.drop_first())
    }
}

pub proof fn lemma_apply_writes_snoc(t: Seq<TreeEntry>, ws: Seq<(H256, H256)>, w: (H256, H256))
    ensures
        apply_writes(t, ws.push(w)) == seq_set(apply_writes(t, ws), w.0, w.1),
    decreases ws.len(),
{
    reveal_with_fuel(apply_writes, 3);
    if ws.len() == 0 {
        assert(ws.push(w)[0] == w);
        assert(ws.push(w).drop_first() =~= Seq::<(H256, H256)>::empty());
    } else {
        assert(ws.push(w)[0] == ws[0]);
        assert(ws.push(w).drop_first() =~= ws.drop_first().push(w));
        lemma_apply_writes_snoc(seq_set(t, ws[0].0, ws[0].1), ws.drop_first(), w);
    }
}

pub proof fn lemma_apply_writes_wf(t: Seq<TreeEntry>, ws: Seq<(H256, H256)>)
    requires
        entries_wf(t),
    ensures
        entries_wf(apply_writes(t, ws)),
    decreases ws.len(),
{
    if ws.len() > 0 {
        crate::state::lemma_seq_set_wf(t, ws[0].0, ws[0].1);
        lemma_apply_writes_wf(seq_set(t, ws[0].0, ws[0].1), ws.drop_first());
    }
}

/// The state view after a diff is applied: writes folded into the tree, the
/// created objects appended, the account count replaced when the diff set it.
pub open spec fn spec_apply_run_result(v: AccountStateView, r: RunResultView) -> AccountStateView {
    AccountStateView {
        tree: apply_writes(v.tree, r.write_values),
        account_count: match r.account_count {
            Some(c) => c,
            None => v.account_count,
        },
        scripts: v.scripts + r.new_scripts,
        data: v.data + r.new_data,
    }
}

/// Apply a diff to a state, write by write, then the created objects.
pub fn apply_run_result(state: &mut AccountState, r: &RunResult)
    requires
        old(state).wf(),
    ensures
        final(state).wf(),
        final(state)@ == spec_apply_run_result(old(state)@, r@),
{
    let n = r.write_values.len();
    let mut i: usize = 0;
    while i < n
        invariant
            0 <= i <= n,
            n == r.write_values@.len(),
            state.wf(),
            state@ == (AccountStateView {
                tree: apply_writes(old(state)@.tree, r.write_values@.take(i as int)),
                ..old(state)@
            }),
        decreases n - i,
    {
        let (k, v) = r.write_values[i];
        state.update_raw(k, v);
        proof {
            assert(r.write_values@.take(i as int + 1) =~= r.write_values@.take(i as int).push(
                r.write_values@[i as int],
            ));
            lemma_apply_writes_snoc(
                old(state)@.tree,
                r.write_values@.take(i as int),
                r.write_values@[i as int],
            );
        }
        i = i + 1;
    }
    proof {
        assert(r.write_values@.take(n as int) =~= r.write_values@);
    }
    let m = r.new_scripts.len();
    let mut j: usize = 0;
    while j < m
        invariant
            0 <= j <= m,
            m == r.new_scripts@.len(),
            state.wf(),
            state@ == (AccountStateView {
                tree: apply_writes(old(state)@.tree, r.write_values@),
                scripts: old(state)@.scripts + scripts_view(r.new_scripts@.take(j as int)),
                ..old(state)@
            }),
        decreases m - j,
    {
        state.insert_script_entry(r.new_scripts[j].0, r.new_scripts[j].1.duplicate());
        proof {
            crate::account::lemma_scripts_view_take(r.new_scripts@, j as int);
            crate::account::lemma_scripts_view_take(r.new_scripts@, j as int + 1);
            assert((old(state)@.scripts + scripts_view(r.new_scripts@).take(j as int)).push(
                scripts_view(r.new_scripts@)[j as int],
            ) =~= old(state)@.scripts + scripts_view(r.new_scripts@).take(j as int + 1));
        }
        j = j + 1;
    }
    proof {
        assert(r.new_scripts@.take(m as int) =~= r.new_scripts@);
    }
    let d = r.new_data.len();
    let mut q: usize = 0;
    while q < d
        invariant
            0 <= q <= d,
            d == r.new_data@.len(),
            state.wf(),
            state@ == (AccountStateView {
                tree: apply_writes(old(state)@.tree, r.write_values@),
                scripts: old(state)@.scripts + scripts_view(r.new_scripts@),
                data: old(state)@.data + data_view(r.new_data@.take(q as int)),
                ..old(state)@
            }),
        decreases d - q,
    {
        state.insert_data_entry(r.new_data[q].0, crate::types::copy_bytes(&r.new_data[q].1));
        proof {
            crate::account::lemma_data_view_take(r.new_data@, q as int);
            crate::account::lemma_data_view_take(r.new_data@, q as int + 1);
            assert((old(state)@.data + data_view(r.new_data@).take(q as int)).push(
                data_view(r.new_data@)[q as int],
            ) =~= old(state)@.data + data_view(r.new_data@).take(q as int + 1));
        }
        q = q + 1;
    }
    proof {
        assert(r.new_data@.take(d as int) =~= r.new_data@);
    }
    match r.account_count {
        Some(c) => {
            state.set_account_count(c);
        },
        None => {},
    }
}

/// The write-set of a successful transfer: the sender's nonce advances, the
/// sender is debited, the receiver credited (a self-transfer debits first).
pub open spec fn spec_tx_writes(v: AccountStateView, t: L2TransactionView) -> Seq<(H256, H256)> {
    let new_from = (spec_balance_of(v, t.from_id) - t.amount) as u64;
    let bal_to = if t.to_id == t.from_id {
        new_from
    } else {
        spec_balance_of(v, t.to_id)
    };
    seq![
        (spec_key_nonce(t.from_id), spec_value_u64((t.nonce + 1) as u64)),
        (spec_key_balance(t.from_id), spec_value_u64(new_from)),
        (spec_key_balance(t.to_id), spec_value_u64((bal_to + t.amount) as u64)),
    ]
}

/// The read-set of a transfer: every slot consulted, with the value read.
pub open spec fn spec_tx_reads(v: AccountStateView, t: L2TransactionView) -> Seq<(H256, H256)> {
    seq![
        (spec_key_script_hash(t.from_id), seq_get(v.tree, spec_key_script_hash(t.from_id))),
        (spec_key_script_hash(t.to_id), seq_get(v.tree, spec_key_script_hash(t.to_id))),
        (spec_key_nonce(t.from_id), seq_get(v.tree, spec_key_nonce(t.from_id))),
        (spec_key_balance(t.from_id), seq_get(v.tree, spec_key_balance(t.from_id))),
        (spec_key_balance(t.to_id), seq_get(v.tree, spec_key_balance(t.to_id))),
    ]
}

pub open spec fn spec_tx_run_result(v: AccountStateView, t: L2TransactionView) -> RunResultView {
    RunResultView {
        read_values: spec_tx_reads(v, t),
        write_values: spec_tx_writes(v, t),
        return_data: Seq::empty(),
        account_count: None,
        new_scripts: Seq::empty(),
        new_data: Seq::empty(),
    }
}

/// The generator's decision on a transaction, in check order: both accounts
/// must exist; the sender's stored lock script must be found; the registered
/// capability must accept the signature over the transaction's signing
/// message; the nonce must match; the payload's exit status must be zero;
/// the balance must cover the transfer; and the credited balance must be
/// representable. Exactly the passing transactions return a diff.
pub open spec fn spec_execute_transaction(
    m: Seq<(H256, LockAlgorithmKind)>,
    v: AccountStateView,
    t: L2TransactionView,
) -> Result<RunResultView, GeneratorError> {
    let sender_hash = spec_script_hash_of(v, t.from_id);
    let receiver_hash = spec_script_hash_of(v, t.to_id);
    if sender_hash == H256::spec_zero() || receiver_hash == H256::spec_zero() {
        Err(GeneratorError::Unknown)
    } else {
        match assoc_find(v.scripts, sender_hash) {
            None => Err(GeneratorError::Unknown),
            Some(script) => match spec_verify(
                m,
                script.code_hash,
                script.args,
                t.signature,
                spec_tx_hash(t),
            ) {
                Err(_) => Err(GeneratorError::UnknownLockScript),
                Ok(false) => Err(GeneratorError::AuthenticationFailed),
                Ok(true) => {
                    if spec_nonce_of(v, t.from_id) != t.nonce as u64 {
                        Err(GeneratorError::InvalidNonce)
                    } else if t.args.len() > 0 && t.args[0] != 0 {
                        Err(GeneratorError::InvalidExitCode)
                    } else if spec_balance_of(v, t.from_id) < t.amount {
                        Err(GeneratorError::InsufficientBalance)
                    } else {
                        let new_from = (spec_balance_of(v, t.from_id) - t.amount) as u64;
                        let bal_to = if t.to_id == t.from_id {
                            new_from
                        } else {
                            spec_balance_of(v, t.to_id)
                        };
                        if bal_to + t.amount > u64::MAX {
                            Err(GeneratorError::Unknown)
                        } else {
                            Ok(spec_tx_run_result(v, t))
                        }
                    }
                },
            },
        }
    }
}

/// The write-set of a successful withdrawal: the nonce advances and the
/// settled amount leaves the balance.
pub open spec fn spec_withdrawal_writes(v: AccountStateView, w: WithdrawalRequestView) -> Seq<
    (H256, H256),
> {
    seq![
        (spec_key_nonce(w.account_id), spec_value_u64((w.nonce + 1) as u64)),
        (
            spec_key_balance(w.account_id),
            spec_value_u64((spec_balance_of(v, w.account_id) - w.amount) as u64),
        ),
    ]
}

pub open spec fn spec_withdrawal_reads(v: AccountStateView, w: WithdrawalRequestView) -> Seq<
    (H256, H256),
> {
    seq![
        (spec_key_script_hash(w.account_id), seq_get(v.tree, spec_key_script_hash(w.account_id))),
        (spec_key_nonce(w.account_id), seq_get(v.tree, spec_key_nonce(w.account_id))),
        (spec_key_balance(w.account_id), seq_get(v.tree, spec_key_balance(w.account_id))),
    ]
}

pub open spec fn spec_withdrawal_run_result(
    v: AccountStateView,
    w: WithdrawalRequestView,
) -> RunResultView {
    RunResultView {
        read_values: spec_withdrawal_reads(v, w),
        write_values: spec_withdrawal_writes(v, w),
        return_data: Seq::empty(),
        account_count: None,
        new_scripts: Seq::empty(),
        new_data: Seq::empty(),
    }
}

/// The generator's decision on a withdrawal, in check order: the account
/// must exist with a stored lock script; the capability must accept the
/// signature over the withdrawal's signing message; the nonce must match;
/// and the balance must cover the settled amount.
pub open spec fn spec_execute_withdrawal(
    m: Seq<(H256, LockAlgorithmKind)>,
    v: AccountStateView,
    w: WithdrawalRequestView,
) -> Result<RunResultView, GeneratorError> {
    let account_hash = spec_script_hash_of(v, w.account_id);
    if account_hash == H256::spec_zero() {
        Err(GeneratorError::Unknown)
    } else {
        match assoc_find(v.scripts, account_hash) {
            None => Err(GeneratorError::Unknown),
            Some(script) => match spec_verify(
                m,
                script.code_hash,
                script.args,
                w.signature,
                spec_withdrawal_hash(w),
            ) {
                Err(_) => Err(GeneratorError::UnknownLockScript),
                Ok(false) => Err(GeneratorError::AuthenticationFailed),
                Ok(true) => {
                    if spec_nonce_of(v, w.account_id) != w.nonce as u64 {
                        Err(GeneratorError::InvalidNonce)
                    } else if spec_balance_of(v, w.account_id) < w.amount {
                        Err(GeneratorError::InsufficientBalance)
                    } else {
                        Ok(spec_withdrawal_run_result(v, w))
                    }
                },
            },
        }
    }
}

/// The state view after one deposition: the target account, created when
/// missing, is credited with the deposited amount.
pub open spec fn spec_apply_deposition(
    v: AccountStateView,
    script: ScriptView,
    amount: u64,
) -> Result<AccountStateView, GeneratorError> {
    let h = spec_script_hash(script);
    match spec_id_by_script_hash(v, h) {
        Some(id) => {
            let bal = spec_balance_of(v, id);
            if bal + amount > u64::MAX {
                Err(GeneratorError::Unknown)
            } else {
                Ok(
                    AccountStateView {
                        tree: seq_set(
                            v.tree,
                            spec_key_balance(id),
                            spec_value_u64((bal + amount) as u64),
                        ),
                        ..v
                    },
                )
            }
        },
        None => {
            if v.account_count == u32::MAX {
                Err(GeneratorError::Unknown)
            } else {
                let id = v.account_count;
                let bal = spec_balance_of(v, id);
                if bal + amount > u64::MAX {
                    Err(GeneratorError::Unknown)
                } else {
                    let v1 = spec_create_account(v, script, h);
                    Ok(
                        AccountStateView {
                            tree: seq_set(
                                v1.tree,
                                spec_key_balance(id),
                                spec_value_u64((bal + amount) as u64),
                            ),
                            ..v1
                        },
                    )
                }
            }
        },
    }
}

/// The executor: the lock registry it authorizes against, and the rollup
/// script hash identifying the deployment.
#[derive(Debug)]
pub struct Generator {
    account_lock_manage: AccountLockManage,
    rollup_script_hash: H256,
}

impl Generator {
    pub closed spec fn manage_view(self) -> Seq<(H256, LockAlgorithmKind)> {
        self.account_lock_manage@
    }

    pub closed spec fn spec_rollup_script_hash(self) -> H256 {
        self.rollup_script_hash
    }

    pub fn new(account_lock_manage: AccountLockManage, rollup_script_hash: H256) -> (r: Generator)
        ensures
            r.manage_view() == account_lock_manage@,
            r.spec_rollup_script_hash() == rollup_script_hash,
    {
        Generator { account_lock_manage, rollup_script_hash }
    }

    pub fn rollup_script_hash(&self) -> (r: H256)
        ensures
            r == self.spec_rollup_script_hash(),
    {
        self.rollup_script_hash
    }

    /// Execute one transaction against `state` without mutating it.
    pub fn execute_transaction(&self, state: &AccountState, tx: &L2Transaction) -> (r: Result<
        RunResult,
        GeneratorError,
    >)
        ensures
            (r is Ok) == (spec_execute_transaction(self.manage_view(), state@, tx@) is Ok),
            r is Ok ==> r.unwrap()@ == spec_execute_transaction(
                self.manage_view(),
                state@,
                tx@,
            )->Ok_0,
            r is Err ==> r.unwrap_err() == spec_execute_transaction(
                self.manage_view(),
                state@,
                tx@,
            )->Err_0,
    {
        let sender_hash = state.get_script_hash(tx.from_id);
        let receiver_hash = state.get_script_hash(tx.to_id);
        if sender_hash.is_zero() || receiver_hash.is_zero() {
            return Err(GeneratorError::Unknown);
        }
        let script = match state.get_script(&sender_hash) {
            Some(s) => s,
            None => {
                return Err(GeneratorError::Unknown);
            },
        };
        let message = tx.hash();
        match self.account_lock_manage.verify_signature(
            &script.code_hash,
            &script.args,
            &tx.signature,
            message,
        ) {
            Err(_) => {
                return Err(GeneratorError::UnknownLockScript);
            },
            Ok(false) => {
                return Err(GeneratorError::AuthenticationFailed);
            },
            Ok(true) => {},
        }
        let nonce = state.get_nonce(tx.from_id);
        if nonce != tx.nonce as u64 {
            return Err(GeneratorError::InvalidNonce);
        }
        if tx.args.len() > 0 && tx.args[0] != 0 {
            return Err(GeneratorError::InvalidExitCode);
        }
        let bal_from = state.get_balance(tx.from_id);
        if bal_from < tx.amount {
            return Err(GeneratorError::InsufficientBalance);
        }
        let new_from = bal_from - tx.amount;
        let bal_to = if tx.to_id == tx.from_id {
            new_from
        } else {
            state.get_balance(tx.to_id)
        };
        if tx.amount > u64::MAX - bal_to {
            return Err(GeneratorError::Unknown);
        }
        let new_to = bal_to + tx.amount;
        let mut read_values: Vec<(H256, H256)> = Vec::new();
        read_values.push((key_script_hash(tx.from_id), sender_hash));
        read_values.push((key_script_hash(tx.to_id), receiver_hash));
        read_values.push((key_nonce(tx.from_id), state.get_raw(&key_nonce(tx.from_id))));
        read_values.push((key_balance(tx.from_id), state.get_raw(&key_balance(tx.from_id))));
        read_values.push((key_balance(tx.to_id), state.get_raw(&key_balance(tx.to_id))));
        let mut write_values: Vec<(H256, H256)> = Vec::new();
        write_values.push((key_nonce(tx.from_id), value_u64(tx.nonce as u64 + 1)));
        write_values.push((key_balance(tx.from_id), value_u64(new_from)));
        write_values.push((key_balance(tx.to_id), value_u64(new_to)));
        let result = RunResult {
            read_values,
            write_values,
            return_data: Vec::new(),
            account_count: None,
            new_scripts: Vec::new(),
            new_data: Vec::new(),
        };
        proof {
            assert(result@.read_values =~= spec_tx_reads(state@, tx@));
            assert(result@.write_values =~= spec_tx_writes(state@, tx@));
            assert(result@.new_scripts =~= Seq::<(H256, ScriptView)>::empty());
            assert(result@.new_data =~= Seq::<(H256, Seq<u8>)>::empty());
        }
        Ok(result)
    }

    /// Execute one withdrawal request against `state` without mutating it.
    pub fn execute_withdrawal(&self, state: &AccountState, req: &WithdrawalRequest) -> (r: Result<
        RunResult,
        GeneratorError,
    >)
        ensures
            (r is Ok) == (spec_execute_withdrawal(self.manage_view(), state@, req@) is Ok),
            r is Ok ==> r.unwrap()@ == spec_execute_withdrawal(
                self.manage_view(),
                state@,
                req@,
            )->Ok_0,
            r is Err ==> r.unwrap_err() == spec_execute_withdrawal(
                self.manage_view(),
                state@,
                req@,
            )->Err_0,
    {
        let account_hash = state.get_script_hash(req.account_id);
        if account_hash.is_zero() {
            return Err(GeneratorError::Unknown);
        }
        let script = match state.get_script(&account_hash) {
            Some(s) => s,
            None => {
                return Err(GeneratorError::Unknown);
            },
        };
        let message = req.hash();
        match self.account_lock_manage.verify_signature(
            &script.code_hash,
            &script.args,
            &req.signature,
            message,
        ) {
            Err(_) => {
                return Err(GeneratorError::UnknownLockScript);
            },
            Ok(false) => {
                return Err(GeneratorError::AuthenticationFailed);
            },
            Ok(true) => {},
        }
        let nonce = state.get_nonce(req.account_id);
        if nonce != req.nonce as u64 {
            return Err(GeneratorError::InvalidNonce);
        }
        let bal = state.get_balance(req.account_id);
        if bal < req.amount {
            return Err(GeneratorError::InsufficientBalance);
        }
        let mut read_values: Vec<(H256, H256)> = Vec::new();
        read_values.push((key_script_hash(req.account_id), account_hash));
        read_values.push((key_nonce(req.account_id), state.get_raw(&key_nonce(req.account_id))));
        read_values.push((
            key_balance(req.account_id),
            state.get_raw(&key_balance(req.account_id)),
        ));
        let mut write_values: Vec<(H256, H256)> = Vec::new();
        write_values.push((key_nonce(req.account_id), value_u64(req.nonce as u64 + 1)));
        write_values.push((key_balance(req.account_id), value_u64(bal - req.amount)));
        let result = RunResult {
            read_values,
            write_values,
            return_data: Vec::new(),
            account_count: None,
            new_scripts: Vec::new(),
            new_data: Vec::new(),
        };
        proof {
            assert(result@.read_values =~= spec_withdrawal_reads(state@, req@));
            assert(result@.write_values =~= spec_withdrawal_writes(state@, req@));
            assert(result@.new_scripts =~= Seq::<(H256, ScriptView)>::empty());
            assert(result@.new_data =~= Seq::<(H256, Seq<u8>)>::empty());
        }
        Ok(result)
    }
}

/// Credit one deposition into `state`, creating the target account when it
/// does not exist yet.
pub fn apply_deposition_request(state: &mut AccountState, req: &DepositionRequest) -> (r: Result<
    (),
    GeneratorError,
>)
    requires
        old(state).wf(),
    ensures
        final(state).wf(),
        (r is Ok) == (spec_apply_deposition(old(state)@, req@.script, req@.amount) is Ok),
        r is Ok ==> final(state)@ == spec_apply_deposition(
            old(state)@,
            req@.script,
            req@.amount,
        )->Ok_0,
        r is Err ==> final(state)@ == old(state)@ && r.unwrap_err() == spec_apply_deposition(
            old(state)@,
            req@.script,
            req@.amount,
        )->Err_0,
{
    let h = req.script.hash();
    match state.get_account_id_by_script_hash(&h) {
        Some(id) => {
            let bal = state.get_balance(id);
            if req.amount > u64::MAX - bal {
                return Err(GeneratorError::Unknown);
            }
            state.update_raw(key_balance(id), value_u64(bal + req.amount));
            Ok(())
        },
        None => {
            let count = state.get_account_count();
            if count == u32::MAX {
                return Err(GeneratorError::Unknown);
            }
            let id = count;
            let bal = state.get_balance(id);
            if req.amount > u64::MAX - bal {
                return Err(GeneratorError::Unknown);
            }
            let created = state.create_account(req.script.duplicate());
            proof {
                assert(created is Ok);
            }
            match created {
                Ok(new_id) => {
                    proof {
                        // creating the account touches the script-hash and
                        // reverse slots only, so the balance slot still holds
                        // what was read before the creation
                        crate::state::lemma_seq_set_wf(
                            old(state)@.tree,
                            spec_key_script_hash(id),
                            spec_script_hash(req@.script),
                        );
                        crate::state::lemma_seq_get_set(
                            old(state)@.tree,
                            spec_key_script_hash(id),
                            spec_script_hash(req@.script),
                            spec_key_balance(id),
                        );
                        crate::state::lemma_seq_get_set(
                            seq_set(
                                old(state)@.tree,
                                spec_key_script_hash(id),
                                spec_script_hash(req@.script),
                            ),
                            spec_key_script_to_id(spec_script_hash(req@.script)),
                            spec_value_u64((id + 1) as u64),
                            spec_key_balance(id),
                        );
                        assert(spec_balance_of(state@, id) == bal);
                    }
                    state.update_raw(key_balance(new_id), value_u64(bal + req.amount));
                    Ok(())
                },
                Err(_) => Err(GeneratorError::Unknown),
            }
        },
    }
}

} // verus!

verus! {

/// Diff purity: the diff of a passing transaction changes the state only
/// by folding its write-set into the tree — it creates nothing, it touches
/// no account count — so replaying the write-set over the pre-state
/// reproduces exactly the post-state root the execution claims.
pub proof fn lemma_transaction_diff_purity(
    m: Seq<(H256, LockAlgorithmKind)>,
    v: AccountStateView,
    t: L2TransactionView,
)
    requires
        spec_execute_transaction(m, v, t) is Ok,
    ensures
        spec_apply_run_result(v, spec_execute_transaction(m, v, t)->Ok_0) == (AccountStateView {
            tree: apply_writes(v.tree, spec_execute_transaction(m, v, t)->Ok_0.write_values),
            ..v
        }),
        spec_root(
            spec_apply_run_result(v, spec_execute_transaction(m, v, t)->Ok_0).tree,
        ) == spec_root(
            apply_writes(v.tree, spec_execute_transaction(m, v, t)->Ok_0.write_values),
        ),
{
    let rr = spec_execute_transaction(m, v, t)->Ok_0;
    assert(v.scripts + rr.new_scripts =~= v.scripts);
    assert(v.data + rr.new_data =~= v.data);
}

/// The same purity for a passing withdrawal request.
pub proof fn lemma_withdrawal_diff_purity(
    m: Seq<(H256, LockAlgorithmKind)>,
    v: AccountStateView,
    w: WithdrawalRequestView,
)
    requires
        spec_execute_withdrawal(m, v, w) is Ok,
    ensures
        spec_apply_run_result(v, spec_execute_withdrawal(m, v, w)->Ok_0) == (AccountStateView {
            tree: apply_writes(v.tree, spec_execute_withdrawal(m, v, w)->Ok_0.write_values),
            ..v
        }),
{
    let rr = spec_execute_withdrawal(m, v, w)->Ok_0;
    assert(v.scripts + rr.new_scripts =~= v.scripts);
    assert(v.data + rr.new_data =~= v.data);
}

} // verus!
