//! The semantic types of the chain: scripts, transactions, withdrawal
//! requests, blocks, commitments and challenge data.
//!
//! Every type with heap-allocated fields has a ghost view struct over `Seq`,
//! and every hash is specified as a function of the view, so that two values
//! with equal views have equal hashes.

use vstd::prelude::*;

use crate::hash::{
    digest, push_bytes_as_words, push_h256_words, spec_digest, words_of_bytes, H256,
};

verus! {

/// Domain separation words, one per hashed structure.
pub const TAG_SCRIPT: u64 = 17;

pub const TAG_TX_RAW: u64 = 18;

pub const TAG_TX_WITNESS: u64 = 19;

pub const TAG_WITHDRAWAL_RAW: u64 = 20;

pub const TAG_WITHDRAWAL_WITNESS: u64 = 21;

pub const TAG_BLOCK: u64 = 22;

pub const TAG_COMPACTED_ROOT: u64 = 23;

pub const TAG_DATA: u64 = 24;

/// How a script references its code: by the hash of the code body, or by a
/// type-script hash.
#[derive(Clone, Copy, PartialEq, Eq, Structural, Debug, Hash)]
pub enum ScriptHashType {
    Data,
    Type,
}

pub open spec fn spec_hash_type_word(t: ScriptHashType) -> u64 {
    match t {
        ScriptHashType::Data => 0,
        ScriptHashType::Type => 1,
    }
}

/// An account lock script: which verification code guards the account, and
/// the arguments (for instance a public key hash) handed to that code.
#[derive(Clone, Debug)]
pub struct Script {
    pub code_hash: H256,
    pub hash_type: ScriptHashType,
    pub args: Vec<u8>,
}

pub ghost struct ScriptView {
    pub code_hash: H256,
    pub hash_type: ScriptHashType,
    pub args: Seq<u8>,
}

impl View for Script {
    type V = ScriptView;

    open spec fn view(&self) -> ScriptView {
        ScriptView { code_hash: self.code_hash, hash_type: self.hash_type, args: self.args@ }
    }
}

#[verifier::opaque]
pub open spec fn spec_script_hash(s: ScriptView) -> H256 {
    spec_digest(
        seq![TAG_SCRIPT] + s.code_hash.spec_words() + seq![
            spec_hash_type_word(s.hash_type),
            s.args.len() as u64,
        ] + words_of_bytes(s.args),
    )
}

impl Script {
    /// The script hash: the identity of the account the script guards.
    pub fn hash(&self) -> (r: H256)
        ensures
            r == spec_script_hash(self@),
            r != H256::spec_zero(),
    {
        let mut words: Vec<u64> = Vec::new();
        proof {
            reveal(spec_script_hash);
        }
        words.push(TAG_SCRIPT);
        push_h256_words(&mut words, &self.code_hash);
        words.push(match self.hash_type {
            ScriptHashType::Data => 0,
            ScriptHashType::Type => 1,
        });
        words.push(self.args.len() as u64);
        push_bytes_as_words(&mut words, &self.args);
        proof {
            assert(words@ =~= seq![TAG_SCRIPT] + self.code_hash.spec_words() + seq![
                spec_hash_type_word(self.hash_type),
                self.args@.len() as u64,
            ] + words_of_bytes(self.args@));
        }
        digest(&words)
    }

    /// A field-identical copy.
    pub fn duplicate(&self) -> (r: Script)
        ensures
            r@ == self@,
    {
        Script {
            code_hash: self.code_hash,
            hash_type: self.hash_type,
            args: copy_bytes(&self.args),
        }
    }
}

/// A byte-for-byte copy of a byte vector.
pub fn copy_bytes(v: &Vec<u8>) -> (r: Vec<u8>)
    ensures
        r@ == v@,
{
    let mut r: Vec<u8> = Vec::new();
    let mut i: usize = 0;
    while i < v.len()
        invariant
            0 <= i <= v@.len(),
            r@ == v@.take(i as int),
        decreases v@.len() - i,
    {
        r.push(v[i]);
        proof {
            assert(v@.take(i as int + 1) =~= v@.take(i as int).push(v@[i as int]));
        }
        i = i + 1;
    }
    proof {
        assert(v@.take(v@.len() as int) =~= v@);
    }
    r
}

/// A transaction between two accounts of the chain: `from_id` authorizes a
/// transfer of `amount` to `to_id` at its current `nonce`, with an opaque
/// argument payload for the receiver's backend.
#[derive(Clone, Debug)]
pub struct L2Transaction {
    pub from_id: u32,
    pub to_id: u32,
    pub nonce: u32,
    pub amount: u64,
    pub args: Vec<u8>,
    pub signature: Vec<u8>,
}

pub ghost struct L2TransactionView {
    pub from_id: u32,
    pub to_id: u32,
    pub nonce: u32,
    pub amount: u64,
    pub args: Seq<u8>,
    pub signature: Seq<u8>,
}

impl View for L2Transaction {
    type V = L2TransactionView;

    open spec fn view(&self) -> L2TransactionView {
        L2TransactionView {
            from_id: self.from_id,
            to_id: self.to_id,
            nonce: self.nonce,
            amount: self.amount,
            args: self.args@,
            signature: self.signature@,
        }
    }
}

pub open spec fn spec_tx_body_words(t: L2TransactionView) -> Seq<u64> {
    seq![t.from_id as u64, t.to_id as u64, t.nonce as u64, t.amount, t.args.len() as u64]
        + words_of_bytes(t.args)
}

/// The signing message of a transaction: a digest of everything but the
/// signature.
#[verifier::opaque]
pub open spec fn spec_tx_hash(t: L2TransactionView) -> H256 {
    spec_digest(seq![TAG_TX_RAW] + spec_tx_body_words(t))
}

/// The witness hash: a digest of the whole transaction, signature included.
#[verifier::opaque]
pub open spec fn spec_tx_witness_hash(t: L2TransactionView) -> H256 {
    spec_digest(
        seq![TAG_TX_WITNESS] + spec_tx_body_words(t) + seq![t.signature.len() as u64]
            + words_of_bytes(t.signature),
    )
}

impl L2Transaction {
    fn push_body_words(&self, words: &mut Vec<u64>)
        ensures
            final(words)@ == old(words)@ + spec_tx_body_words(self@),
    {
        words.push(self.from_id as u64);
        words.push(self.to_id as u64);
        words.push(self.nonce as u64);
        words.push(self.amount);
        words.push(self.args.len() as u64);
        push_bytes_as_words(words, &self.args);
        proof {
            assert(words@ =~= old(words)@ + spec_tx_body_words(self@));
        }
    }

    pub fn hash(&self) -> (r: H256)
        ensures
            r == spec_tx_hash(self@),
    {
        let mut words: Vec<u64> = Vec::new();
        proof {
            reveal(spec_tx_hash);
        }
        words.push(TAG_TX_RAW);
        self.push_body_words(&mut words);
        proof {
            assert(words@ =~= seq![TAG_TX_RAW] + spec_tx_body_words(self@));
        }
        digest(&words)
    }

    pub fn witness_hash(&self) -> (r: H256)
        ensures
            r == spec_tx_witness_hash(self@),
    {
        let mut words: Vec<u64> = Vec::new();
        proof {
            reveal(spec_tx_witness_hash);
        }
        words.push(TAG_TX_WITNESS);
        self.push_body_words(&mut words);
        words.push(self.signature.len() as u64);
        push_bytes_as_words(&mut words, &self.signature);
        proof {
            assert(words@ =~= seq![TAG_TX_WITNESS] + spec_tx_body_words(self@) + seq![
                self.signature@.len() as u64,
            ] + words_of_bytes(self.signature@));
        }
        digest(&words)
    }

    pub fn duplicate(&self) -> (r: L2Transaction)
        ensures
            r@ == self@,
    {
        L2Transaction {
            from_id: self.from_id,
            to_id: self.to_id,
            nonce: self.nonce,
            amount: self.amount,
            args: copy_bytes(&self.args),
            signature: copy_bytes(&self.signature),
        }
    }
}

/// A request to settle `amount` out of `account_id` back to the base layer.
#[derive(Clone, Debug)]
pub struct WithdrawalRequest {
    pub account_id: u32,
    pub nonce: u32,
    pub amount: u64,
    pub signature: Vec<u8>,
}

pub ghost struct WithdrawalRequestView {
    pub account_id: u32,
    pub nonce: u32,
    pub amount: u64,
    pub signature: Seq<u8>,
}

impl View for WithdrawalRequest {
    type V = WithdrawalRequestView;

    open spec fn view(&self) -> WithdrawalRequestView {
        WithdrawalRequestView {
            account_id: self.account_id,
            nonce: self.nonce,
            amount: self.amount,
            signature: self.signature@,
        }
    }
}

pub open spec fn spec_withdrawal_body_words(w: WithdrawalRequestView) -> Seq<u64> {
    seq![w.account_id as u64, w.nonce as u64, w.amount]
}

#[verifier::opaque]
pub open spec fn spec_withdrawal_hash(w: WithdrawalRequestView) -> H256 {
    spec_digest(seq![TAG_WITHDRAWAL_RAW] + spec_withdrawal_body_words(w))
}

#[verifier::opaque]
pub open spec fn spec_withdrawal_witness_hash(w: WithdrawalRequestView) -> H256 {
    spec_digest(
        seq![TAG_WITHDRAWAL_WITNESS] + spec_withdrawal_body_words(w) + seq![
            w.signature.len() as u64,
        ] + words_of_bytes(w.signature),
    )
}

impl WithdrawalRequest {
    pub fn hash(&self) -> (r: H256)
        ensures
            r == spec_withdrawal_hash(self@),
    {
        let mut words: Vec<u64> = Vec::new();
        proof {
            reveal(spec_withdrawal_hash);
        }
        words.push(TAG_WITHDRAWAL_RAW);
        words.push(self.account_id as u64);
        words.push(self.nonce as u64);
        words.push(self.amount);
        proof {
            assert(words@ =~= seq![TAG_WITHDRAWAL_RAW] + spec_withdrawal_body_words(self@));
        }
        digest(&words)
    }

    pub fn witness_hash(&self) -> (r: H256)
        ensures
            r == spec_withdrawal_witness_hash(self@),
    {
        let mut words: Vec<u64> = Vec::new();
        proof {
            reveal(spec_withdrawal_witness_hash);
        }
        words.push(TAG_WITHDRAWAL_WITNESS);
        words.push(self.account_id as u64);
        words.push(self.nonce as u64);
        words.push(self.amount);
        words.push(self.signature.len() as u64);
        push_bytes_as_words(&mut words, &self.signature);
        proof {
            assert(words@ =~= seq![TAG_WITHDRAWAL_WITNESS] + spec_withdrawal_body_words(self@)
                + seq![self.signature@.len() as u64] + words_of_bytes(self.signature@));
        }
        digest(&words)
    }

    pub fn duplicate(&self) -> (r: WithdrawalRequest)
        ensures
            r@ == self@,
    {
        WithdrawalRequest {
            account_id: self.account_id,
            nonce: self.nonce,
            amount: self.amount,
            signature: copy_bytes(&self.signature),
        }
    }
}

/// A request observed on the base layer to fund an account guarded by
/// `script` with `amount`; creates the account if it does not exist yet.
#[derive(Clone, Debug)]
pub struct DepositionRequest {
    pub script: Script,
    pub amount: u64,
}

pub ghost struct DepositionRequestView {
    pub script: ScriptView,
    pub amount: u64,
}

impl View for DepositionRequest {
    type V = DepositionRequestView;

    open spec fn view(&self) -> DepositionRequestView {
        DepositionRequestView { script: self.script@, amount: self.amount }
    }
}

/// A commitment to one tree at one version: its root and its entry count.
#[derive(Clone, Copy, PartialEq, Eq, Structural, Debug)]
pub struct MerkleState {
    pub root: H256,
    pub count: u32,
}

pub open spec fn spec_merkle_words(m: MerkleState) -> Seq<u64> {
    m.root.spec_words() + seq![m.count as u64]
}

/// The compacted commitment to an account state: one digest over root and
/// count, recorded per transaction in a block.
#[verifier::opaque]
pub open spec fn spec_compacted_root(m: MerkleState) -> H256 {
    spec_digest(seq![TAG_COMPACTED_ROOT] + spec_merkle_words(m))
}

pub fn compacted_account_root(m: &MerkleState) -> (r: H256)
    ensures
        r == spec_compacted_root(*m),
{
    let mut words: Vec<u64> = Vec::new();
    proof {
        reveal(spec_compacted_root);
    }
    words.push(TAG_COMPACTED_ROOT);
    push_h256_words(&mut words, &m.root);
    words.push(m.count as u64);
    proof {
        assert(words@ =~= seq![TAG_COMPACTED_ROOT] + spec_merkle_words(*m));
    }
    digest(&words)
}

/// Whether the chain is running normally or halted by an open challenge.
#[derive(Clone, Copy, PartialEq, Eq, Structural, Debug, Hash)]
pub enum Status {
    Running,
    Halting,
}

impl Default for Status {
    fn default() -> (r: Status)
        ensures
            r == Status::Running,
    {
        Status::Running
    }
}

/// The externally visible commitment posted back to the base layer: account
/// state, block index state, and the running/halting flag.
#[derive(Clone, Copy, PartialEq, Eq, Structural, Debug)]
pub struct GlobalState {
    pub account: MerkleState,
    pub block: MerkleState,
    pub status: Status,
}

/// Position of an observed base-layer transaction: its enclosing header.
#[derive(Clone, Copy, PartialEq, Eq, Structural, Debug, Hash)]
pub struct HeaderInfo {
    pub number: u64,
    pub block_hash: H256,
}

/// The target of a dispute: one transaction of one block.
#[derive(Clone, Copy, PartialEq, Eq, Structural, Debug, Hash)]
pub struct StartChallenge {
    pub block_number: u64,
    pub tx_index: u32,
}

/// A defender's answer to a challenge: the same target, plus the account
/// root the defender claims the disputed transaction produced.
#[derive(Clone, Copy, PartialEq, Eq, Structural, Debug)]
pub struct CancelChallenge {
    pub block_number: u64,
    pub tx_index: u32,
    pub post_account_root: H256,
}

/// An open dispute held by the chain: the target and the raw witness bytes
/// that arrived with the challenge.
#[derive(Clone, Debug)]
pub struct ChallengeContext {
    pub target: StartChallenge,
    pub witness: Vec<u8>,
}

/// One executed transaction of a produced block, with the compacted account
/// commitment reached right after it.
#[derive(Clone, Debug)]
pub struct TxReceipt {
    pub tx: L2Transaction,
    pub tx_witness_hash: H256,
    pub compacted_post_account_root: H256,
}

pub ghost struct TxReceiptView {
    pub tx: L2TransactionView,
    pub tx_witness_hash: H256,
    pub compacted_post_account_root: H256,
}

impl View for TxReceipt {
    type V = TxReceiptView;

    open spec fn view(&self) -> TxReceiptView {
        TxReceiptView {
            tx: self.tx@,
            tx_witness_hash: self.tx_witness_hash,
            compacted_post_account_root: self.compacted_post_account_root,
        }
    }
}

impl TxReceipt {
    pub fn duplicate(&self) -> (r: TxReceipt)
        ensures
            r@ == self@,
    {
        TxReceipt {
            tx: self.tx.duplicate(),
            tx_witness_hash: self.tx_witness_hash,
            compacted_post_account_root: self.compacted_post_account_root,
        }
    }
}

/// The limbs of a hash sequence, in order.
pub open spec fn h256s_words(s: Seq<H256>) -> Seq<u64>
    decreases s.len(),
{
    if s.len() == 0 {
        Seq::empty()
    } else {
        s[0].spec_words() + h256s_words(s.drop_first())
    }
}

pub proof fn lemma_h256s_words_snoc(s: Seq<H256>, h: H256)
    ensures
        h256s_words(s.push(h)) == h256s_words(s) + h.spec_words(),
    decreases s.len(),
{
    reveal_with_fuel(h256s_words, 3);
    if s.len() == 0 {
        assert(s.push(h)[0] == h);
        assert(s.push(h).drop_first() =~= Seq::<H256>::empty());
        assert(h256s_words(s.push(h)) =~= h256s_words(s) + h.spec_words());
    } else {
        assert(s.push(h)[0] == s[0]);
        assert(s.push(h).drop_first() =~= s.drop_first().push(h));
        lemma_h256s_words_snoc(s.drop_first(), h);
        assert(s[0].spec_words() + (h256s_words(s.drop_first()) + h.spec_words()) =~= (
        s[0].spec_words() + h256s_words(s.drop_first())) + h.spec_words());
    }
}

/// Push the limbs of each hash of `hs` onto `words`.
pub fn push_h256s_words(words: &mut Vec<u64>, hs: &Vec<H256>)
    ensures
        final(words)@ == old(words)@ + h256s_words(hs@),
{
    let mut i: usize = 0;
    while i < hs.len()
        invariant
            0 <= i <= hs@.len(),
            words@ == old(words)@ + h256s_words(hs@.take(i as int)),
        decreases hs@.len() - i,
    {
        push_h256_words(words, &hs[i]);
        proof {
            assert(hs@.take(i as int + 1) =~= hs@.take(i as int).push(hs@[i as int]));
            lemma_h256s_words_snoc(hs@.take(i as int), hs@[i as int]);
            assert(words@ =~= old(words)@ + h256s_words(hs@.take(i as int + 1)));
        }
        i = i + 1;
    }
    proof {
        assert(hs@.take(hs@.len() as int) =~= hs@);
    }
}

/// The views of a transaction sequence.
pub open spec fn txs_view(s: Seq<L2Transaction>) -> Seq<L2TransactionView> {
    s.map_values(|t: L2Transaction| t@)
}

/// The views of a withdrawal sequence.
pub open spec fn withdrawals_view(s: Seq<WithdrawalRequest>) -> Seq<WithdrawalRequestView> {
    s.map_values(|w: WithdrawalRequest| w@)
}

/// The views of a deposition sequence.
pub open spec fn depositions_view(s: Seq<DepositionRequest>) -> Seq<DepositionRequestView> {
    s.map_values(|d: DepositionRequest| d@)
}

pub proof fn lemma_txs_view_push(s: Seq<L2Transaction>, t: L2Transaction)
    ensures
        txs_view(s.push(t)) == txs_view(s).push(t@),
{
    assert(txs_view(s.push(t)) =~= txs_view(s).push(t@));
}

pub proof fn lemma_txs_view_take(s: Seq<L2Transaction>, i: int)
    requires
        0 <= i <= s.len(),
    ensures
        txs_view(s.take(i)) == txs_view(s).take(i),
{
    assert(txs_view(s.take(i)) =~= txs_view(s).take(i));
}

pub proof fn lemma_withdrawals_view_push(s: Seq<WithdrawalRequest>, w: WithdrawalRequest)
    ensures
        withdrawals_view(s.push(w)) == withdrawals_view(s).push(w@),
{
    assert(withdrawals_view(s.push(w)) =~= withdrawals_view(s).push(w@));
}

pub proof fn lemma_withdrawals_view_take(s: Seq<WithdrawalRequest>, i: int)
    requires
        0 <= i <= s.len(),
    ensures
        withdrawals_view(s.take(i)) == withdrawals_view(s).take(i),
{
    assert(withdrawals_view(s.take(i)) =~= withdrawals_view(s).take(i));
}

/// A block of the chain: header fields, the executed body, and the account
/// commitments before and after it.
#[derive(Clone, Debug)]
pub struct L2Block {
    pub number: u64,
    pub aggregator_id: u32,
    pub timestamp: u64,
    pub prev_account: MerkleState,
    pub post_account: MerkleState,
    pub transactions: Vec<L2Transaction>,
    pub withdrawal_requests: Vec<WithdrawalRequest>,
    /// The compacted account commitment right after each transaction.
    pub compacted_post_roots: Vec<H256>,
}

pub ghost struct L2BlockView {
    pub number: u64,
    pub aggregator_id: u32,
    pub timestamp: u64,
    pub prev_account: MerkleState,
    pub post_account: MerkleState,
    pub transactions: Seq<L2TransactionView>,
    pub withdrawal_requests: Seq<WithdrawalRequestView>,
    pub compacted_post_roots: Seq<H256>,
}

impl View for L2Block {
    type V = L2BlockView;

    open spec fn view(&self) -> L2BlockView {
        L2BlockView {
            number: self.number,
            aggregator_id: self.aggregator_id,
            timestamp: self.timestamp,
            prev_account: self.prev_account,
            post_account: self.post_account,
            transactions: txs_view(self.transactions@),
            withdrawal_requests: withdrawals_view(self.withdrawal_requests@),
            compacted_post_roots: self.compacted_post_roots@,
        }
    }
}

pub open spec fn spec_tx_witness_hashes(ts: Seq<L2TransactionView>) -> Seq<H256> {
    ts.map_values(|t: L2TransactionView| spec_tx_witness_hash(t))
}

pub open spec fn spec_withdrawal_witness_hashes(ws: Seq<WithdrawalRequestView>) -> Seq<H256> {
    ws.map_values(|w: WithdrawalRequestView| spec_withdrawal_witness_hash(w))
}

/// The words a block hash absorbs: every header field and a commitment word
/// for every body item.
pub open spec fn spec_block_words(b: L2BlockView) -> Seq<u64> {
    seq![TAG_BLOCK, b.number, b.aggregator_id as u64, b.timestamp] + spec_merkle_words(
        b.prev_account,
    ) + spec_merkle_words(b.post_account) + seq![b.transactions.len() as u64] + h256s_words(
        spec_tx_witness_hashes(b.transactions),
    ) + seq![b.withdrawal_requests.len() as u64] + h256s_words(
        spec_withdrawal_witness_hashes(b.withdrawal_requests),
    ) + seq![b.compacted_post_roots.len() as u64] + h256s_words(b.compacted_post_roots)
}

/// The block hash: a digest over the whole block. It is a function of the
/// block view alone, so identical block contents give identical hashes.
#[verifier::opaque]
pub open spec fn spec_block_hash(b: L2BlockView) -> H256 {
    spec_digest(spec_block_words(b))
}

impl L2Block {
    pub fn hash(&self) -> (r: H256)
        ensures
            r == spec_block_hash(self@),
            r != H256::spec_zero(),
    {
        let mut words: Vec<u64> = Vec::new();
        proof {
            reveal(spec_block_hash);
        }
        words.push(TAG_BLOCK);
        words.push(self.number);
        words.push(self.aggregator_id as u64);
        words.push(self.timestamp);
        push_h256_words(&mut words, &self.prev_account.root);
        words.push(self.prev_account.count as u64);
        push_h256_words(&mut words, &self.post_account.root);
        words.push(self.post_account.count as u64);
        words.push(self.transactions.len() as u64);
        let ghost head: Seq<u64> = seq![
            TAG_BLOCK,
            self.number,
            self.aggregator_id as u64,
            self.timestamp,
        ] + spec_merkle_words(self.prev_account) + spec_merkle_words(self.post_account) + seq![
            self@.transactions.len() as u64,
        ];
        proof {
            assert(words@ =~= head);
        }
        let mut i: usize = 0;
        while i < self.transactions.len()
            invariant
                0 <= i <= self.transactions@.len(),
                words@ == head + h256s_words(
                    spec_tx_witness_hashes(txs_view(self.transactions@.take(i as int))),
                ),
            decreases self.transactions@.len() - i,
        {
            let h = self.transactions[i].witness_hash();
            push_h256_words(&mut words, &h);
            proof {
                let prev = txs_view(self.transactions@.take(i as int));
                assert(self.transactions@.take(i as int + 1) =~= self.transactions@.take(
                    i as int,
                ).push(self.transactions@[i as int]));
                lemma_txs_view_push(self.transactions@.take(i as int), self.transactions@[i as int]);
                assert(spec_tx_witness_hashes(txs_view(self.transactions@.take(i as int + 1)))
                    =~= spec_tx_witness_hashes(prev).push(h));
                lemma_h256s_words_snoc(spec_tx_witness_hashes(prev), h);
                assert(words@ =~= head + h256s_words(
                    spec_tx_witness_hashes(txs_view(self.transactions@.take(i as int + 1))),
                ));
            }
            i = i + 1;
        }
        proof {
            assert(self.transactions@.take(self.transactions@.len() as int)
                =~= self.transactions@);
        }
        let ghost head2: Seq<u64> = words@ + seq![self@.withdrawal_requests.len() as u64];
        words.push(self.withdrawal_requests.len() as u64);
        proof {
            assert(words@ =~= head2);
        }
        let mut j: usize = 0;
        while j < self.withdrawal_requests.len()
            invariant
                0 <= j <= self.withdrawal_requests@.len(),
                words@ == head2 + h256s_words(
                    spec_withdrawal_witness_hashes(
                        withdrawals_view(self.withdrawal_requests@.take(j as int)),
                    ),
                ),
            decreases self.withdrawal_requests@.len() - j,
        {
            let h = self.withdrawal_requests[j].witness_hash();
            push_h256_words(&mut words, &h);
            proof {
                let prev = withdrawals_view(self.withdrawal_requests@.take(j as int));
                assert(self.withdrawal_requests@.take(j as int + 1)
                    =~= self.withdrawal_requests@.take(j as int).push(
                    self.withdrawal_requests@[j as int],
                ));
                lemma_withdrawals_view_push(
                    self.withdrawal_requests@.take(j as int),
                    self.withdrawal_requests@[j as int],
                );
                assert(spec_withdrawal_witness_hashes(
                    withdrawals_view(self.withdrawal_requests@.take(j as int + 1)),
                ) =~= spec_withdrawal_witness_hashes(prev).push(h));
                lemma_h256s_words_snoc(spec_withdrawal_witness_hashes(prev), h);
                assert(words@ =~= head2 + h256s_words(
                    spec_withdrawal_witness_hashes(
                        withdrawals_view(self.withdrawal_requests@.take(j as int + 1)),
                    ),
                ));
            }
            j = j + 1;
        }
        proof {
            assert(self.withdrawal_requests@.take(self.withdrawal_requests@.len() as int)
                =~= self.withdrawal_requests@);
        }
        words.push(self.compacted_post_roots.len() as u64);
        push_h256s_words(&mut words, &self.compacted_post_roots);
        proof {
            assert(words@ =~= spec_block_words(self@));
        }
        digest(&words)
    }

    pub fn duplicate(&self) -> (r: L2Block)
        ensures
            r@ == self@,
    {
        let mut transactions: Vec<L2Transaction> = Vec::new();
        let mut i: usize = 0;
        while i < self.transactions.len()
            invariant
                0 <= i <= self.transactions@.len(),
                txs_view(transactions@) == txs_view(self.transactions@.take(i as int)),
            decreases self.transactions@.len() - i,
        {
            let ghost prev = transactions@;
            transactions.push(self.transactions[i].duplicate());
            proof {
                lemma_txs_view_push(prev, transactions@[transactions@.len() - 1]);
                assert(self.transactions@.take(i as int + 1) =~= self.transactions@.take(
                    i as int,
                ).push(self.transactions@[i as int]));
                lemma_txs_view_push(
                    self.transactions@.take(i as int),
                    self.transactions@[i as int],
                );
            }
            i = i + 1;
        }
        let mut withdrawal_requests: Vec<WithdrawalRequest> = Vec::new();
        let mut j: usize = 0;
        while j < self.withdrawal_requests.len()
            invariant
                0 <= j <= self.withdrawal_requests@.len(),
                withdrawals_view(withdrawal_requests@) == withdrawals_view(
                    self.withdrawal_requests@.take(j as int),
                ),
            decreases self.withdrawal_requests@.len() - j,
        {
            let ghost prevw = withdrawal_requests@;
            withdrawal_requests.push(self.withdrawal_requests[j].duplicate());
            proof {
                lemma_withdrawals_view_push(
                    prevw,
                    withdrawal_requests@[withdrawal_requests@.len() - 1],
                );
                assert(self.withdrawal_requests@.take(j as int + 1)
                    =~= self.withdrawal_requests@.take(j as int).push(
                    self.withdrawal_requests@[j as int],
                ));
                lemma_withdrawals_view_push(
                    self.withdrawal_requests@.take(j as int),
                    self.withdrawal_requests@[j as int],
                );
            }
            j = j + 1;
        }
        let mut compacted_post_roots: Vec<H256> = Vec::new();
        let mut k: usize = 0;
        while k < self.compacted_post_roots.len()
            invariant
                0 <= k <= self.compacted_post_roots@.len(),
                compacted_post_roots@ == self.compacted_post_roots@.take(k as int),
            decreases self.compacted_post_roots@.len() - k,
        {
            compacted_post_roots.push(self.compacted_post_roots[k]);
            proof {
                assert(self.compacted_post_roots@.take(k as int + 1)
                    =~= self.compacted_post_roots@.take(k as int).push(
                    self.compacted_post_roots@[k as int],
                ));
            }
            k = k + 1;
        }
        proof {
            assert(self.transactions@.take(self.transactions@.len() as int)
                =~= self.transactions@);
            assert(self.withdrawal_requests@.take(self.withdrawal_requests@.len() as int)
                =~= self.withdrawal_requests@);
            assert(self.compacted_post_roots@.take(self.compacted_post_roots@.len() as int)
                =~= self.compacted_post_roots@);
        }
        let r = L2Block {
            number: self.number,
            aggregator_id: self.aggregator_id,
            timestamp: self.timestamp,
            prev_account: self.prev_account,
            post_account: self.post_account,
            transactions,
            withdrawal_requests,
            compacted_post_roots,
        };
        proof {
            assert(r@ =~~= self@);
        }
        r
    }
}

} // verus!

verus! {

/// A script hash is a digest, so it is never the zero value that marks an
/// unassigned account slot.
pub proof fn lemma_script_hash_nonzero(s: ScriptView)
    ensures
        spec_script_hash(s) != H256::spec_zero(),
{
    reveal(spec_script_hash);
    crate::hash::lemma_digest_nonzero(
        seq![TAG_SCRIPT] + s.code_hash.spec_words() + seq![
            spec_hash_type_word(s.hash_type),
            s.args.len() as u64,
        ] + words_of_bytes(s.args),
    );
}

/// A block hash is a digest, so it is never zero.
pub proof fn lemma_block_hash_nonzero(b: L2BlockView)
    ensures
        spec_block_hash(b) != H256::spec_zero(),
{
    reveal(spec_block_hash);
    crate::hash::lemma_digest_nonzero(spec_block_words(b));
}

} // verus!
