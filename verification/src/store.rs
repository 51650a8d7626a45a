//! The versioned store: one immutable checkpoint per committed block, a tip
//! pointer, and a parallel block-index tree.
//!
//! A version is created on successful block application and never mutated
//! afterwards; a revert only moves the tip pointer backwards, so the
//! superseded versions stay readable. The block-index tree of a version
//! binds every height up to it to the block hash at that height, and every
//! block hash back to its height.

use vstd::prelude::*;

use crate::account::{spec_value_u64, value_u64, AccountState, AccountStateView};
use crate::hash::H256;
use crate::state::{entries_wf, seq_get, seq_set, spec_root, StateTree, TreeEntry};
use crate::types::{L2Block, L2BlockView, MerkleState, spec_block_hash};

verus! {

/// Key-slot tags of the block-index tree.
pub const KEY_TAG_BLOCK_NUMBER: u64 = 5;

pub const KEY_TAG_BLOCK_HASH: u64 = 6;

/// The key binding a block height to its block hash.
pub open spec fn spec_key_block_number(n: u64) -> H256 {
    H256 { limb0: n, limb1: 0, limb2: 0, limb3: KEY_TAG_BLOCK_NUMBER }
}

pub fn key_block_number(n: u64) -> (r: H256)
    ensures
        r == spec_key_block_number(n),
{
    H256 { limb0: n, limb1: 0, limb2: 0, limb3: KEY_TAG_BLOCK_NUMBER }
}

/// The key binding a block hash back to its height (stored as height plus
/// one, so height zero has a non-zero slot value).
pub open spec fn spec_key_block_hash(h: H256) -> H256 {
    H256 { limb0: h.limb0, limb1: h.limb1, limb2: h.limb2, limb3: KEY_TAG_BLOCK_HASH }
}

pub fn key_block_hash(h: &H256) -> (r: H256)
    ensures
        r == spec_key_block_hash(*h),
{
    H256 { limb0: h.limb0, limb1: h.limb1, limb2: h.limb2, limb3: KEY_TAG_BLOCK_HASH }
}

/// A store failure: a version that does not exist, or a block that does not
/// extend the chain it is committed onto. Fatal for the caller, never
/// silently recovered.
#[derive(Clone, Copy, PartialEq, Eq, Structural, Debug, Hash)]
pub enum StoreError {
    VersionNotFound,
    VersionMismatch,
}

/// One committed version: the block that produced it, the account state it
/// reached, and the block-index tree up to it.
#[derive(Debug)]
pub struct StoreVersion {
    pub block: L2Block,
    pub state: AccountState,
    pub block_tree: StateTree,
}

pub ghost struct StoreVersionView {
    pub block: L2BlockView,
    pub state: AccountStateView,
    pub block_tree: Seq<TreeEntry>,
}

impl View for StoreVersion {
    type V = StoreVersionView;

    open spec fn view(&self) -> StoreVersionView {
        StoreVersionView { block: self.block@, state: self.state@, block_tree: self.block_tree@ }
    }
}

/// The views of a version sequence.
pub open spec fn versions_view(s: Seq<StoreVersion>) -> Seq<StoreVersionView> {
    s.map_values(|v: StoreVersion| v@)
}

pub ghost struct StoreView {
    pub versions: Seq<StoreVersionView>,
    pub tip: int,
}

/// A well-formed store: the tip points at a version, version `i` holds
/// block number `i`, and every version's trees are canonical.
pub open spec fn store_wf(v: StoreView) -> bool {
    &&& v.versions.len() > 0 ==> 0 <= v.tip < v.versions.len()
    &&& v.versions.len() == 0 ==> v.tip == 0
    &&& forall|i: int|
        0 <= i < v.versions.len() ==> (#[trigger] v.versions[i]).block.number == i as u64
    &&& forall|i: int| 0 <= i < v.versions.len() ==> entries_wf((#[trigger] v.versions[i]).state.tree)
    &&& forall|i: int| 0 <= i < v.versions.len() ==> entries_wf((#[trigger] v.versions[i]).block_tree)
}

/// The block-index tree after appending block `n` with hash `bh`.
pub open spec fn spec_index_block(bt: Seq<TreeEntry>, n: u64, bh: H256) -> Seq<TreeEntry> {
    seq_set(
        seq_set(bt, spec_key_block_number(n), bh),
        spec_key_block_hash(bh),
        spec_value_u64((n + 1) as u64),
    )
}

/// The store view after committing block `b` reaching state `s`: the stale
/// branch beyond the tip is dropped, one version is appended, and the tip
/// advances onto it.
pub open spec fn spec_commit(v: StoreView, b: L2BlockView, s: AccountStateView) -> StoreView {
    let base = if v.versions.len() == 0 {
        Seq::<StoreVersionView>::empty()
    } else {
        v.versions.take(v.tip + 1)
    };
    let prev_bt = if v.versions.len() == 0 {
        Seq::<TreeEntry>::empty()
    } else {
        v.versions[v.tip].block_tree
    };
    let ver = StoreVersionView {
        block: b,
        state: s,
        block_tree: spec_index_block(prev_bt, b.number, spec_block_hash(b)),
    };
    StoreView { versions: base.push(ver), tip: base.len() as int }
}

/// Committing a block that carries the next block number onto a well-formed
/// store gives a well-formed store again.
#[verifier::spinoff_prover]
#[verifier::rlimit(100)]
pub proof fn lemma_commit_wf(v: StoreView, b: L2BlockView, s: AccountStateView)
    requires
        store_wf(v),
        entries_wf(s.tree),
        b.number == (if v.versions.len() == 0 {
            0
        } else {
            v.versions[v.tip].block.number + 1
        }),
        b.number < u64::MAX,
        v.versions.len() <= u64::MAX,
    ensures
        store_wf(spec_commit(v, b, s)),
{
    let sc = spec_commit(v, b, s);
    let base = if v.versions.len() == 0 {
        Seq::<StoreVersionView>::empty()
    } else {
        v.versions.take(v.tip + 1)
    };
    let prev_bt = if v.versions.len() == 0 {
        Seq::<TreeEntry>::empty()
    } else {
        v.versions[v.tip].block_tree
    };
    crate::state::lemma_seq_set_wf(prev_bt, spec_key_block_number(b.number), spec_block_hash(b));
    crate::state::lemma_seq_set_wf(
        seq_set(prev_bt, spec_key_block_number(b.number), spec_block_hash(b)),
        spec_key_block_hash(spec_block_hash(b)),
        spec_value_u64((b.number + 1) as u64),
    );
    if v.versions.len() > 0 {
        assert(v.versions[v.tip].block.number == v.tip as u64);
    }
    assert(sc.versions.len() == base.len() + 1);
    assert(b.number == base.len() as u64);
    assert(sc.versions[base.len() as int].block.number == b.number);
    assert forall|i: int| 0 <= i < sc.versions.len() implies (#[trigger] sc.versions[i]).block.number
        == i as u64 by {
        if i < sc.versions.len() - 1 {
            assert(sc.versions[i] == v.versions[i]);
        }
    }
    assert forall|i: int| 0 <= i < sc.versions.len() implies entries_wf(
        (#[trigger] sc.versions[i]).state.tree,
    ) by {
        if i < sc.versions.len() - 1 {
            assert(sc.versions[i] == v.versions[i]);
        }
    }
    assert forall|i: int| 0 <= i < sc.versions.len() implies entries_wf(
        (#[trigger] sc.versions[i]).block_tree,
    ) by {
        if i < sc.versions.len() - 1 {
            assert(sc.versions[i] == v.versions[i]);
        }
    }
}

/// The versioned store.
#[derive(Debug)]
pub struct Store {
    versions: Vec<StoreVersion>,
    tip: usize,
}

impl View for Store {
    type V = StoreView;

    closed spec fn view(&self) -> StoreView {
        StoreView { versions: versions_view(self.versions@), tip: self.tip as int }
    }
}

impl Store {
    pub open spec fn wf(self) -> bool {
        store_wf(self@)
    }

    /// A fresh store with no versions; genesis must be committed before any
    /// transaction can begin.
    pub fn open() -> (r: Store)
        ensures
            r.wf(),
            r@.versions.len() == 0,
    {
        let r = Store { versions: Vec::new(), tip: 0 };
        proof {
            assert(versions_view(r.versions@) =~= Seq::<StoreVersionView>::empty());
        }
        r
    }

    pub fn has_genesis(&self) -> (r: bool)
        ensures
            r == (self@.versions.len() > 0),
    {
        self.versions.len() > 0
    }

    /// The block number at the tip.
    pub fn tip_number(&self) -> (r: Option<u64>)
        requires
            self.wf(),
        ensures
            self@.versions.len() == 0 ==> r is None,
            self@.versions.len() > 0 ==> r == Some(self@.versions[self@.tip].block.number),
            0 <= self@.tip <= usize::MAX,
    {
        if self.versions.len() == 0 {
            None
        } else {
            Some(self.versions[self.tip].block.number)
        }
    }

    /// The block at height `number` on the current chain.
    pub fn get_block(&self, number: u64) -> (r: Result<L2Block, StoreError>)
        requires
            self.wf(),
        ensures
            (r is Ok) == (self@.versions.len() > 0 && number <= self@.tip),
            r is Ok ==> r->Ok_0@ == self@.versions[number as int].block,
            r is Err ==> r->Err_0 == StoreError::VersionNotFound,
    {
        if self.versions.len() == 0 {
            return Err(StoreError::VersionNotFound);
        }
        if number > self.tip as u64 {
            return Err(StoreError::VersionNotFound);
        }
        Ok(self.versions[number as usize].block.duplicate())
    }

    /// A read-only copy of the account state at any committed version,
    /// the superseded ones included; never touches the tip.
    pub fn checkout_state(&self, version: u64) -> (r: Result<AccountState, StoreError>)
        requires
            self.wf(),
        ensures
            (r is Ok) == (version < self@.versions.len()),
            r is Ok ==> r->Ok_0@ == self@.versions[version as int].state && r->Ok_0.wf(),
            r is Err ==> r->Err_0 == StoreError::VersionNotFound,
    {
        if version >= self.versions.len() as u64 {
            return Err(StoreError::VersionNotFound);
        }
        Ok(self.versions[version as usize].state.duplicate())
    }

    /// A transaction bound to the tip version: an isolated read/write copy
    /// of the tip account state.
    pub fn begin_transaction(&self) -> (r: Result<StoreTransaction, StoreError>)
        requires
            self.wf(),
        ensures
            (r is Ok) == (self@.versions.len() > 0),
            r is Ok ==> r->Ok_0@ == self@.versions[self@.tip].state && r->Ok_0.wf(),
            r is Err ==> r->Err_0 == StoreError::VersionNotFound,
    {
        if self.versions.len() == 0 {
            return Err(StoreError::VersionNotFound);
        }
        Ok(StoreTransaction { state: self.versions[self.tip].state.duplicate() })
    }

    /// The account-state root at the tip.
    pub fn get_account_smt_root(&self) -> (r: Result<H256, StoreError>)
        requires
            self.wf(),
        ensures
            (r is Ok) == (self@.versions.len() > 0),
            r is Ok ==> r->Ok_0 == spec_root(self@.versions[self@.tip].state.tree),
    {
        if self.versions.len() == 0 {
            return Err(StoreError::VersionNotFound);
        }
        Ok(self.versions[self.tip].state.root())
    }

    /// Whether the tip index is too high for one more block count to fit
    /// in 32 bits.
    pub fn tip_index_exceeds_u32(&self) -> (r: bool)
        requires
            self.wf(),
        ensures
            r == !(self@.tip < u32::MAX - 1),
    {
        self.tip >= (u32::MAX - 1) as usize
    }

    /// The tip index as a 32-bit count component.
    pub fn tip_index_u32(&self) -> (r: u32)
        requires
            self.wf(),
            self@.tip < u32::MAX - 1,
        ensures
            r == self@.tip as u32,
    {
        self.tip as u32
    }

    /// A copy of the block-index tree at the tip.
    pub fn tip_block_tree(&self) -> (r: Result<StateTree, StoreError>)
        requires
            self.wf(),
        ensures
            (r is Ok) == (self@.versions.len() > 0),
            r is Ok ==> r->Ok_0@ == self@.versions[self@.tip].block_tree && entries_wf(r->Ok_0@),
    {
        if self.versions.len() == 0 {
            return Err(StoreError::VersionNotFound);
        }
        Ok(self.versions[self.tip].block_tree.duplicate())
    }

    /// The block-index root at the tip.
    pub fn get_block_smt_root(&self) -> (r: Result<H256, StoreError>)
        requires
            self.wf(),
        ensures
            (r is Ok) == (self@.versions.len() > 0),
            r is Ok ==> r->Ok_0 == spec_root(self@.versions[self@.tip].block_tree),
    {
        if self.versions.len() == 0 {
            return Err(StoreError::VersionNotFound);
        }
        Ok(self.versions[self.tip].block_tree.root())
    }

    /// The block commitment at the tip: block-index root plus block count.
    pub fn block_merkle_state(&self) -> (r: Result<MerkleState, StoreError>)
        requires
            self.wf(),
        ensures
            (r is Ok) == (self@.versions.len() > 0 && self@.tip < u32::MAX),
            r is Ok ==> r->Ok_0 == (MerkleState {
                root: spec_root(self@.versions[self@.tip].block_tree),
                count: (self@.tip + 1) as u32,
            }),
    {
        if self.versions.len() == 0 {
            return Err(StoreError::VersionNotFound);
        }
        if self.tip >= u32::MAX as usize {
            return Err(StoreError::VersionNotFound);
        }
        Ok(
            MerkleState {
                root: self.versions[self.tip].block_tree.root(),
                count: self.tip as u32 + 1,
            },
        )
    }

    /// Commit `block` reaching `state` as the next version and advance the
    /// tip onto it. The block must carry the next block number; any stale
    /// branch left behind by a revert is dropped.
    #[verifier::spinoff_prover]
    #[verifier::rlimit(100)]
    pub fn commit_block(&mut self, block: L2Block, state: AccountState) -> (r: Result<
        u64,
        StoreError,
    >)
        requires
            old(self).wf(),
            state.wf(),
        ensures
            final(self).wf(),
            (r is Ok) == (block@.number == (if old(self)@.versions.len() == 0 {
                0
            } else {
                old(self)@.versions[old(self)@.tip].block.number + 1
            }) && block@.number < u64::MAX),
            r is Ok ==> r->Ok_0 == block@.number && final(self)@ == spec_commit(
                old(self)@,
                block@,
                state@,
            ),
            r is Err ==> final(self)@ == old(self)@ && r->Err_0 == StoreError::VersionMismatch,
    {
        let expected: u64 = if self.versions.len() == 0 {
            0
        } else {
            let t = self.versions[self.tip].block.number;
            if t >= u64::MAX - 1 {
                return Err(StoreError::VersionMismatch);
            }
            t + 1
        };
        if block.number != expected || block.number >= u64::MAX {
            return Err(StoreError::VersionMismatch);
        }
        proof {
            if self@.versions.len() > 0 {
                assert(entries_wf(self@.versions[self@.tip].block_tree));
            }
        }
        let mut block_tree = if self.versions.len() == 0 {
            StateTree::new()
        } else {
            self.versions[self.tip].block_tree.duplicate()
        };
        let bh = block.hash();
        block_tree.set(key_block_number(block.number), bh);
        block_tree.set(key_block_hash(&bh), value_u64(block.number + 1));
        let number = block.number;
        let ghost pre = self@;
        if self.versions.len() > 0 {
            self.versions.truncate(self.tip + 1);
        }
        proof {
            if pre.versions.len() > 0 {
                assert(versions_view(self.versions@) =~= pre.versions.take(pre.tip + 1));
            } else {
                assert(versions_view(self.versions@) =~= Seq::<StoreVersionView>::empty());
            }
        }
        let ghost base = versions_view(self.versions@);
        self.versions.push(StoreVersion { block, state, block_tree });
        self.tip = self.versions.len() - 1;
        proof {
            assert(versions_view(self.versions@) =~= base.push(
                self.versions@[self.versions@.len() - 1]@,
            ));
            assert(final(self)@.versions =~= spec_commit(pre, block@, state@).versions);
            lemma_commit_wf(pre, block@, state@);
        }
        Ok(number)
    }

    /// Roll the tip back to the version just before block `block_number`.
    /// The reverted versions are superseded, not destroyed: they stay
    /// readable through `checkout_state`.
    pub fn revert_to_before(&mut self, block_number: u64) -> (r: Result<(), StoreError>)
        requires
            old(self).wf(),
        ensures
            final(self).wf(),
            (r is Ok) == (old(self)@.versions.len() > 0 && 1 <= block_number <= old(self)@.tip),
            r is Ok ==> final(self)@ == (StoreView {
                tip: block_number - 1,
                ..old(self)@
            }),
            r is Err ==> final(self)@ == old(self)@ && r->Err_0 == StoreError::VersionNotFound,
    {
        if self.versions.len() == 0 {
            return Err(StoreError::VersionNotFound);
        }
        if block_number < 1 || block_number > self.tip as u64 {
            return Err(StoreError::VersionNotFound);
        }
        self.tip = (block_number - 1) as usize;
        Ok(())
    }
}

/// An isolated read/write handle over a copy of the tip state; committed
/// through [`Store::commit_block`], or discarded by dropping it.
#[derive(Debug)]
pub struct StoreTransaction {
    state: AccountState,
}

impl View for StoreTransaction {
    type V = AccountStateView;

    closed spec fn view(&self) -> AccountStateView {
        self.state@
    }
}

impl StoreTransaction {
    pub open spec fn wf(self) -> bool {
        entries_wf(self@.tree)
    }

    /// Wrap a computed state as a transaction.
    pub fn from_state(state: AccountState) -> (r: StoreTransaction)
        ensures
            r@ == state@,
    {
        StoreTransaction { state }
    }

    /// The state reached by this transaction, for committing.
    pub fn into_state(self) -> (r: AccountState)
        ensures
            r@ == self@,
    {
        self.state
    }

    pub fn state(&self) -> (r: &AccountState)
        ensures
            r@ == self@,
    {
        &self.state
    }

    pub fn get(&self, key: &H256) -> (v: H256)
        ensures
            v == seq_get(self@.tree, *key),
    {
        self.state.get_raw(key)
    }

    pub fn set(&mut self, key: H256, value: H256)
        requires
            old(self).wf(),
        ensures
            final(self).wf(),
            final(self)@ == (AccountStateView { tree: seq_set(old(self)@.tree, key, value), ..old(
                self,
            )@ }),
    {
        self.state.update_raw(key, value);
    }

    pub fn get_root(&self) -> (r: H256)
        ensures
            r == spec_root(self@.tree),
    {
        self.state.root()
    }

    pub fn get_account_count(&self) -> (r: u32)
        ensures
            r == self@.account_count,
    {
        self.state.get_account_count()
    }
}

} // verus!

verus! {

/// Revert undoes apply: committing a block and then reverting it restores
/// the tip to the exact prior version identifier, whose state — its root
/// included — is untouched, the committed version being only superseded.
pub proof fn lemma_commit_then_revert(v: StoreView, b: L2BlockView, s: AccountStateView)
    requires
        store_wf(v),
        v.versions.len() > 0,
        v.versions.len() <= u64::MAX,
        b.number == v.versions[v.tip].block.number + 1,
        b.number < u64::MAX,
    ensures
        ({
            let after = spec_commit(v, b, s);
            let reverted = StoreView { tip: b.number - 1, ..after };
            &&& 1 <= b.number <= after.tip
            &&& reverted.tip == v.tip
            &&& reverted.versions[reverted.tip] == v.versions[v.tip]
            &&& spec_root(reverted.versions[reverted.tip].state.tree) == spec_root(
                v.versions[v.tip].state.tree,
            )
        }),
{
    assert(v.versions[v.tip].block.number == v.tip as u64);
    let after = spec_commit(v, b, s);
    assert(after.versions[v.tip] == v.versions.take(v.tip + 1)[v.tip]);
}

} // verus!
