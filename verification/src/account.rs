//! The account-indexed view over the state tree.
//!
//! Each account occupies a deterministic set of key slots, told apart by a
//! tag limb: its nonce, its balance, and its lock-script hash; a further
//! slot keyed by the script hash points back at the account id. Scripts and
//! content-addressed data blobs live beside the tree and are found by hash.

use vstd::prelude::*;

use crate::hash::{digest, push_bytes_as_words, spec_digest, words_of_bytes, H256};
use crate::state::{seq_get, seq_set, spec_root, StateTree, TreeEntry};
use crate::types::{copy_bytes, spec_script_hash, MerkleState, Script, ScriptView, TAG_DATA};

verus! {

/// Key-slot tags, one per kind of slot; they live in the last limb, so slots
/// of different kinds can never share a key.
pub const KEY_TAG_NONCE: u64 = 1;

pub const KEY_TAG_SCRIPT_HASH: u64 = 2;

pub const KEY_TAG_BALANCE: u64 = 3;

pub const KEY_TAG_SCRIPT_TO_ID: u64 = 4;

/// The key of an account's nonce slot.
pub open spec fn spec_key_nonce(id: u32) -> H256 {
    H256 { limb0: id as u64, limb1: 0, limb2: 0, limb3: KEY_TAG_NONCE }
}

pub fn key_nonce(id: u32) -> (r: H256)
    ensures
        r == spec_key_nonce(id),
{
    H256 { limb0: id as u64, limb1: 0, limb2: 0, limb3: KEY_TAG_NONCE }
}

/// The key of an account's script-hash slot.
pub open spec fn spec_key_script_hash(id: u32) -> H256 {
    H256 { limb0: id as u64, limb1: 0, limb2: 0, limb3: KEY_TAG_SCRIPT_HASH }
}

pub fn key_script_hash(id: u32) -> (r: H256)
    ensures
        r == spec_key_script_hash(id),
{
    H256 { limb0: id as u64, limb1: 0, limb2: 0, limb3: KEY_TAG_SCRIPT_HASH }
}

/// The key of an account's balance slot.
pub open spec fn spec_key_balance(id: u32) -> H256 {
    H256 { limb0: id as u64, limb1: 0, limb2: 0, limb3: KEY_TAG_BALANCE }
}

pub fn key_balance(id: u32) -> (r: H256)
    ensures
        r == spec_key_balance(id),
{
    H256 { limb0: id as u64, limb1: 0, limb2: 0, limb3: KEY_TAG_BALANCE }
}

/// The key of the reverse slot from a script hash to the account id it
/// identifies.
pub open spec fn spec_key_script_to_id(h: H256) -> H256 {
    H256 { limb0: h.limb0, limb1: h.limb1, limb2: h.limb2, limb3: KEY_TAG_SCRIPT_TO_ID }
}

pub fn key_script_to_id(h: &H256) -> (r: H256)
    ensures
        r == spec_key_script_to_id(*h),
{
    H256 { limb0: h.limb0, limb1: h.limb1, limb2: h.limb2, limb3: KEY_TAG_SCRIPT_TO_ID }
}

/// A 64-bit quantity as a tree value, in the last limb.
pub open spec fn spec_value_u64(x: u64) -> H256 {
    H256 { limb0: 0, limb1: 0, limb2: 0, limb3: x }
}

pub fn value_u64(x: u64) -> (r: H256)
    ensures
        r == spec_value_u64(x),
{
    H256 { limb0: 0, limb1: 0, limb2: 0, limb3: x }
}

/// First-match lookup in an association list.
pub open spec fn assoc_find<V>(s: Seq<(H256, V)>, k: H256) -> Option<V>
    decreases s.len(),
{
    if s.len() == 0 {
        None
    } else if s[0].0 == k {
        Some(s[0].1)
    } else {
        assoc_find(s.drop_first(), k)
    }
}

pub proof fn lemma_assoc_find_at<V>(s: Seq<(H256, V)>, k: H256, i: int)
    requires
        0 <= i < s.len(),
        s[i].0 == k,
        forall|j: int| 0 <= j < i ==> (#[trigger] s[j]).0 != k,
    ensures
        assoc_find(s, k) == Some(s[i].1),
    decreases i,
{
    if i > 0 {
        lemma_assoc_find_at(s.drop_first(), k, i - 1);
    }
}

pub proof fn lemma_assoc_find_absent<V>(s: Seq<(H256, V)>, k: H256)
    requires
        forall|j: int| 0 <= j < s.len() ==> (#[trigger] s[j]).0 != k,
    ensures
        assoc_find(s, k) is None,
    decreases s.len(),
{
    if s.len() > 0 {
        lemma_assoc_find_absent(s.drop_first(), k);
    }
}

/// The views of a script store.
pub open spec fn scripts_view(s: Seq<(H256, Script)>) -> Seq<(H256, ScriptView)> {
    s.map_values(|p: (H256, Script)| (p.0, p.1@))
}

/// The views of a data store.
pub open spec fn data_view(s: Seq<(H256, Vec<u8>)>) -> Seq<(H256, Seq<u8>)> {
    s.map_values(|p: (H256, Vec<u8>)| (p.0, p.1@))
}

pub proof fn lemma_scripts_view_take(s: Seq<(H256, Script)>, i: int)
    requires
        0 <= i <= s.len(),
    ensures
        scripts_view(s.take(i)) == scripts_view(s).take(i),
{
    assert(scripts_view(s.take(i)) =~= scripts_view(s).take(i));
}

pub proof fn lemma_data_view_take(s: Seq<(H256, Vec<u8>)>, i: int)
    requires
        0 <= i <= s.len(),
    ensures
        data_view(s.take(i)) == data_view(s).take(i),
{
    assert(data_view(s.take(i)) =~= data_view(s).take(i));
}

/// The content-address of a data blob.
#[verifier::opaque]
pub open spec fn spec_data_hash(bs: Seq<u8>) -> H256 {
    spec_digest(seq![TAG_DATA, bs.len() as u64] + words_of_bytes(bs))
}

pub fn data_hash(bs: &Vec<u8>) -> (r: H256)
    ensures
        r == spec_data_hash(bs@),
        r != H256::spec_zero(),
{
    let mut words: Vec<u64> = Vec::new();
    proof {
        reveal(spec_data_hash);
    }
    words.push(TAG_DATA);
    words.push(bs.len() as u64);
    push_bytes_as_words(&mut words, bs);
    proof {
        assert(words@ =~= seq![TAG_DATA, bs@.len() as u64] + words_of_bytes(bs@));
    }
    digest(&words)
}

/// One version of the account universe: the state tree, the number of
/// accounts created so far, and the script and data stores.
#[derive(Debug)]
pub struct AccountState {
    tree: StateTree,
    account_count: u32,
    scripts: Vec<(H256, Script)>,
    data: Vec<(H256, Vec<u8>)>,
}

pub ghost struct AccountStateView {
    pub tree: Seq<TreeEntry>,
    pub account_count: u32,
    pub scripts: Seq<(H256, ScriptView)>,
    pub data: Seq<(H256, Seq<u8>)>,
}

impl View for AccountState {
    type V = AccountStateView;

    closed spec fn view(&self) -> AccountStateView {
        AccountStateView {
            tree: self.tree@,
            account_count: self.account_count,
            scripts: scripts_view(self.scripts@),
            data: data_view(self.data@),
        }
    }
}

/// The nonce slot value of an account, as a 64-bit quantity.
pub open spec fn spec_nonce_of(v: AccountStateView, id: u32) -> u64 {
    seq_get(v.tree, spec_key_nonce(id)).limb3
}

/// The balance slot value of an account.
pub open spec fn spec_balance_of(v: AccountStateView, id: u32) -> u64 {
    seq_get(v.tree, spec_key_balance(id)).limb3
}

/// The script hash bound to an account id; zero when the id is unassigned.
pub open spec fn spec_script_hash_of(v: AccountStateView, id: u32) -> H256 {
    seq_get(v.tree, spec_key_script_hash(id))
}

/// The account id registered for a script hash, decoded from the reverse
/// slot, which stores the id plus one so that account zero has a non-zero
/// slot value.
pub open spec fn spec_id_by_script_hash(v: AccountStateView, h: H256) -> Option<u32> {
    let val = seq_get(v.tree, spec_key_script_to_id(h));
    if 1 <= val.limb3 <= u32::MAX {
        Some((val.limb3 - 1) as u32)
    } else {
        None
    }
}

/// The view after creating one account guarded by script `s` (with hash
/// `h`): the next id is assigned, both directory slots are written, and the
/// script is stored.
pub open spec fn spec_create_account(v: AccountStateView, s: ScriptView, h: H256) -> AccountStateView {
    AccountStateView {
        tree: seq_set(
            seq_set(v.tree, spec_key_script_hash(v.account_count), h),
            spec_key_script_to_id(h),
            spec_value_u64((v.account_count + 1) as u64),
        ),
        account_count: (v.account_count + 1) as u32,
        scripts: v.scripts.push((h, s)),
        data: v.data,
    }
}

impl AccountState {
    pub open spec fn wf(self) -> bool {
        crate::state::entries_wf(self@.tree)
    }

    pub fn new() -> (r: AccountState)
        ensures
            r.wf(),
            r@.tree == Seq::<TreeEntry>::empty(),
            r@.account_count == 0,
            r@.scripts == Seq::<(H256, ScriptView)>::empty(),
            r@.data == Seq::<(H256, Seq<u8>)>::empty(),
    {
        let r = AccountState {
            tree: StateTree::new(),
            account_count: 0,
            scripts: Vec::new(),
            data: Vec::new(),
        };
        proof {
            assert(scripts_view(r.scripts@) =~= Seq::<(H256, ScriptView)>::empty());
            assert(data_view(r.data@) =~= Seq::<(H256, Seq<u8>)>::empty());
        }
        r
    }

    /// A copy with an identical view.
    pub fn duplicate(&self) -> (r: AccountState)
        ensures
            r@ == self@,
            r.wf() == self.wf(),
    {
        let tree = self.tree.duplicate();
        let mut scripts: Vec<(H256, Script)> = Vec::new();
        let mut data: Vec<(H256, Vec<u8>)> = Vec::new();
        let mut i: usize = 0;
        while i < self.scripts.len()
            invariant
                0 <= i <= self.scripts@.len(),
                scripts_view(scripts@) == scripts_view(self.scripts@.take(i as int)),
            decreases self.scripts@.len() - i,
        {
            let ghost prev = scripts@;
            scripts.push((self.scripts[i].0, self.scripts[i].1.duplicate()));
            proof {
                assert(scripts_view(scripts@) =~= scripts_view(prev).push(
                    (self.scripts@[i as int].0, self.scripts@[i as int].1@),
                ));
                assert(scripts_view(self.scripts@.take(i as int + 1)) =~= scripts_view(
                    self.scripts@.take(i as int),
                ).push((self.scripts@[i as int].0, self.scripts@[i as int].1@)));
            }
            i = i + 1;
        }
        let mut j: usize = 0;
        while j < self.data.len()
            invariant
                0 <= j <= self.data@.len(),
                data_view(data@) == data_view(self.data@.take(j as int)),
            decreases self.data@.len() - j,
        {
            let ghost prev = data@;
            data.push((self.data[j].0, copy_bytes(&self.data[j].1)));
            proof {
                assert(data_view(data@) =~= data_view(prev).push(
                    (self.data@[j as int].0, self.data@[j as int].1@),
                ));
                assert(data_view(self.data@.take(j as int + 1)) =~= data_view(
                    self.data@.take(j as int),
                ).push((self.data@[j as int].0, self.data@[j as int].1@)));
            }
            j = j + 1;
        }
        proof {
            assert(self.scripts@.take(self.scripts@.len() as int) =~= self.scripts@);
            assert(self.data@.take(self.data@.len() as int) =~= self.data@);
        }
        AccountState { tree, account_count: self.account_count, scripts, data }
    }

    /// The tree's entry sequence, key order, as a fresh vector.
    pub fn tree_entries(&self) -> (r: Vec<(H256, H256)>)
        ensures
            r@ == self@.tree,
    {
        self.tree.entries_vec()
    }

    /// The raw tree value at `key`.
    pub fn get_raw(&self, key: &H256) -> (v: H256)
        ensures
            v == seq_get(self@.tree, *key),
    {
        self.tree.get(key)
    }

    /// Bind `key` to `value` in the tree.
    pub fn update_raw(&mut self, key: H256, value: H256)
        requires
            old(self).wf(),
        ensures
            final(self).wf(),
            final(self)@ == (AccountStateView {
                tree: seq_set(old(self)@.tree, key, value),
                ..old(self)@
            }),
    {
        self.tree.set(key, value);
    }

    /// The root commitment of the tree.
    pub fn root(&self) -> (r: H256)
        ensures
            r == spec_root(self@.tree),
    {
        self.tree.root()
    }

    pub fn get_account_count(&self) -> (r: u32)
        ensures
            r == self@.account_count,
    {
        self.account_count
    }

    pub fn set_account_count(&mut self, count: u32)
        requires
            old(self).wf(),
        ensures
            final(self).wf(),
            final(self)@ == (AccountStateView { account_count: count, ..old(self)@ }),
    {
        self.account_count = count;
    }

    /// The account commitment: root plus account count.
    pub fn merkle_state(&self) -> (r: MerkleState)
        ensures
            r == (MerkleState { root: spec_root(self@.tree), count: self@.account_count }),
    {
        MerkleState { root: self.tree.root(), count: self.account_count }
    }

    pub fn get_nonce(&self, id: u32) -> (r: u64)
        ensures
            r == spec_nonce_of(self@, id),
    {
        self.tree.get(&key_nonce(id)).limb3
    }

    pub fn get_balance(&self, id: u32) -> (r: u64)
        ensures
            r == spec_balance_of(self@, id),
    {
        self.tree.get(&key_balance(id)).limb3
    }

    pub fn get_script_hash(&self, id: u32) -> (r: H256)
        ensures
            r == spec_script_hash_of(self@, id),
    {
        self.tree.get(&key_script_hash(id))
    }

    pub fn get_account_id_by_script_hash(&self, h: &H256) -> (r: Option<u32>)
        ensures
            r == spec_id_by_script_hash(self@, *h),
    {
        let val = self.tree.get(&key_script_to_id(h));
        if 1 <= val.limb3 && val.limb3 <= u32::MAX as u64 {
            Some((val.limb3 - 1) as u32)
        } else {
            None
        }
    }

    /// Create a new account guarded by `script`, assigning the next
    /// sequential id. Fails only when every id is taken.
    pub fn create_account(&mut self, script: Script) -> (r: Result<u32, ()>)
        requires
            old(self).wf(),
        ensures
            final(self).wf(),
            r is Ok <==> old(self)@.account_count < u32::MAX,
            r is Ok ==> r.unwrap() == old(self)@.account_count && final(self)@
                == spec_create_account(old(self)@, script@, spec_script_hash(script@)),
            r is Err ==> final(self)@ == old(self)@,
    {
        if self.account_count == u32::MAX {
            return Err(());
        }
        let id = self.account_count;
        let h = script.hash();
        self.tree.set(key_script_hash(id), h);
        proof {
            crate::state::lemma_seq_set_wf(old(self)@.tree, spec_key_script_hash(id), spec_script_hash(script@));
        }
        self.tree.set(key_script_to_id(&h), value_u64((id + 1) as u64));
        self.scripts.push((h, script));
        self.account_count = id + 1;
        proof {
            assert(scripts_view(self.scripts@) =~= old(self)@.scripts.push(
                (spec_script_hash(script@), script@),
            ));
            assert(final(self)@ =~~= spec_create_account(
                old(self)@,
                script@,
                spec_script_hash(script@),
            ));
        }
        Ok(id)
    }

    /// The stored script whose hash is `h`.
    pub fn get_script(&self, h: &H256) -> (r: Option<Script>)
        ensures
            (r is Some) == (assoc_find(self@.scripts, *h) is Some),
            r is Some ==> r.unwrap()@ == assoc_find(self@.scripts, *h).unwrap(),
    {
        let n = self.scripts.len();
        let mut i: usize = 0;
        while i < n
            invariant
                0 <= i <= n,
                n == self.scripts@.len(),
                forall|j: int| 0 <= j < i ==> (#[trigger] scripts_view(self.scripts@)[j]).0 != *h,
            decreases n - i,
        {
            if self.scripts[i].0 == *h {
                let s = self.scripts[i].1.duplicate();
                proof {
                    lemma_assoc_find_at(scripts_view(self.scripts@), *h, i as int);
                }
                return Some(s);
            }
            proof {
                assert(scripts_view(self.scripts@)[i as int].0 == self.scripts@[i as int].0);
            }
            i = i + 1;
        }
        proof {
            lemma_assoc_find_absent(scripts_view(self.scripts@), *h);
        }
        None
    }

    /// Store `script` under its hash, and return that hash.
    pub fn insert_script(&mut self, script: Script) -> (r: H256)
        requires
            old(self).wf(),
        ensures
            final(self).wf(),
            r == spec_script_hash(script@),
            final(self)@ == (AccountStateView {
                scripts: old(self)@.scripts.push((spec_script_hash(script@), script@)),
                ..old(self)@
            }),
    {
        let h = script.hash();
        self.scripts.push((h, script));
        proof {
            assert(scripts_view(self.scripts@) =~= old(self)@.scripts.push(
                (spec_script_hash(script@), script@),
            ));
        }
        h
    }

    /// Append a recorded script entry as it stands, key included; used when
    /// replaying a recorded diff.
    pub fn insert_script_entry(&mut self, h: H256, script: Script)
        requires
            old(self).wf(),
        ensures
            final(self).wf(),
            final(self)@ == (AccountStateView {
                scripts: old(self)@.scripts.push((h, script@)),
                ..old(self)@
            }),
    {
        let ghost gh = h;
        let ghost gs = script@;
        self.scripts.push((h, script));
        proof {
            assert(scripts_view(self.scripts@) =~= old(self)@.scripts.push((gh, gs)));
        }
    }

    /// Append a recorded data entry as it stands, key included; used when
    /// replaying a recorded diff.
    pub fn insert_data_entry(&mut self, h: H256, bytes: Vec<u8>)
        requires
            old(self).wf(),
        ensures
            final(self).wf(),
            final(self)@ == (AccountStateView {
                data: old(self)@.data.push((h, bytes@)),
                ..old(self)@
            }),
    {
        let ghost gh = h;
        let ghost gb = bytes@;
        self.data.push((h, bytes));
        proof {
            assert(data_view(self.data@) =~= old(self)@.data.push((gh, gb)));
        }
    }

    /// The stored data blob whose content-address is `h`.
    pub fn get_data(&self, h: &H256) -> (r: Option<Vec<u8>>)
        ensures
            (r is Some) == (assoc_find(self@.data, *h) is Some),
            r is Some ==> r.unwrap()@ == assoc_find(self@.data, *h).unwrap(),
    {
        let n = self.data.len();
        let mut i: usize = 0;
        while i < n
            invariant
                0 <= i <= n,
                n == self.data@.len(),
                forall|j: int| 0 <= j < i ==> (#[trigger] data_view(self.data@)[j]).0 != *h,
            decreases n - i,
        {
            if self.data[i].0 == *h {
                let d = copy_bytes(&self.data[i].1);
                proof {
                    lemma_assoc_find_at(data_view(self.data@), *h, i as int);
                }
                return Some(d);
            }
            proof {
                assert(data_view(self.data@)[i as int].0 == self.data@[i as int].0);
            }
            i = i + 1;
        }
        proof {
            lemma_assoc_find_absent(data_view(self.data@), *h);
        }
        None
    }

    /// Store `data` under its content-address, and return that address.
    pub fn insert_data(&mut self, data: Vec<u8>) -> (r: H256)
        requires
            old(self).wf(),
        ensures
            final(self).wf(),
            r == spec_data_hash(data@),
            final(self)@ == (AccountStateView {
                data: old(self)@.data.push((spec_data_hash(data@), data@)),
                ..old(self)@
            }),
    {
        let h = data_hash(&data);
        self.data.push((h, data));
        proof {
            assert(data_view(self.data@) =~= old(self)@.data.push((spec_data_hash(data@), data@)));
        }
        h
    }
}

} // verus!
