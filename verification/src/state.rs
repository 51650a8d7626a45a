//! The account state tree: a versionable key/value store over 256-bit keys
//! and 256-bit values, committed to by a single root.
//!
//! Unset keys hold the all-zero value. The tree keeps its entries as a vector
//! sorted strictly by key, holding only non-zero values, so the entry
//! sequence is a canonical form of the key/value set and the root is a pure
//! function of that set: setting a key to zero removes its entry, and two
//! trees with the same non-zero bindings hold byte-identical entry sequences.

use vstd::prelude::*;

use crate::hash::{
    h256_less_than, h256_lt, push_h256_words, spec_digest, digest, H256,
};

verus! {

/// One binding of the tree.
pub type TreeEntry = (H256, H256);

/// Strictly ascending keys.
pub open spec fn entries_sorted(s: Seq<TreeEntry>) -> bool {
    forall|i: int, j: int| 0 <= i < j < s.len() ==> h256_lt(#[trigger] s[i].0, #[trigger] s[j].0)
}

/// No entry holds the zero value.
pub open spec fn entries_nonzero(s: Seq<TreeEntry>) -> bool {
    forall|i: int| 0 <= i < s.len() ==> (#[trigger] s[i]).1 != H256::spec_zero()
}

/// Canonical form: sorted keys, no zero values.
pub open spec fn entries_wf(s: Seq<TreeEntry>) -> bool {
    entries_sorted(s) && entries_nonzero(s)
}

/// The value bound to `k`: the first entry with key `k`, or zero.
pub open spec fn seq_get(s: Seq<TreeEntry>, k: H256) -> H256
    decreases s.len(),
{
    if s.len() == 0 {
        H256::spec_zero()
    } else if s[0].0 == k {
        s[0].1
    } else {
        seq_get(s.drop_first(), k)
    }
}

/// The canonical sequence after binding `k` to `v`: inserts, replaces, or
/// (for a zero `v`) removes the entry, keeping the order.
pub open spec fn seq_set(s: Seq<TreeEntry>, k: H256, v: H256) -> Seq<TreeEntry>
    decreases s.len(),
{
    if s.len() == 0 {
        if v == H256::spec_zero() {
            s
        } else {
            seq![(k, v)]
        }
    } else if h256_lt(k, s[0].0) {
        if v == H256::spec_zero() {
            s
        } else {
            seq![(k, v)] + s
        }
    } else if k == s[0].0 {
        if v == H256::spec_zero() {
            s.drop_first()
        } else {
            seq![(k, v)] + s.drop_first()
        }
    } else {
        seq![s[0]] + seq_set(s.drop_first(), k, v)
    }
}

/// A key absent from every entry reads as zero.
pub proof fn lemma_seq_get_absent(s: Seq<TreeEntry>, k: H256)
    requires
        forall|i: int| 0 <= i < s.len() ==> (#[trigger] s[i]).0 != k,
    ensures
        seq_get(s, k) == H256::spec_zero(),
    decreases s.len(),
{
    if s.len() > 0 {
        assert(s[0].0 != k);
        assert(forall|i: int|
            0 <= i < s.drop_first().len() ==> (#[trigger] s.drop_first()[i]).0 != k);
        lemma_seq_get_absent(s.drop_first(), k);
    }
}

/// The value read is the one at the first entry whose key matches.
pub proof fn lemma_seq_get_at(s: Seq<TreeEntry>, k: H256, i: int)
    requires
        0 <= i < s.len(),
        s[i].0 == k,
        forall|j: int| 0 <= j < i ==> (#[trigger] s[j]).0 != k,
    ensures
        seq_get(s, k) == s[i].1,
    decreases i,
{
    if i > 0 {
        lemma_seq_get_at(s.drop_first(), k, i - 1);
    }
}

/// In a sorted sequence every key is at least the first key.
pub proof fn lemma_sorted_head_min(s: Seq<TreeEntry>, k: H256)
    requires
        entries_sorted(s),
        s.len() > 0,
        h256_lt(k, s[0].0),
    ensures
        seq_get(s, k) == H256::spec_zero(),
{
    assert forall|i: int| 0 <= i < s.len() implies (#[trigger] s[i]).0 != k by {
        if i > 0 {
            crate::hash::lemma_h256_order_trans(k, s[0].0, s[i].0);
        }
        crate::hash::lemma_h256_order_total(k, s[i].0);
    }
    lemma_seq_get_absent(s, k);
}

/// Setting preserves the canonical form.
pub proof fn lemma_seq_set_wf(s: Seq<TreeEntry>, k: H256, v: H256)
    requires
        entries_wf(s),
    ensures
        entries_wf(seq_set(s, k, v)),
    decreases s.len(),
{
    let r = seq_set(s, k, v);
    if s.len() == 0 {
    } else if h256_lt(k, s[0].0) {
        if v != H256::spec_zero() {
            assert forall|i: int, j: int| 0 <= i < j < r.len() implies h256_lt(
                #[trigger] r[i].0,
                #[trigger] r[j].0,
            ) by {
                if i == 0 {
                    if j > 1 {
                        crate::hash::lemma_h256_order_trans(k, s[0].0, s[j - 1].0);
                    }
                }
            }
        }
    } else if k == s[0].0 {
        if v == H256::spec_zero() {
            assert(entries_wf(s.drop_first()));
        } else {
            assert forall|i: int, j: int| 0 <= i < j < r.len() implies h256_lt(
                #[trigger] r[i].0,
                #[trigger] r[j].0,
            ) by {
                if i == 0 {
                    assert(h256_lt(s[0].0, s[j].0));
                }
            }
        }
    } else {
        assert(entries_wf(s.drop_first()));
        lemma_seq_set_wf(s.drop_first(), k, v);
        let t = seq_set(s.drop_first(), k, v);
        crate::hash::lemma_h256_order_total(k, s[0].0);
        assert forall|i: int, j: int| 0 <= i < j < r.len() implies h256_lt(
            #[trigger] r[i].0,
            #[trigger] r[j].0,
        ) by {
            if i == 0 {
                lemma_seq_set_member_key(s.drop_first(), k, v, j - 1);
            }
        }
    }
}

/// Every key of `seq_set(s, k, v)` is `k` or a key of `s`; used to show the
/// head of a sorted sequence stays minimal.
pub proof fn lemma_seq_set_member_key(s: Seq<TreeEntry>, k: H256, v: H256, i: int)
    requires
        entries_sorted(s),
        0 <= i < seq_set(s, k, v).len(),
        forall|j: int| 0 <= j < s.len() ==> h256_lt(k, (#[trigger] s[j]).0) || k == s[j].0
            || h256_lt((#[trigger] s[j]).0, k),
    ensures
        seq_set(s, k, v)[i].0 == k || exists|j: int|
            0 <= j < s.len() && (#[trigger] s[j]).0 == seq_set(s, k, v)[i].0,
    decreases s.len(),
{
    let r = seq_set(s, k, v);
    if s.len() == 0 {
    } else if h256_lt(k, s[0].0) {
        if v != H256::spec_zero() {
            if i > 0 {
                assert(r[i] == s[i - 1]);
            }
        }
    } else if k == s[0].0 {
        if v == H256::spec_zero() {
            assert(r[i] == s[i + 1]);
        } else {
            if i > 0 {
                assert(r[i] == s[i]);
            }
        }
    } else {
        if i > 0 {
            assert(entries_sorted(s.drop_first()));
            lemma_seq_set_member_key(s.drop_first(), k, v, i - 1);
            if r[i].0 != k {
                let j = choose|j: int|
                    0 <= j < s.drop_first().len() && (#[trigger] s.drop_first()[j]).0 == seq_set(
                        s.drop_first(),
                        k,
                        v,
                    )[i - 1].0;
                assert(s[j + 1].0 == r[i].0);
            }
        }
    }
}

/// Reading after setting: the set key reads the new value, every other key
/// reads what it read before.
pub proof fn lemma_seq_get_set(s: Seq<TreeEntry>, k: H256, v: H256, q: H256)
    requires
        entries_wf(s),
    ensures
        seq_get(seq_set(s, k, v), q) == if q == k {
            v
        } else {
            seq_get(s, q)
        },
    decreases s.len(),
{
    reveal_with_fuel(seq_get, 3);
    let r = seq_set(s, k, v);
    crate::hash::lemma_h256_order_total(k, q);
    if s.len() == 0 {
        if v != H256::spec_zero() {
            assert(r == seq![(k, v)]);
            assert(r.drop_first() =~= Seq::<TreeEntry>::empty());
        }
    } else if h256_lt(k, s[0].0) {
        if v == H256::spec_zero() {
            if q == k {
                lemma_sorted_head_min(s, k);
            }
        } else {
            assert(r[0] == (k, v));
            assert(r.drop_first() =~= s);
            if q != k {
            }
        }
    } else if k == s[0].0 {
        assert(entries_wf(s.drop_first()));
        if v == H256::spec_zero() {
            if q == k {
                assert forall|i: int| 0 <= i < s.drop_first().len() implies (#[trigger] s.drop_first()[i]).0
                    != k by {
                    assert(h256_lt(s[0].0, s[i + 1].0));
                    crate::hash::lemma_h256_order_total(k, s[i + 1].0);
                }
                lemma_seq_get_absent(s.drop_first(), k);
            }
        } else {
            assert(r[0] == (k, v));
            assert(r.drop_first() =~= s.drop_first());
        }
    } else {
        assert(entries_wf(s.drop_first()));
        lemma_seq_get_set(s.drop_first(), k, v, q);
        let t = seq_set(s.drop_first(), k, v);
        assert(r[0] == s[0]);
        assert(r.drop_first() =~= t);
        crate::hash::lemma_h256_order_total(k, s[0].0);
    }
}

/// Setting splits at any prefix whose keys are all below `k`.
pub proof fn lemma_seq_set_skip(s: Seq<TreeEntry>, k: H256, v: H256, i: int)
    requires
        entries_sorted(s),
        0 <= i <= s.len(),
        forall|j: int| 0 <= j < i ==> h256_lt((#[trigger] s[j]).0, k),
    ensures
        seq_set(s, k, v) == s.take(i) + seq_set(s.skip(i), k, v),
    decreases i,
{
    if i == 0 {
        assert(s.skip(0) =~= s);
        assert(s.take(0) + seq_set(s, k, v) =~= seq_set(s, k, v));
    } else {
        crate::hash::lemma_h256_order_total(k, s[0].0);
        assert(entries_sorted(s.drop_first()));
        lemma_seq_set_skip(s.drop_first(), k, v, i - 1);
        assert(s.drop_first().take(i - 1) =~= s.take(i).drop_first());
        assert(s.drop_first().skip(i - 1) =~= s.skip(i));
        assert(seq![s[0]] + (s.drop_first().take(i - 1) + seq_set(s.drop_first().skip(i - 1), k, v))
            =~= s.take(i) + seq_set(s.skip(i), k, v));
    }
}

/// The words a root digest absorbs: eight limbs per entry.
pub open spec fn entry_words(e: TreeEntry) -> Seq<u64> {
    e.0.spec_words() + e.1.spec_words()
}

pub open spec fn entries_words(s: Seq<TreeEntry>) -> Seq<u64>
    decreases s.len(),
{
    if s.len() == 0 {
        Seq::empty()
    } else {
        entry_words(s[0]) + entries_words(s.drop_first())
    }
}

pub proof fn lemma_entries_words_snoc(s: Seq<TreeEntry>, e: TreeEntry)
    ensures
        entries_words(s.push(e)) == entries_words(s) + entry_words(e),
    decreases s.len(),
{
    reveal_with_fuel(entries_words, 3);
    if s.len() == 0 {
        assert(s.push(e)[0] == e);
        assert(s.push(e).drop_first() =~= Seq::<TreeEntry>::empty());
        assert(entries_words(s.push(e)) =~= entries_words(s) + entry_words(e));
    } else {
        assert(s.push(e)[0] == s[0]);
        assert(s.push(e).drop_first() =~= s.drop_first().push(e));
        lemma_entries_words_snoc(s.drop_first(), e);
        assert(entry_words(s[0]) + (entries_words(s.drop_first()) + entry_words(e)) =~= (entry_words(
            s[0],
        ) + entries_words(s.drop_first())) + entry_words(e));
    }
}

/// The root commitment of a canonical entry sequence: zero for the empty
/// tree, otherwise a digest over the entry count and all entries. A digest
/// is never zero, so a root is zero exactly for the empty tree.
pub open spec fn spec_root(s: Seq<TreeEntry>) -> H256 {
    if s.len() == 0 {
        H256::spec_zero()
    } else {
        spec_digest(seq![s.len() as u64] + entries_words(s))
    }
}

pub proof fn lemma_root_zero_iff_empty(s: Seq<TreeEntry>)
    ensures
        (spec_root(s) == H256::spec_zero()) <==> s.len() == 0,
{
    if s.len() > 0 {
        crate::hash::lemma_digest_nonzero(seq![s.len() as u64] + entries_words(s));
    }
}

/// The account state tree.
#[derive(Clone, Debug)]
pub struct StateTree {
    entries: Vec<(H256, H256)>,
}

impl View for StateTree {
    type V = Seq<TreeEntry>;

    closed spec fn view(&self) -> Seq<TreeEntry> {
        self.entries@
    }
}

impl StateTree {
    /// Canonical-form invariant; every tree the library hands out satisfies it.
    pub open spec fn wf(self) -> bool {
        entries_wf(self@)
    }

    pub fn new() -> (r: StateTree)
        ensures
            r@ == Seq::<TreeEntry>::empty(),
            r.wf(),
    {
        StateTree { entries: Vec::new() }
    }

    pub fn is_empty(&self) -> (r: bool)
        ensures
            r == (self@.len() == 0),
    {
        self.entries.len() == 0
    }

    /// The value bound to `key`; zero when the key is unset.
    pub fn get(&self, key: &H256) -> (v: H256)
        ensures
            v == seq_get(self@, *key),
    {
        let n = self.entries.len();
        let mut i: usize = 0;
        while i < n
            invariant
                0 <= i <= n,
                n == self@.len(),
                forall|j: int| 0 <= j < i ==> (#[trigger] self@[j]).0 != *key,
            decreases n - i,
        {
            if self.entries[i].0 == *key {
                let v = self.entries[i].1;
                proof {
                    lemma_seq_get_at(self@, *key, i as int);
                }
                return v;
            }
            i = i + 1;
        }
        proof {
            lemma_seq_get_absent(self@, *key);
        }
        H256::zero()
    }

    /// Bind `key` to `value`; a zero `value` unsets the key.
    pub fn set(&mut self, key: H256, value: H256)
        requires
            old(self).wf(),
        ensures
            final(self).wf(),
            final(self)@ == seq_set(old(self)@, key, value),
    {
        let ghost s = self@;
        let n = self.entries.len();
        let mut i: usize = 0;
        while i < n && h256_less_than(&self.entries[i].0, &key)
            invariant
                0 <= i <= n,
                n == self@.len(),
                self@ == s,
                forall|j: int| 0 <= j < i ==> h256_lt((#[trigger] self@[j]).0, key),
            decreases n - i,
        {
            i = i + 1;
        }
        assert(i == n || !h256_lt(s[i as int].0, key));
        proof {
            lemma_seq_set_skip(s, key, value, i as int);
            lemma_seq_set_wf(s, key, value);
        }
        let zero_value = value.is_zero();
        if i < n && self.entries[i].0 == key {
            // replace or remove the matching entry
            if zero_value {
                self.entries.remove(i);
                proof {
                    assert(s.skip(i as int)[0] == s[i as int]);
                    assert(seq_set(s.skip(i as int), key, value) =~= s.skip(i as int).drop_first());
                    assert(self@ =~= s.take(i as int) + s.skip(i as int).drop_first());
                }
            } else {
                self.entries.remove(i);
                self.entries.insert(i, (key, value));
                proof {
                    assert(s.skip(i as int)[0] == s[i as int]);
                    assert(seq_set(s.skip(i as int), key, value) =~= seq![(key, value)] + s.skip(
                        i as int,
                    ).drop_first());
                    assert(self@ =~= s.take(i as int) + (seq![(key, value)] + s.skip(
                        i as int,
                    ).drop_first()));
                }
            }
        } else {
            // no entry with this key; `i` is the insertion point
            proof {
                if i < n {
                    crate::hash::lemma_h256_order_total(key, s[i as int].0);
                    assert(h256_lt(key, s[i as int].0));
                }
            }
            if !zero_value {
                self.entries.insert(i, (key, value));
                proof {
                    if i < n {
                        assert(seq_set(s.skip(i as int), key, value) =~= seq![(key, value)] + s.skip(
                            i as int,
                        ));
                    } else {
                        assert(s.skip(i as int) =~= Seq::<TreeEntry>::empty());
                    }
                    assert(self@ =~= s.take(i as int) + seq_set(s.skip(i as int), key, value));
                }
            } else {
                proof {
                    if i < n {
                        assert(seq_set(s.skip(i as int), key, value) =~= s.skip(i as int));
                    } else {
                        assert(s.skip(i as int) =~= Seq::<TreeEntry>::empty());
                    }
                    assert(self@ =~= s.take(i as int) + seq_set(s.skip(i as int), key, value));
                }
            }
        }
    }

    /// The entry sequence itself, as a fresh vector.
    pub fn entries_vec(&self) -> (r: Vec<(H256, H256)>)
        ensures
            r@ == self@,
    {
        let t = self.duplicate();
        t.entries
    }

    /// A copy with an identical entry sequence.
    pub fn duplicate(&self) -> (r: StateTree)
        ensures
            r@ == self@,
    {
        let n = self.entries.len();
        let mut entries: Vec<(H256, H256)> = Vec::new();
        let mut i: usize = 0;
        while i < n
            invariant
                0 <= i <= n,
                n == self@.len(),
                entries@ == self@.take(i as int),
            decreases n - i,
        {
            entries.push(self.entries[i]);
            proof {
                assert(self@.take(i as int + 1) =~= self@.take(i as int).push(self@[i as int]));
            }
            i = i + 1;
        }
        proof {
            assert(self@.take(n as int) =~= self@);
        }
        StateTree { entries }
    }

    /// The root commitment of the current contents.
    pub fn root(&self) -> (r: H256)
        ensures
            r == spec_root(self@),
    {
        let n = self.entries.len();
        if n == 0 {
            return H256::zero();
        }
        let mut words: Vec<u64> = Vec::new();
        words.push(n as u64);
        let ghost prefix: Seq<u64> = seq![n as u64];
        assert(words@ =~= prefix + entries_words(self@.take(0)));
        let mut i: usize = 0;
        while i < n
            invariant
                0 <= i <= n,
                n == self@.len(),
                words@ == prefix + entries_words(self@.take(i as int)),
            decreases n - i,
        {
            let e = self.entries[i];
            push_h256_words(&mut words, &e.0);
            push_h256_words(&mut words, &e.1);
            proof {
                assert(self@.take(i as int + 1) =~= self@.take(i as int).push(self@[i as int]));
                lemma_entries_words_snoc(self@.take(i as int), self@[i as int]);
                assert(words@ =~= prefix + entries_words(self@.take(i as int + 1)));
            }
            i = i + 1;
        }
        proof {
            assert(self@.take(n as int) =~= self@);
        }
        digest(&words)
    }
}

} // verus!
