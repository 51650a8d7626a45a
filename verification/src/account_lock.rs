//! The account lock registry: maps a lock code-hash to the capability that
//! verifies signatures for that lock kind.
//!
//! Registration is explicit, performed once at setup; exactly one capability
//! holds per code-hash, and re-registration overwrites. A lookup miss is its
//! own error kind, so a caller can tell a malformed transaction from a
//! misconfigured system.

use vstd::prelude::*;

use crate::account::assoc_find;
use crate::hash::H256;

verus! {

/// Failure of the registry itself, as opposed to a failed verification.
#[derive(Clone, Copy, PartialEq, Eq, Structural, Debug, Hash)]
pub enum LockAlgorithmError {
    /// No capability is registered for the requested code-hash.
    UnknownLockScript,
}

/// A lock kind that accepts every signature; used by fixtures and by chains
/// that delegate authorization to the base layer.
#[derive(Clone, Copy, PartialEq, Eq, Structural, Debug, Default, Hash)]
pub struct AlwaysSuccess;

impl AlwaysSuccess {
    pub fn verify_signature(&self, lock_args: &Vec<u8>, signature: &Vec<u8>, message: H256) -> (r:
        Result<bool, LockAlgorithmError>)
        ensures
            r == Ok::<bool, LockAlgorithmError>(true),
    {
        let _ = lock_args;
        let _ = signature;
        let _ = message;
        Ok(true)
    }
}

/// The registered lock kinds, one variant per verification capability.
#[derive(Clone, Copy, PartialEq, Eq, Structural, Debug, Hash)]
pub enum LockAlgorithmKind {
    AlwaysSuccess(AlwaysSuccess),
}

/// The decision a lock kind gives on a signature.
pub open spec fn spec_verify_kind(
    k: LockAlgorithmKind,
    lock_args: Seq<u8>,
    signature: Seq<u8>,
    message: H256,
) -> Result<bool, LockAlgorithmError> {
    match k {
        LockAlgorithmKind::AlwaysSuccess(_) => Ok(true),
    }
}

impl LockAlgorithmKind {
    pub fn verify_signature(&self, lock_args: &Vec<u8>, signature: &Vec<u8>, message: H256) -> (r:
        Result<bool, LockAlgorithmError>)
        ensures
            r == spec_verify_kind(*self, lock_args@, signature@, message),
    {
        match self {
            LockAlgorithmKind::AlwaysSuccess(a) => a.verify_signature(
                lock_args,
                signature,
                message,
            ),
        }
    }
}

/// The registry: an association list from code-hash to capability, newest
/// registration first, so the first match is the one in force.
#[derive(Clone, Debug)]
pub struct AccountLockManage {
    algorithms: Vec<(H256, LockAlgorithmKind)>,
}

impl View for AccountLockManage {
    type V = Seq<(H256, LockAlgorithmKind)>;

    closed spec fn view(&self) -> Seq<(H256, LockAlgorithmKind)> {
        self.algorithms@
    }
}

/// The registry decision: the capability registered for `code_hash`
/// decides, and a lookup miss is `UnknownLockScript`.
pub open spec fn spec_verify(
    m: Seq<(H256, LockAlgorithmKind)>,
    code_hash: H256,
    lock_args: Seq<u8>,
    signature: Seq<u8>,
    message: H256,
) -> Result<bool, LockAlgorithmError> {
    match assoc_find(m, code_hash) {
        Some(k) => spec_verify_kind(k, lock_args, signature, message),
        None => Err(LockAlgorithmError::UnknownLockScript),
    }
}

impl AccountLockManage {
    pub fn new() -> (r: AccountLockManage)
        ensures
            r@ == Seq::<(H256, LockAlgorithmKind)>::empty(),
    {
        AccountLockManage { algorithms: Vec::new() }
    }

    /// Register `kind` for `code_hash`; a capability registered earlier for
    /// the same code-hash is no longer in force.
    pub fn register_lock_algorithm(&mut self, code_hash: H256, kind: LockAlgorithmKind)
        ensures
            final(self)@ == old(self)@.insert(0, (code_hash, kind)),
    {
        self.algorithms.insert(0, (code_hash, kind));
    }

    /// The capability in force for `code_hash`.
    pub fn get_lock_algorithm(&self, code_hash: &H256) -> (r: Option<LockAlgorithmKind>)
        ensures
            r == assoc_find(self@, *code_hash),
    {
        let n = self.algorithms.len();
        let mut i: usize = 0;
        while i < n
            invariant
                0 <= i <= n,
                n == self@.len(),
                forall|j: int| 0 <= j < i ==> (#[trigger] self@[j]).0 != *code_hash,
            decreases n - i,
        {
            if self.algorithms[i].0 == *code_hash {
                proof {
                    crate::account::lemma_assoc_find_at(self@, *code_hash, i as int);
                }
                return Some(self.algorithms[i].1);
            }
            i = i + 1;
        }
        proof {
            crate::account::lemma_assoc_find_absent(self@, *code_hash);
        }
        None
    }

    /// Verify `signature` over `message` under the capability registered for
    /// `code_hash`.
    pub fn verify_signature(
        &self,
        code_hash: &H256,
        lock_args: &Vec<u8>,
        signature: &Vec<u8>,
        message: H256,
    ) -> (r: Result<bool, LockAlgorithmError>)
        ensures
            r == spec_verify(self@, *code_hash, lock_args@, signature@, message),
    {
        match self.get_lock_algorithm(code_hash) {
            Some(k) => k.verify_signature(lock_args, signature, message),
            None => Err(LockAlgorithmError::UnknownLockScript),
        }
    }
}

/// Registration overwrites: after registering `kind` for `code_hash`, a
/// lookup of `code_hash` finds `kind`, and a lookup of any other code-hash
/// finds what it found before.
pub proof fn lemma_register_overwrites(
    m: Seq<(H256, LockAlgorithmKind)>,
    code_hash: H256,
    kind: LockAlgorithmKind,
    q: H256,
)
    ensures
        assoc_find(m.insert(0, (code_hash, kind)), q) == if q == code_hash {
            Some(kind)
        } else {
            assoc_find(m, q)
        },
{
    let r = m.insert(0, (code_hash, kind));
    assert(r[0] == (code_hash, kind));
    assert(r.drop_first() =~= m);
}

} // verus!
