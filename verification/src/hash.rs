//! 256-bit values and the deterministic digest used for every commitment in
//! the chain: state roots, script hashes, transaction hashes and block hashes.
//!
//! The digest absorbs a sequence of 64-bit words into a running accumulator
//! with a multiply-add-reduce step over a prime modulus, then expands the
//! accumulator into four limbs. The first limb of a digest is always
//! non-zero, so a digest can never collide with the reserved all-zero value
//! that stands for an empty commitment or an unset key.

use vstd::prelude::*;

verus! {

/// A 256-bit value: four 64-bit limbs, most significant limb first.
#[derive(Clone, Copy, PartialEq, Eq, Structural, Hash, Debug)]
pub struct H256 {
    pub limb0: u64,
    pub limb1: u64,
    pub limb2: u64,
    pub limb3: u64,
}

impl H256 {
    /// The all-zero value: the empty commitment, and the value of every
    /// unset key in a state tree.
    pub open spec fn spec_zero() -> H256 {
        H256 { limb0: 0, limb1: 0, limb2: 0, limb3: 0 }
    }

    pub fn zero() -> (r: H256)
        ensures
            r == H256::spec_zero(),
    {
        H256 { limb0: 0, limb1: 0, limb2: 0, limb3: 0 }
    }

    pub fn is_zero(&self) -> (r: bool)
        ensures
            r == (*self == H256::spec_zero()),
    {
        self.limb0 == 0 && self.limb1 == 0 && self.limb2 == 0 && self.limb3 == 0
    }

    /// The four limbs as a word sequence, for absorption into a digest.
    pub open spec fn spec_words(self) -> Seq<u64> {
        seq![self.limb0, self.limb1, self.limb2, self.limb3]
    }
}

/// Strict lexicographic order on the limbs, most significant first.
pub open spec fn h256_lt(a: H256, b: H256) -> bool {
    if a.limb0 != b.limb0 {
        a.limb0 < b.limb0
    } else if a.limb1 != b.limb1 {
        a.limb1 < b.limb1
    } else if a.limb2 != b.limb2 {
        a.limb2 < b.limb2
    } else {
        a.limb3 < b.limb3
    }
}

pub fn h256_less_than(a: &H256, b: &H256) -> (r: bool)
    ensures
        r == h256_lt(*a, *b),
{
    if a.limb0 != b.limb0 {
        a.limb0 < b.limb0
    } else if a.limb1 != b.limb1 {
        a.limb1 < b.limb1
    } else if a.limb2 != b.limb2 {
        a.limb2 < b.limb2
    } else {
        a.limb3 < b.limb3
    }
}

/// The order is a strict total order: for any two values exactly one of
/// `a < b`, `a == b`, `b < a` holds, and it is transitive.
pub proof fn lemma_h256_order_total(a: H256, b: H256)
    ensures
        h256_lt(a, b) || a == b || h256_lt(b, a),
        h256_lt(a, b) ==> !h256_lt(b, a) && a != b,
        a == b ==> !h256_lt(a, b),
{
}

pub proof fn lemma_h256_order_trans(a: H256, b: H256, c: H256)
    requires
        h256_lt(a, b),
        h256_lt(b, c),
    ensures
        h256_lt(a, c),
{
}

/// Largest prime below 2^64; the accumulator stays below it.
pub const HASH_MODULUS: u64 = 0xffff_ffff_ffff_ffc5;

/// Odd multiplier for the absorption step.
pub const HASH_MULTIPLIER: u64 = 0x5851_f42d_4c95_7f2d;

/// Initial accumulator value.
pub const HASH_SEED: u64 = 0x243f_6a88_85a3_08d3;

/// One absorption step: multiply, add the word plus one, reduce.
pub open spec fn hash_step(h: u64, w: u64) -> u64 {
    (((h as int) * (HASH_MULTIPLIER as int) + (w as int) + 1) % (HASH_MODULUS as int)) as u64
}

pub fn hash_step_exec(h: u64, w: u64) -> (r: u64)
    ensures
        r == hash_step(h, w),
{
    proof {
        vstd::arithmetic::mul::lemma_mul_inequality(
            h as int,
            u64::MAX as int,
            HASH_MULTIPLIER as int,
        );
    }
    let t: u128 = (h as u128) * (HASH_MULTIPLIER as u128) + (w as u128) + 1;
    let m: u128 = t % (HASH_MODULUS as u128);
    m as u64
}

/// Absorb a word sequence, left to right.
pub open spec fn hash_fold(h: u64, ws: Seq<u64>) -> u64
    decreases ws.len(),
{
    if ws.len() == 0 {
        h
    } else {
        hash_fold(hash_step(h, ws[0]), ws.drop_first())
    }
}

pub proof fn lemma_hash_fold_snoc(h: u64, ws: Seq<u64>, w: u64)
    ensures
        hash_fold(h, ws.push(w)) == hash_step(hash_fold(h, ws), w),
    decreases ws.len(),
{
    reveal_with_fuel(hash_fold, 3);
    if ws.len() == 0 {
        assert(ws.push(w)[0] == w);
        assert(ws.push(w).drop_first() =~= ws);
        assert(hash_fold(h, ws.push(w)) == hash_step(h, w));
    } else {
        assert(ws.push(w)[0] == ws[0]);
        assert(ws.push(w).drop_first() =~= ws.drop_first().push(w));
        lemma_hash_fold_snoc(hash_step(h, ws[0]), ws.drop_first(), w);
        assert(hash_fold(h, ws.push(w)) == hash_fold(hash_step(h, ws[0]), ws.drop_first().push(w)));
        assert(hash_fold(h, ws) == hash_fold(hash_step(h, ws[0]), ws.drop_first()));
    }
}

/// The digest of a word sequence. The first limb is the final accumulator
/// plus one, so it is never zero: no digest equals `H256::spec_zero()`.
pub open spec fn spec_digest(ws: Seq<u64>) -> H256 {
    let s = hash_fold(HASH_SEED, ws);
    H256 {
        limb0: (s + 1) as u64,
        limb1: hash_step(s, 1),
        limb2: hash_step(s, 2),
        limb3: hash_step(s, 3),
    }
}

pub proof fn lemma_digest_nonzero(ws: Seq<u64>)
    ensures
        spec_digest(ws) != H256::spec_zero(),
{
    lemma_hash_fold_below_modulus(HASH_SEED, ws);
}

/// The accumulator stays strictly below the modulus after any absorption.
pub proof fn lemma_hash_fold_below_modulus(h: u64, ws: Seq<u64>)
    requires
        ws.len() > 0 || h < HASH_MODULUS,
    ensures
        hash_fold(h, ws) < HASH_MODULUS,
    decreases ws.len(),
{
    if ws.len() > 0 {
        lemma_hash_fold_below_modulus(hash_step(h, ws[0]), ws.drop_first());
    }
}

pub fn digest(ws: &Vec<u64>) -> (r: H256)
    ensures
        r == spec_digest(ws@),
        r != H256::spec_zero(),
{
    let mut h: u64 = HASH_SEED;
    let mut i: usize = 0;
    while i < ws.len()
        invariant
            0 <= i <= ws@.len(),
            h == hash_fold(HASH_SEED, ws@.take(i as int)),
        decreases ws@.len() - i,
    {
        proof {
            assert(ws@.take(i as int + 1) =~= ws@.take(i as int).push(ws@[i as int]));
            lemma_hash_fold_snoc(HASH_SEED, ws@.take(i as int), ws@[i as int]);
        }
        h = hash_step_exec(h, ws[i]);
        i = i + 1;
    }
    proof {
        assert(ws@.take(ws@.len() as int) =~= ws@);
        lemma_hash_fold_below_modulus(HASH_SEED, ws@);
    }
    let r = H256 {
        limb0: h + 1,
        limb1: hash_step_exec(h, 1),
        limb2: hash_step_exec(h, 2),
        limb3: hash_step_exec(h, 3),
    };
    proof {
        lemma_digest_nonzero(ws@);
    }
    r
}

/// Bytes widened to words, one word per byte.
pub open spec fn words_of_bytes(bs: Seq<u8>) -> Seq<u64> {
    bs.map_values(|b: u8| b as u64)
}

/// Append each byte of `bs` to `out` as one word.
pub fn push_bytes_as_words(out: &mut Vec<u64>, bs: &Vec<u8>)
    ensures
        final(out)@ == old(out)@ + words_of_bytes(bs@),
{
    let mut i: usize = 0;
    while i < bs.len()
        invariant
            0 <= i <= bs@.len(),
            out@ == old(out)@ + words_of_bytes(bs@.take(i as int)),
        decreases bs@.len() - i,
    {
        out.push(bs[i] as u64);
        proof {
            assert(words_of_bytes(bs@.take(i as int + 1)) =~= words_of_bytes(
                bs@.take(i as int),
            ).push(bs@[i as int] as u64));
            assert(out@ =~= old(out)@ + words_of_bytes(bs@.take(i as int + 1)));
        }
        i = i + 1;
    }
    proof {
        assert(bs@.take(bs@.len() as int) =~= bs@);
    }
}

/// Append the four limbs of `h` to `out`.
pub fn push_h256_words(out: &mut Vec<u64>, h: &H256)
    ensures
        final(out)@ == old(out)@ + h.spec_words(),
{
    out.push(h.limb0);
    out.push(h.limb1);
    out.push(h.limb2);
    out.push(h.limb3);
    proof {
        assert(out@ =~= old(out)@ + h.spec_words());
    }
}

/// A big-endian 64-bit read of eight bytes of `s` starting at `off`.
pub open spec fn spec_u64_from_be(s: Seq<u8>, off: int) -> u64 {
    ((s[off] as int) * 0x100_0000_0000_0000 + (s[off + 1] as int) * 0x1_0000_0000_0000 + (s[off
        + 2] as int) * 0x100_0000_0000 + (s[off + 3] as int) * 0x1_0000_0000 + (s[off
        + 4] as int) * 0x100_0000 + (s[off + 5] as int) * 0x1_0000 + (s[off + 6] as int) * 0x100 + (
    s[off + 7] as int)) as u64
}

pub fn u64_from_be_bytes(s: &Vec<u8>, off: usize) -> (r: u64)
    requires
        off + 8 <= s@.len(),
    ensures
        r == spec_u64_from_be(s@, off as int),
{
    let n: usize = s.len();
    assert(off + 8 <= n);
    let b0 = s[off] as u64;
    let b1 = s[off + 1] as u64;
    let b2 = s[off + 2] as u64;
    let b3 = s[off + 3] as u64;
    let b4 = s[off + 4] as u64;
    let b5 = s[off + 5] as u64;
    let b6 = s[off + 6] as u64;
    let b7 = s[off + 7] as u64;
    assert(b0 <= 0xff && b1 <= 0xff && b2 <= 0xff && b3 <= 0xff);
    assert(b4 <= 0xff && b5 <= 0xff && b6 <= 0xff && b7 <= 0xff);
    b0 * 0x100_0000_0000_0000 + b1 * 0x1_0000_0000_0000 + b2 * 0x100_0000_0000 + b3 * 0x1_0000_0000
        + b4 * 0x100_0000 + b5 * 0x1_0000 + b6 * 0x100 + b7
}

/// The 256-bit value encoded by 32 big-endian bytes.
pub open spec fn spec_h256_from_bytes(s: Seq<u8>) -> H256 {
    H256 {
        limb0: spec_u64_from_be(s, 0),
        limb1: spec_u64_from_be(s, 8),
        limb2: spec_u64_from_be(s, 16),
        limb3: spec_u64_from_be(s, 24),
    }
}

pub fn h256_from_bytes(s: &Vec<u8>) -> (r: H256)
    requires
        s@.len() == 32,
    ensures
        r == spec_h256_from_bytes(s@),
{
    H256 {
        limb0: u64_from_be_bytes(s, 0),
        limb1: u64_from_be_bytes(s, 8),
        limb2: u64_from_be_bytes(s, 16),
        limb3: u64_from_be_bytes(s, 24),
    }
}

} // verus!

verus! {

impl Default for H256 {
    fn default() -> (r: H256)
        ensures
            r == H256::spec_zero(),
    {
        H256 { limb0: 0, limb1: 0, limb2: 0, limb3: 0 }
    }
}

} // verus!
