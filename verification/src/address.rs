//! Fixed-width identifiers and the deterministic hash that derives them.
//!
//! Addresses identify accounts, modules and tokens alike.  They are
//! derived deterministically from a hash of their seed material (a
//! namespace string, a salt, an optional parent address), so that an
//! external prover re-deriving them reaches bit-identical values.

use vstd::prelude::*;

verus! {

/// Multiplier of the 64-bit folding step of the hash.
pub const HASH_PRIME: u64 = 0x100000001b3;

/// Offset basis that seeds the hash.
pub const HASH_BASIS: u64 = 0xcbf29ce484222325;

/// 2^64, the modulus of the folding step.
pub const WORD_MODULUS: u128 = 0x1_0000_0000_0000_0000;

/// A fixed-width (four word) identifier for accounts, modules and tokens.
#[derive(Clone, Copy, PartialEq, Eq, Structural, Debug)]
pub struct Address {
    pub w0: u64,
    pub w1: u64,
    pub w2: u64,
    pub w3: u64,
}

/// An opaque public key identifying a transaction signer.
#[derive(Clone, Copy, PartialEq, Eq, Structural, Debug)]
pub struct PubKey {
    pub w0: u64,
    pub w1: u64,
    pub w2: u64,
    pub w3: u64,
}

/// A short name (a token name, an event key, a candidate name) packed
/// into four words: up to 32 bytes, zero padded.
#[derive(Clone, Copy, PartialEq, Eq, Structural, Debug)]
pub struct ShortName {
    pub w0: u64,
    pub w1: u64,
    pub w2: u64,
    pub w3: u64,
}

/// One folding step: xor the next word in, multiply by the prime, keep
/// the low 64 bits.
#[verifier::opaque]
pub open spec fn spec_mix(h: u64, x: u64) -> u64 {
    (((h ^ x) as int * HASH_PRIME as int) % WORD_MODULUS as int) as u64
}

/// Executable folding step, equal to [`spec_mix`].
pub fn mix(h: u64, x: u64) -> (r: u64)
    ensures
        r == spec_mix(h, x),
{
    proof {
        reveal(spec_mix);
    }
    let folded: u128 = (h ^ x) as u128;
    assert(folded * (HASH_PRIME as u128) <= 0xffff_ffff_ffff_ffffu128 * (HASH_PRIME as u128))
        by (nonlinear_arith)
        requires
            folded <= 0xffff_ffff_ffff_ffffu128,
    ;
    let wide: u128 = folded * (HASH_PRIME as u128);
    (wide % WORD_MODULUS) as u64
}

/// Hash of a byte sequence folded into one word, starting from `seed`.
#[verifier::opaque]
pub open spec fn spec_fold_bytes(seed: u64, s: Seq<u8>) -> u64
    decreases s.len(),
{
    if s.len() == 0 {
        seed
    } else {
        spec_mix(spec_fold_bytes(seed, s.drop_last()), s.last() as u64)
    }
}

/// Executable byte fold, equal to [`spec_fold_bytes`].
pub fn fold_bytes(seed: u64, s: &[u8]) -> (r: u64)
    ensures
        r == spec_fold_bytes(seed, s@),
{
    let mut h: u64 = seed;
    let mut i: usize = 0;
    proof {
        reveal(spec_fold_bytes);
    }
    while i < s.len()
        invariant
            i <= s.len(),
            h == spec_fold_bytes(seed, s@.subrange(0, i as int)),
        decreases s.len() - i,
    {
        proof {
            reveal(spec_fold_bytes);
            assert(s@.subrange(0, i + 1).drop_last() =~= s@.subrange(0, i as int));
            assert(s@.subrange(0, i + 1).last() == s@[i as int]);
        }
        h = mix(h, s[i] as u64);
        i = i + 1;
    }
    proof {
        assert(s@.subrange(0, s@.len() as int) =~= s@);
    }
    h
}

/// Hash of a word sequence folded into one word, starting from `seed`.
#[verifier::opaque]
pub open spec fn spec_fold_words(seed: u64, s: Seq<u64>) -> u64
    decreases s.len(),
{
    if s.len() == 0 {
        seed
    } else {
        spec_mix(spec_fold_words(seed, s.drop_last()), s.last())
    }
}

/// Executable word fold, equal to [`spec_fold_words`].
pub fn fold_words(seed: u64, s: &[u64]) -> (r: u64)
    ensures
        r == spec_fold_words(seed, s@),
{
    let mut h: u64 = seed;
    let mut i: usize = 0;
    proof {
        reveal(spec_fold_words);
    }
    while i < s.len()
        invariant
            i <= s.len(),
            h == spec_fold_words(seed, s@.subrange(0, i as int)),
        decreases s.len() - i,
    {
        proof {
            reveal(spec_fold_words);
            assert(s@.subrange(0, i + 1).drop_last() =~= s@.subrange(0, i as int));
            assert(s@.subrange(0, i + 1).last() == s@[i as int]);
        }
        h = mix(h, s[i]);
        i = i + 1;
    }
    proof {
        assert(s@.subrange(0, s@.len() as int) =~= s@);
    }
    h
}

/// Four independent lanes expanded from one folded word: the address
/// derived from a byte seed.
pub open spec fn spec_generate_address(s: Seq<u8>) -> Address {
    let h = spec_fold_bytes(HASH_BASIS, s);
    Address {
        w0: spec_mix(h, 1),
        w1: spec_mix(h, 2),
        w2: spec_mix(h, 3),
        w3: spec_mix(h, 4),
    }
}

/// Derives a deterministic address from a byte string key.
pub fn generate_address(key: &[u8]) -> (r: Address)
    ensures
        r == spec_generate_address(key@),
{
    let h = fold_bytes(HASH_BASIS, key);
    Address { w0: mix(h, 1), w1: mix(h, 2), w2: mix(h, 3), w3: mix(h, 4) }
}

impl Address {
    /// The all-zero address, used to fill unused key slots.
    pub open spec fn spec_zero() -> Address {
        Address { w0: 0, w1: 0, w2: 0, w3: 0 }
    }

    /// Returns the all-zero address.
    pub fn zero() -> (r: Address)
        ensures
            r == Address::spec_zero(),
    {
        Address { w0: 0, w1: 0, w2: 0, w3: 0 }
    }

    /// The words of this address as a sequence, the seed material for
    /// further derivations.
    pub open spec fn spec_words(self) -> Seq<u64> {
        seq![self.w0, self.w1, self.w2, self.w3]
    }
}

impl PubKey {
    /// The address slot form of this key: the same four words.  This is
    /// injective, so distinct signers never alias one storage slot.
    pub open spec fn spec_as_slot(self) -> Address {
        Address { w0: self.w0, w1: self.w1, w2: self.w2, w3: self.w3 }
    }

    /// Returns the address slot form of this key.
    pub fn as_slot(&self) -> (r: Address)
        ensures
            r == self.spec_as_slot(),
    {
        Address { w0: self.w0, w1: self.w1, w2: self.w2, w3: self.w3 }
    }

    /// The account address derived from this key.
    pub open spec fn spec_to_address(self) -> Address {
        let h = spec_fold_words(HASH_BASIS, seq![self.w0, self.w1, self.w2, self.w3]);
        Address { w0: spec_mix(h, 1), w1: spec_mix(h, 2), w2: spec_mix(h, 3), w3: spec_mix(h, 4) }
    }

    /// Derives the account address owned by this key.
    pub fn to_address(&self) -> (r: Address)
        ensures
            r == self.spec_to_address(),
    {
        let words: [u64; 4] = [self.w0, self.w1, self.w2, self.w3];
        let h = fold_words(HASH_BASIS, words.as_slice());
        proof {
            assert(words@ =~= seq![self.w0, self.w1, self.w2, self.w3]);
        }
        Address { w0: mix(h, 1), w1: mix(h, 2), w2: mix(h, 3), w3: mix(h, 4) }
    }
}

impl ShortName {
    /// The all-zero name.
    pub open spec fn spec_empty() -> ShortName {
        ShortName { w0: 0, w1: 0, w2: 0, w3: 0 }
    }

    /// Returns the all-zero name.
    pub fn empty() -> (r: ShortName)
        ensures
            r == ShortName::spec_empty(),
    {
        ShortName { w0: 0, w1: 0, w2: 0, w3: 0 }
    }
}

/// The byte of `s` at `i`, or zero padding past either end.
pub open spec fn spec_byte_at(s: Seq<u8>, i: int) -> u64 {
    if 0 <= i < s.len() {
        s[i] as u64
    } else {
        0
    }
}

/// One word packed from up to eight bytes of `s` starting at `8 * lane`,
/// little endian, zero padded past the end.
pub open spec fn spec_pack_word(s: Seq<u8>, lane: int) -> u64 {
    let i = 8 * lane;
    (spec_byte_at(s, i) + spec_byte_at(s, i + 1) * 0x100 + spec_byte_at(s, i + 2) * 0x1_0000
        + spec_byte_at(s, i + 3) * 0x100_0000 + spec_byte_at(s, i + 4) * 0x1_0000_0000
        + spec_byte_at(s, i + 5) * 0x100_0000_0000 + spec_byte_at(s, i + 6) * 0x1_0000_0000_0000
        + spec_byte_at(s, i + 7) * 0x100_0000_0000_0000) as u64
}

/// Packs up to 32 bytes of a byte string into a [`ShortName`], little
/// endian within each word, zero padded; bytes past the 32nd are ignored.
pub fn pack_name(s: &[u8]) -> (r: ShortName)
    ensures
        r.w0 == spec_pack_word(s@, 0),
        r.w1 == spec_pack_word(s@, 1),
        r.w2 == spec_pack_word(s@, 2),
        r.w3 == spec_pack_word(s@, 3),
{
    ShortName {
        w0: pack_word(s, 0),
        w1: pack_word(s, 8),
        w2: pack_word(s, 16),
        w3: pack_word(s, 24),
    }
}

/// The byte of `s` at `i`, or zero past the end.
pub fn byte_at(s: &[u8], i: usize) -> (r: u64)
    ensures
        r == spec_byte_at(s@, i as int),
{
    if i < s.len() {
        s[i] as u64
    } else {
        0
    }
}

/// Executable packing of one word from eight bytes at offset `start`.
fn pack_word(s: &[u8], start: usize) -> (r: u64)
    requires
        start % 8 == 0,
        start <= 24,
    ensures
        r == spec_pack_word(s@, start as int / 8),
{
    byte_at(s, start) + byte_at(s, start + 1) * 0x100 + byte_at(s, start + 2) * 0x1_0000
        + byte_at(s, start + 3) * 0x100_0000 + byte_at(s, start + 4) * 0x1_0000_0000
        + byte_at(s, start + 5) * 0x100_0000_0000 + byte_at(s, start + 6) * 0x1_0000_0000_0000
        + byte_at(s, start + 7) * 0x100_0000_0000_0000
}

} // verus!
