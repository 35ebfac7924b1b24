//! The deterministic wire format of blobs.
//!
//! A blob's raw bytes are a little-endian word stream: a transaction
//! count, then each transaction as signer key, signature, nonce and its
//! call message behind a tag word.  Unknown tags, short input, trailing
//! input and out-of-range fields all fail deserialization, and a failed
//! deserialization rejects the whole blob.

use vstd::prelude::*;

use crate::address::Address;
use crate::address::PubKey;
use crate::address::ShortName;
use crate::address::byte_at;
use crate::address::spec_pack_word;
use crate::runtime::RuntimeCall;
use crate::state::Coins;

verus! {

/// An opaque signature over a transaction's content.
#[derive(Clone, Copy, PartialEq, Eq, Structural, Debug)]
pub struct Signature {
    pub w0: u64,
    pub w1: u64,
    pub w2: u64,
    pub w3: u64,
}

/// A signed transaction: immutable once constructed, its payload
/// already decoded to the owning module's call message.
#[derive(Clone, Copy, PartialEq, Eq, Structural, Debug)]
pub struct Transaction {
    pub pub_key: PubKey,
    pub signature: Signature,
    pub nonce: u64,
    pub call: RuntimeCall,
}

/// An ordered sequence of transactions; order is significant and
/// preserved end-to-end.
#[derive(PartialEq, Eq, Debug)]
pub struct Batch {
    pub txs: Vec<Transaction>,
}

/// A blob as delivered by the DA layer: the claimed sender and the raw
/// bytes of a batch.
#[derive(PartialEq, Eq, Debug)]
pub struct Blob {
    pub sender: ShortName,
    pub raw: Vec<u8>,
}

/// The word at word-index `j` of the byte stream.
pub open spec fn spec_word_at(s: Seq<u8>, j: int) -> u64 {
    spec_pack_word(s, j)
}

/// Reads the word at word-index `j`.
pub fn read_word(s: &[u8], j: usize) -> (r: u64)
    requires
        8 * (j as int) + 8 <= usize::MAX,
    ensures
        r == spec_word_at(s@, j as int),
{
    let base = 8 * j;
    byte_at(s, base) + byte_at(s, base + 1) * 0x100 + byte_at(s, base + 2) * 0x1_0000 + byte_at(
        s,
        base + 3,
    ) * 0x100_0000 + byte_at(s, base + 4) * 0x1_0000_0000 + byte_at(s, base + 5) * 0x100_0000_0000
        + byte_at(s, base + 6) * 0x1_0000_0000_0000 + byte_at(s, base + 7) * 0x100_0000_0000_0000
}

/// The address stored at word-index `j`.
pub open spec fn spec_addr_at(s: Seq<u8>, j: int) -> Address {
    Address {
        w0: spec_word_at(s, j),
        w1: spec_word_at(s, j + 1),
        w2: spec_word_at(s, j + 2),
        w3: spec_word_at(s, j + 3),
    }
}

/// Reads the address at word-index `j`.
pub fn read_addr(s: &[u8], j: usize) -> (r: Address)
    requires
        8 * (j as int) + 40 <= usize::MAX,
    ensures
        r == spec_addr_at(s@, j as int),
{
    Address {
        w0: read_word(s, j),
        w1: read_word(s, j + 1),
        w2: read_word(s, j + 2),
        w3: read_word(s, j + 3),
    }
}

/// The call message parsed at word-index `j` of a stream of `w` words,
/// with the word-index just past it.
#[verifier::opaque]
pub open spec fn spec_parse_call(s: Seq<u8>, j: int, w: int) -> Option<(RuntimeCall, int)> {
    if j >= w {
        None
    } else {
        let tag = spec_word_at(s, j);
        if tag == 1 {
            if j + 15 > w {
                None
            } else {
                Some(
                    (
                        RuntimeCall::Bank(
                            crate::bank::CallMessage::CreateToken {
                                salt: spec_word_at(s, j + 1),
                                token_name: ShortName {
                                    w0: spec_word_at(s, j + 2),
                                    w1: spec_word_at(s, j + 3),
                                    w2: spec_word_at(s, j + 4),
                                    w3: spec_word_at(s, j + 5),
                                },
                                initial_balance: spec_word_at(s, j + 6),
                                minter_address: spec_addr_at(s, j + 7),
                                authorized_minter: spec_addr_at(s, j + 11),
                            },
                        ),
                        j + 15,
                    ),
                )
            }
        } else if tag == 2 {
            if j + 10 > w {
                None
            } else {
                Some(
                    (
                        RuntimeCall::Bank(
                            crate::bank::CallMessage::Transfer {
                                to: spec_addr_at(s, j + 1),
                                coins: Coins {
                                    token_address: spec_addr_at(s, j + 5),
                                    amount: spec_word_at(s, j + 9),
                                },
                            },
                        ),
                        j + 10,
                    ),
                )
            }
        } else if tag == 3 {
            if j + 10 > w {
                None
            } else {
                Some(
                    (
                        RuntimeCall::Bank(
                            crate::bank::CallMessage::Mint {
                                coins: Coins {
                                    token_address: spec_addr_at(s, j + 1),
                                    amount: spec_word_at(s, j + 5),
                                },
                                minter_address: spec_addr_at(s, j + 6),
                            },
                        ),
                        j + 10,
                    ),
                )
            }
        } else if tag == 4 {
            if j + 2 > w || spec_word_at(s, j + 1) > u32::MAX {
                None
            } else {
                Some((RuntimeCall::ValueSetter(spec_word_at(s, j + 1) as u32), j + 2))
            }
        } else if tag == 5 {
            if j + 2 > w {
                None
            } else {
                Some((RuntimeCall::ElectionVote(spec_word_at(s, j + 1)), j + 2))
            }
        } else if tag == 6 {
            Some((RuntimeCall::ElectionFreeze, j + 1))
        } else if tag == 7 {
            if j + 9 > w {
                None
            } else {
                Some(
                    (
                        RuntimeCall::Swap(
                            crate::swap::CallMessage::CreatePool {
                                token_a: spec_addr_at(s, j + 1),
                                token_b: spec_addr_at(s, j + 5),
                            },
                        ),
                        j + 9,
                    ),
                )
            }
        } else if tag == 8 {
            if j + 7 > w {
                None
            } else {
                Some(
                    (
                        RuntimeCall::Swap(
                            crate::swap::CallMessage::AddLiquidity {
                                pool_id: spec_addr_at(s, j + 1),
                                token_a_amount: spec_word_at(s, j + 5),
                                token_b_amount: spec_word_at(s, j + 6),
                            },
                        ),
                        j + 7,
                    ),
                )
            }
        } else if tag == 9 {
            if j + 6 > w {
                None
            } else {
                Some(
                    (
                        RuntimeCall::Swap(
                            crate::swap::CallMessage::RemoveLiquidity {
                                pool_id: spec_addr_at(s, j + 1),
                                liquidity_amount: spec_word_at(s, j + 5),
                            },
                        ),
                        j + 6,
                    ),
                )
            }
        } else if tag == 10 {
            if j + 7 > w {
                None
            } else {
                Some(
                    (
                        RuntimeCall::Swap(
                            crate::swap::CallMessage::Swap {
                                pool_id: spec_addr_at(s, j + 1),
                                token_a_amount: spec_word_at(s, j + 5),
                                token_b_amount: spec_word_at(s, j + 6),
                            },
                        ),
                        j + 7,
                    ),
                )
            }
        } else {
            None
        }
    }
}

/// The transaction parsed at word-index `j`, with the word-index just
/// past it.
#[verifier::opaque]
pub open spec fn spec_parse_tx(s: Seq<u8>, j: int, w: int) -> Option<(Transaction, int)> {
    if j + 9 > w {
        None
    } else {
        match spec_parse_call(s, j + 9, w) {
            Option::None => None,
            Option::Some((call, j2)) => Some(
                (
                    Transaction {
                        pub_key: PubKey {
                            w0: spec_word_at(s, j),
                            w1: spec_word_at(s, j + 1),
                            w2: spec_word_at(s, j + 2),
                            w3: spec_word_at(s, j + 3),
                        },
                        signature: Signature {
                            w0: spec_word_at(s, j + 4),
                            w1: spec_word_at(s, j + 5),
                            w2: spec_word_at(s, j + 6),
                            w3: spec_word_at(s, j + 7),
                        },
                        nonce: spec_word_at(s, j + 8),
                        call,
                    },
                    j2,
                ),
            ),
        }
    }
}

/// `n` transactions parsed from word-index `j` on, in order.
pub open spec fn spec_parse_txs(s: Seq<u8>, j: int, w: int, n: int) -> Option<
    (Seq<Transaction>, int),
>
    decreases n,
{
    if n <= 0 {
        Some((Seq::empty(), j))
    } else {
        match spec_parse_tx(s, j, w) {
            Option::None => None,
            Option::Some((tx, j2)) => match spec_parse_txs(s, j2, w, n - 1) {
                Option::None => None,
                Option::Some((rest, j3)) => Some((seq![tx] + rest, j3)),
            },
        }
    }
}

/// The batch a blob's bytes decode to: a whole number of words, the
/// declared count of transactions, nothing left over.
pub open spec fn spec_decode_batch(s: Seq<u8>) -> Option<Seq<Transaction>> {
    if s.len() % 8 != 0 {
        None
    } else {
        let w = s.len() as int / 8;
        if w < 1 {
            None
        } else {
            let n = spec_word_at(s, 0) as int;
            if n > w {
                None
            } else {
                match spec_parse_txs(s, 1, w, n) {
                    Option::None => None,
                    Option::Some((txs, j)) => if j == w {
                        Some(txs)
                    } else {
                        None
                    },
                }
            }
        }
    }
}

/// Parses the call message at word-index `j`, mirroring
/// [`spec_parse_call`].
fn parse_call(s: &[u8], j: usize, w: usize) -> (r: Option<(RuntimeCall, usize)>)
    requires
        w <= s@.len() / 8 + 1,
        s@.len() <= usize::MAX - 1000,
        j <= w,
    ensures
        match r {
            Option::None => spec_parse_call(s@, j as int, w as int) is None,
            Option::Some((c, j2)) => spec_parse_call(s@, j as int, w as int) == Some(
                (c, j2 as int),
            ) && j <= j2 <= w,
        },
{
    proof {
        reveal(spec_parse_call);
    }
    if j >= w {
        return None;
    }
    let tag = read_word(s, j);
    if tag == 1 {
        if w - j < 15 {
            return None;
        }
        Some(
            (
                RuntimeCall::Bank(
                    crate::bank::CallMessage::CreateToken {
                        salt: read_word(s, j + 1),
                        token_name: ShortName {
                            w0: read_word(s, j + 2),
                            w1: read_word(s, j + 3),
                            w2: read_word(s, j + 4),
                            w3: read_word(s, j + 5),
                        },
                        initial_balance: read_word(s, j + 6),
                        minter_address: read_addr(s, j + 7),
                        authorized_minter: read_addr(s, j + 11),
                    },
                ),
                j + 15,
            ),
        )
    } else if tag == 2 {
        if w - j < 10 {
            return None;
        }
        Some(
            (
                RuntimeCall::Bank(
                    crate::bank::CallMessage::Transfer {
                        to: read_addr(s, j + 1),
                        coins: Coins {
                            token_address: read_addr(s, j + 5),
                            amount: read_word(s, j + 9),
                        },
                    },
                ),
                j + 10,
            ),
        )
    } else if tag == 3 {
        if w - j < 10 {
            return None;
        }
        Some(
            (
                RuntimeCall::Bank(
                    crate::bank::CallMessage::Mint {
                        coins: Coins {
                            token_address: read_addr(s, j + 1),
                            amount: read_word(s, j + 5),
                        },
                        minter_address: read_addr(s, j + 6),
                    },
                ),
                j + 10,
            ),
        )
    } else if tag == 4 {
        if w - j < 2 {
            return None;
        }
        let v = read_word(s, j + 1);
        if v > 0xffff_ffff {
            return None;
        }
        Some((RuntimeCall::ValueSetter(v as u32), j + 2))
    } else if tag == 5 {
        if w - j < 2 {
            return None;
        }
        Some((RuntimeCall::ElectionVote(read_word(s, j + 1)), j + 2))
    } else if tag == 6 {
        Some((RuntimeCall::ElectionFreeze, j + 1))
    } else if tag == 7 {
        if w - j < 9 {
            return None;
        }
        Some(
            (
                RuntimeCall::Swap(
                    crate::swap::CallMessage::CreatePool {
                        token_a: read_addr(s, j + 1),
                        token_b: read_addr(s, j + 5),
                    },
                ),
                j + 9,
            ),
        )
    } else if tag == 8 {
        if w - j < 7 {
            return None;
        }
        Some(
            (
                RuntimeCall::Swap(
                    crate::swap::CallMessage::AddLiquidity {
                        pool_id: read_addr(s, j + 1),
                        token_a_amount: read_word(s, j + 5),
                        token_b_amount: read_word(s, j + 6),
                    },
                ),
                j + 7,
            ),
        )
    } else if tag == 9 {
        if w - j < 6 {
            return None;
        }
        Some(
            (
                RuntimeCall::Swap(
                    crate::swap::CallMessage::RemoveLiquidity {
                        pool_id: read_addr(s, j + 1),
                        liquidity_amount: read_word(s, j + 5),
                    },
                ),
                j + 6,
            ),
        )
    } else if tag == 10 {
        if w - j < 7 {
            return None;
        }
        Some(
            (
                RuntimeCall::Swap(
                    crate::swap::CallMessage::Swap {
                        pool_id: read_addr(s, j + 1),
                        token_a_amount: read_word(s, j + 5),
                        token_b_amount: read_word(s, j + 6),
                    },
                ),
                j + 7,
            ),
        )
    } else {
        None
    }
}

/// Parses the transaction at word-index `j`, mirroring
/// [`spec_parse_tx`].
fn parse_tx(s: &[u8], j: usize, w: usize) -> (r: Option<(Transaction, usize)>)
    requires
        w <= s@.len() / 8 + 1,
        s@.len() <= usize::MAX - 1000,
        j <= w,
    ensures
        match r {
            Option::None => spec_parse_tx(s@, j as int, w as int) is None,
            Option::Some((tx, j2)) => spec_parse_tx(s@, j as int, w as int) == Some(
                (tx, j2 as int),
            ) && j <= j2 <= w,
        },
{
    proof {
        reveal(spec_parse_tx);
    }
    if w - j < 9 {
        return None;
    }
    match parse_call(s, j + 9, w) {
        Option::None => None,
        Option::Some((call, j2)) => Some(
            (
                Transaction {
                    pub_key: PubKey {
                        w0: read_word(s, j),
                        w1: read_word(s, j + 1),
                        w2: read_word(s, j + 2),
                        w3: read_word(s, j + 3),
                    },
                    signature: Signature {
                        w0: read_word(s, j + 4),
                        w1: read_word(s, j + 5),
                        w2: read_word(s, j + 6),
                        w3: read_word(s, j + 7),
                    },
                    nonce: read_word(s, j + 8),
                    call,
                },
                j2,
            ),
        ),
    }
}

/// Decodes a blob's raw bytes into a batch, mirroring
/// [`spec_decode_batch`]: a whole number of words, the declared count
/// of transactions, nothing left over, or nothing at all.
pub fn decode_batch(s: &[u8]) -> (r: Option<Batch>)
    requires
        s@.len() <= usize::MAX - 1000,
    ensures
        match r {
            Option::None => spec_decode_batch(s@) is None,
            Option::Some(batch) => spec_decode_batch(s@) == Some(batch.txs@),
        },
{
    if s.len() % 8 != 0 {
        return None;
    }
    let w = s.len() / 8;
    if w < 1 {
        return None;
    }
    let n = read_word(s, 0);
    if n > w as u64 {
        return None;
    }
    let n_txs = n as usize;
    let mut txs: Vec<Transaction> = Vec::new();
    let mut j: usize = 1;
    let mut remaining: usize = n_txs;
    proof {
        assert(spec_parse_txs(s@, 1, w as int, 0) == Some(
            (Seq::<Transaction>::empty(), 1int),
        ));
    }
    while remaining > 0
        invariant
            s@.len() <= usize::MAX - 1000,
            s@.len() % 8 == 0,
            w == s@.len() / 8,
            w >= 1,
            j <= w,
            remaining <= n_txs,
            n_txs <= w,
            n_txs == spec_word_at(s@, 0),
            spec_parse_txs(s@, 1, w as int, n_txs as int) == match spec_parse_txs(
                s@,
                j as int,
                w as int,
                remaining as int,
            ) {
                Option::None => None::<(Seq<Transaction>, int)>,
                Option::Some((rest, j3)) => Some((txs@ + rest, j3)),
            },
        decreases remaining,
    {
        match parse_tx(s, j, w) {
            Option::None => {
                proof {
                    assert(spec_parse_txs(s@, j as int, w as int, remaining as int) is None);
                    assert(spec_parse_txs(s@, 1, w as int, n_txs as int) is None);
                }
                return None;
            },
            Option::Some((tx, j2)) => {
                let ghost old_txs = txs@;
                txs.push(tx);
                proof {
                    let rem = remaining as int;
                    match spec_parse_txs(s@, j2 as int, w as int, rem - 1) {
                        Option::None => {},
                        Option::Some((rest2, j4)) => {
                            assert(old_txs + (seq![tx] + rest2) =~= (old_txs.push(tx)) + rest2);
                        },
                    }
                }
                j = j2;
                remaining = remaining - 1;
            },
        }
    }
    proof {
        assert(spec_parse_txs(s@, j as int, w as int, 0) == Some((Seq::<Transaction>::empty(), j as int)));
        assert(txs@ + Seq::<Transaction>::empty() =~= txs@);
    }
    if j != w {
        return None;
    }
    Some(Batch { txs })
}

/// The eight little-endian bytes of one word.
#[verifier::opaque]
pub open spec fn spec_le_bytes(x: u64) -> Seq<u8> {
    seq![
        (x & 0xff) as u8,
        ((x >> 8) & 0xff) as u8,
        ((x >> 16) & 0xff) as u8,
        ((x >> 24) & 0xff) as u8,
        ((x >> 32) & 0xff) as u8,
        ((x >> 40) & 0xff) as u8,
        ((x >> 48) & 0xff) as u8,
        ((x >> 56) & 0xff) as u8,
    ]
}

/// A word's encoding is eight bytes long.
pub broadcast proof fn lemma_le_bytes_len(x: u64)
    ensures
        (#[trigger] spec_le_bytes(x)).len() == 8,
{
    reveal(spec_le_bytes);
}

/// The bytes of an address: its four words, in order.
pub open spec fn spec_addr_bytes(a: Address) -> Seq<u8> {
    spec_le_bytes(a.w0) + spec_le_bytes(a.w1) + spec_le_bytes(a.w2) + spec_le_bytes(a.w3)
}

/// The bytes of one call message: its tag word, then its fields.
pub open spec fn spec_call_bytes(call: RuntimeCall) -> Seq<u8> {
    match call {
        RuntimeCall::Bank(m) => match m {
            crate::bank::CallMessage::CreateToken {
                salt,
                token_name,
                initial_balance,
                minter_address,
                authorized_minter,
            } => spec_le_bytes(1) + spec_le_bytes(salt) + spec_le_bytes(token_name.w0)
                + spec_le_bytes(token_name.w1) + spec_le_bytes(token_name.w2) + spec_le_bytes(
                token_name.w3,
            ) + spec_le_bytes(initial_balance) + spec_addr_bytes(minter_address)
                + spec_addr_bytes(authorized_minter),
            crate::bank::CallMessage::Transfer { to, coins } => spec_le_bytes(2)
                + spec_addr_bytes(to) + spec_addr_bytes(coins.token_address) + spec_le_bytes(
                coins.amount,
            ),
            crate::bank::CallMessage::Mint { coins, minter_address } => spec_le_bytes(3)
                + spec_addr_bytes(coins.token_address) + spec_le_bytes(coins.amount)
                + spec_addr_bytes(minter_address),
        },
        RuntimeCall::ValueSetter(v) => spec_le_bytes(4) + spec_le_bytes(v as u64),
        RuntimeCall::ElectionVote(c) => spec_le_bytes(5) + spec_le_bytes(c),
        RuntimeCall::ElectionFreeze => spec_le_bytes(6),
        RuntimeCall::Swap(m) => match m {
            crate::swap::CallMessage::CreatePool { token_a, token_b } => spec_le_bytes(7)
                + spec_addr_bytes(token_a) + spec_addr_bytes(token_b),
            crate::swap::CallMessage::AddLiquidity {
                pool_id,
                token_a_amount,
                token_b_amount,
            } => spec_le_bytes(8) + spec_addr_bytes(pool_id) + spec_le_bytes(token_a_amount)
                + spec_le_bytes(token_b_amount),
            crate::swap::CallMessage::RemoveLiquidity { pool_id, liquidity_amount } => spec_le_bytes(
                9,
            ) + spec_addr_bytes(pool_id) + spec_le_bytes(liquidity_amount),
            crate::swap::CallMessage::Swap { pool_id, token_a_amount, token_b_amount } => spec_le_bytes(
                10,
            ) + spec_addr_bytes(pool_id) + spec_le_bytes(token_a_amount) + spec_le_bytes(
                token_b_amount,
            ),
        },
    }
}

/// The bytes of one transaction: signer key, signature, nonce, call.
pub open spec fn spec_tx_bytes(tx: Transaction) -> Seq<u8> {
    spec_le_bytes(tx.pub_key.w0) + spec_le_bytes(tx.pub_key.w1) + spec_le_bytes(tx.pub_key.w2)
        + spec_le_bytes(tx.pub_key.w3) + spec_le_bytes(tx.signature.w0) + spec_le_bytes(
        tx.signature.w1,
    ) + spec_le_bytes(tx.signature.w2) + spec_le_bytes(tx.signature.w3) + spec_le_bytes(tx.nonce)
        + spec_call_bytes(tx.call)
}

/// The bytes of a transaction sequence, in order.
pub open spec fn spec_txs_bytes(txs: Seq<Transaction>) -> Seq<u8>
    decreases txs.len(),
{
    if txs.len() == 0 {
        Seq::empty()
    } else {
        spec_txs_bytes(txs.drop_last()) + spec_tx_bytes(txs.last())
    }
}

/// The full wire encoding of a batch: the count word, then each
/// transaction's bytes.
pub open spec fn spec_encode_bytes(txs: Seq<Transaction>) -> Seq<u8> {
    spec_le_bytes(txs.len() as u64) + spec_txs_bytes(txs)
}

/// A transaction sequence encodes to a whole number of words.
pub proof fn lemma_txs_bytes_aligned(txs: Seq<Transaction>)
    ensures
        spec_txs_bytes(txs).len() % 8 == 0,
    decreases txs.len(),
{
    broadcast use lemma_le_bytes_len;

    if txs.len() > 0 {
        lemma_txs_bytes_aligned(txs.drop_last());
    }
}

/// Appends a word to the byte stream, little endian.
fn push_word(out: &mut Vec<u8>, x: u64)
    ensures
        final(out)@ == old(out)@ + spec_le_bytes(x),
{
    out.push((x & 0xff) as u8);
    out.push(((x >> 8) & 0xff) as u8);
    out.push(((x >> 16) & 0xff) as u8);
    out.push(((x >> 24) & 0xff) as u8);
    out.push(((x >> 32) & 0xff) as u8);
    out.push(((x >> 40) & 0xff) as u8);
    out.push(((x >> 48) & 0xff) as u8);
    out.push(((x >> 56) & 0xff) as u8);
    proof {
        reveal(spec_le_bytes);
        assert(out@ =~= old(out)@ + spec_le_bytes(x));
    }
}

/// Appends an address to the byte stream.
fn push_addr(out: &mut Vec<u8>, a: &Address)
    ensures
        final(out)@ == old(out)@ + spec_addr_bytes(*a),
{
    broadcast use lemma_le_bytes_len;

    push_word(out, a.w0);
    push_word(out, a.w1);
    push_word(out, a.w2);
    push_word(out, a.w3);
    proof {
        assert(out@ =~= old(out)@ + spec_addr_bytes(*a));
    }
}

/// Encodes a batch into the wire format [`spec_decode_batch`] reads:
/// exactly [`spec_encode_bytes`] of its transactions, a whole number of
/// little-endian words.
#[verifier::rlimit(100)]
pub fn encode_batch(batch: &Batch) -> (r: Vec<u8>)
    requires
        batch.txs@.len() <= 0xffff_ffff,
    ensures
        r@ == spec_encode_bytes(batch.txs@),
        r@.len() % 8 == 0,
{
    broadcast use lemma_le_bytes_len;

    let mut out: Vec<u8> = Vec::new();
    push_word(&mut out, batch.txs.len() as u64);
    proof {
        assert(batch.txs@.subrange(0, 0) =~= Seq::<Transaction>::empty());
        assert(out@ =~= spec_le_bytes(batch.txs@.len() as u64) + spec_txs_bytes(
            batch.txs@.subrange(0, 0),
        ));
    }
    let mut i: usize = 0;
    while i < batch.txs.len()
        invariant
            i <= batch.txs.len(),
            out@ == spec_le_bytes(batch.txs@.len() as u64) + spec_txs_bytes(
                batch.txs@.subrange(0, i as int),
            ),
        decreases batch.txs.len() - i,
    {
        let ghost tx_start = out@;
        let tx = &batch.txs[i];
        push_word(&mut out, tx.pub_key.w0);
        push_word(&mut out, tx.pub_key.w1);
        push_word(&mut out, tx.pub_key.w2);
        push_word(&mut out, tx.pub_key.w3);
        push_word(&mut out, tx.signature.w0);
        push_word(&mut out, tx.signature.w1);
        push_word(&mut out, tx.signature.w2);
        push_word(&mut out, tx.signature.w3);
        push_word(&mut out, tx.nonce);
        match &tx.call {
            RuntimeCall::Bank(msg) => {
                match msg {
                    crate::bank::CallMessage::CreateToken {
                        salt,
                        token_name,
                        initial_balance,
                        minter_address,
                        authorized_minter,
                    } => {
                        push_word(&mut out, 1);
                        push_word(&mut out, *salt);
                        push_word(&mut out, token_name.w0);
                        push_word(&mut out, token_name.w1);
                        push_word(&mut out, token_name.w2);
                        push_word(&mut out, token_name.w3);
                        push_word(&mut out, *initial_balance);
                        push_addr(&mut out, minter_address);
                        push_addr(&mut out, authorized_minter);
                    },
                    crate::bank::CallMessage::Transfer { to, coins } => {
                        push_word(&mut out, 2);
                        push_addr(&mut out, to);
                        push_addr(&mut out, &coins.token_address);
                        push_word(&mut out, coins.amount);
                    },
                    crate::bank::CallMessage::Mint { coins, minter_address } => {
                        push_word(&mut out, 3);
                        push_addr(&mut out, &coins.token_address);
                        push_word(&mut out, coins.amount);
                        push_addr(&mut out, minter_address);
                    },
                }
            },
            RuntimeCall::ValueSetter(v) => {
                push_word(&mut out, 4);
                push_word(&mut out, *v as u64);
            },
            RuntimeCall::ElectionVote(c) => {
                push_word(&mut out, 5);
                push_word(&mut out, *c);
            },
            RuntimeCall::ElectionFreeze => {
                push_word(&mut out, 6);
            },
            RuntimeCall::Swap(msg) => {
                match msg {
                    crate::swap::CallMessage::CreatePool { token_a, token_b } => {
                        push_word(&mut out, 7);
                        push_addr(&mut out, token_a);
                        push_addr(&mut out, token_b);
                    },
                    crate::swap::CallMessage::AddLiquidity {
                        pool_id,
                        token_a_amount,
                        token_b_amount,
                    } => {
                        push_word(&mut out, 8);
                        push_addr(&mut out, pool_id);
                        push_word(&mut out, *token_a_amount);
                        push_word(&mut out, *token_b_amount);
                    },
                    crate::swap::CallMessage::RemoveLiquidity { pool_id, liquidity_amount } => {
                        push_word(&mut out, 9);
                        push_addr(&mut out, pool_id);
                        push_word(&mut out, *liquidity_amount);
                    },
                    crate::swap::CallMessage::Swap {
                        pool_id,
                        token_a_amount,
                        token_b_amount,
                    } => {
                        push_word(&mut out, 10);
                        push_addr(&mut out, pool_id);
                        push_word(&mut out, *token_a_amount);
                        push_word(&mut out, *token_b_amount);
                    },
                }
            },
        }
        proof {
            assert(out@ =~= tx_start + spec_tx_bytes(batch.txs@[i as int]));
            assert(batch.txs@.subrange(0, i + 1).drop_last() =~= batch.txs@.subrange(0, i as int));
            assert(batch.txs@.subrange(0, i + 1).last() == batch.txs@[i as int]);
            assert(out@ =~= spec_le_bytes(batch.txs@.len() as u64) + spec_txs_bytes(
                batch.txs@.subrange(0, i + 1),
            ));
        }
        i = i + 1;
    }
    proof {
        assert(batch.txs@.subrange(0, batch.txs@.len() as int) =~= batch.txs@);
        lemma_txs_bytes_aligned(batch.txs@);
    }
    out
}

} // verus!
