use rollup_runtime::address::generate_address;
use rollup_runtime::address::pack_name;
use rollup_runtime::address::PubKey;
use rollup_runtime::codec::decode_batch;
use rollup_runtime::codec::encode_batch;
use rollup_runtime::codec::Batch;
use rollup_runtime::codec::Signature;
use rollup_runtime::codec::Transaction;
use rollup_runtime::runtime::RuntimeCall;
use rollup_runtime::state::Coins;

fn sample_txs() -> Vec<Transaction> {
    let alice = generate_address(b"alice");
    let bob = generate_address(b"bob");
    vec![
        Transaction {
            pub_key: PubKey { w0: 1, w1: 2, w2: 3, w3: 4 },
            signature: Signature { w0: 9, w1: 8, w2: 7, w3: 6 },
            nonce: 0,
            call: RuntimeCall::Bank(rollup_runtime::bank::CallMessage::CreateToken {
                salt: 5,
                token_name: pack_name(b"Token1"),
                initial_balance: 77,
                minter_address: alice,
                authorized_minter: alice,
            }),
        },
        Transaction {
            pub_key: PubKey { w0: 1, w1: 2, w2: 3, w3: 4 },
            signature: Signature { w0: 0, w1: 0, w2: 0, w3: 0 },
            nonce: 1,
            call: RuntimeCall::Bank(rollup_runtime::bank::CallMessage::Transfer {
                to: bob,
                coins: Coins { token_address: alice, amount: 12 },
            }),
        },
        Transaction {
            pub_key: PubKey { w0: 2, w1: 2, w2: 2, w3: 2 },
            signature: Signature { w0: 0, w1: 0, w2: 0, w3: 0 },
            nonce: 0,
            call: RuntimeCall::ValueSetter(4242),
        },
        Transaction {
            pub_key: PubKey { w0: 3, w1: 3, w2: 3, w3: 3 },
            signature: Signature { w0: 0, w1: 0, w2: 0, w3: 0 },
            nonce: 0,
            call: RuntimeCall::ElectionVote(1),
        },
        Transaction {
            pub_key: PubKey { w0: 3, w1: 3, w2: 3, w3: 3 },
            signature: Signature { w0: 0, w1: 0, w2: 0, w3: 0 },
            nonce: 1,
            call: RuntimeCall::ElectionFreeze,
        },
        Transaction {
            pub_key: PubKey { w0: 4, w1: 4, w2: 4, w3: 4 },
            signature: Signature { w0: 0, w1: 0, w2: 0, w3: 0 },
            nonce: 0,
            call: RuntimeCall::Swap(rollup_runtime::swap::CallMessage::CreatePool {
                token_a: alice,
                token_b: bob,
            }),
        },
        Transaction {
            pub_key: PubKey { w0: 4, w1: 4, w2: 4, w3: 4 },
            signature: Signature { w0: 0, w1: 0, w2: 0, w3: 0 },
            nonce: 1,
            call: RuntimeCall::Swap(rollup_runtime::swap::CallMessage::AddLiquidity {
                pool_id: bob,
                token_a_amount: 10,
                token_b_amount: 20,
            }),
        },
    ]
}

#[test]
fn round_trip_preserves_every_transaction() {
    let batch = Batch { txs: sample_txs() };
    let bytes = encode_batch(&batch);
    assert_eq!(bytes.len() % 8, 0);
    let decoded = decode_batch(&bytes).expect("decode should succeed");
    assert_eq!(decoded.txs, batch.txs);
}

#[test]
fn truncated_input_is_rejected() {
    let batch = Batch { txs: sample_txs() };
    let mut bytes = encode_batch(&batch);
    bytes.pop();
    assert!(decode_batch(&bytes).is_none());
}

#[test]
fn trailing_input_is_rejected() {
    let batch = Batch { txs: sample_txs() };
    let mut bytes = encode_batch(&batch);
    for _ in 0..8 {
        bytes.push(0);
    }
    assert!(decode_batch(&bytes).is_none());
}

#[test]
fn unknown_tag_is_rejected() {
    // One transaction whose call tag is unknown.
    let mut bytes: Vec<u8> = Vec::new();
    let words: [u64; 11] = [1, 10, 11, 12, 13, 0, 0, 0, 0, 0, 99];
    for w in words {
        for k in 0..8 {
            bytes.push(((w >> (8 * k)) & 0xff) as u8);
        }
    }
    assert!(decode_batch(&bytes).is_none());
}

#[test]
fn empty_input_is_rejected() {
    assert!(decode_batch(&[]).is_none());
}
