use rollup_runtime::address::generate_address;
use rollup_runtime::address::pack_name;
use rollup_runtime::address::Address;
use rollup_runtime::address::PubKey;
use rollup_runtime::codec::Signature;
use rollup_runtime::codec::Transaction;
use rollup_runtime::election::ElectionConfig;
use rollup_runtime::errors::Error;
use rollup_runtime::runtime::Runtime;
use rollup_runtime::runtime::RuntimeCall;
use rollup_runtime::state::StorageKey;
use rollup_runtime::state::Value;
use rollup_runtime::state::WorkingSet;
use rollup_runtime::stf::apply_tx;
use rollup_runtime::value_setter::Response;
use rollup_runtime::value_setter::ValueSetterConfig;

fn tx(pub_key: PubKey, nonce: u64, call: RuntimeCall) -> Transaction {
    Transaction { pub_key, signature: Signature { w0: 0, w1: 0, w2: 0, w3: 0 }, nonce, call }
}

#[test]
fn pre_hook_rejects_wrong_nonce() {
    let runtime = Runtime::new().unwrap();
    let mut ws = WorkingSet::new(Vec::new());
    let pk = PubKey { w0: 1, w1: 1, w2: 1, w3: 1 };

    // A signer never seen before must start at nonce zero.
    let r = runtime.accounts.pre_dispatch_tx_hook(&pk, 5, &mut ws);
    assert_eq!(r.unwrap_err(), Error::BadNonce);

    let r = runtime.accounts.pre_dispatch_tx_hook(&pk, 0, &mut ws);
    assert_eq!(r.unwrap(), pk.to_address());
}

#[test]
fn post_hook_increments_nonce_by_one() {
    let runtime = Runtime::new().unwrap();
    let mut ws = WorkingSet::new(Vec::new());
    let pk = PubKey { w0: 2, w1: 2, w2: 2, w3: 2 };

    // Before any transaction there is no account to finish.
    let r = runtime.accounts.post_dispatch_tx_hook(&pk, &mut ws);
    assert_eq!(r.unwrap_err(), Error::AccountNotFound);

    runtime.accounts.pre_dispatch_tx_hook(&pk, 0, &mut ws).unwrap();
    runtime.accounts.post_dispatch_tx_hook(&pk, &mut ws).unwrap();
    assert_eq!(runtime.accounts.get_account(&pk, &ws).unwrap().nonce, 1);

    // The old nonce is spent: replaying it fails, the next one passes.
    let r = runtime.accounts.pre_dispatch_tx_hook(&pk, 0, &mut ws);
    assert_eq!(r.unwrap_err(), Error::BadNonce);
    runtime.accounts.pre_dispatch_tx_hook(&pk, 1, &mut ws).unwrap();
}

#[test]
fn executed_transaction_bumps_nonce_failed_one_does_not() {
    let runtime = Runtime::new().unwrap();
    let mut ws = WorkingSet::new(Vec::new());
    let admin = PubKey { w0: 3, w1: 3, w2: 3, w3: 3 };
    runtime
        .value_setter
        .genesis(&ValueSetterConfig { admin: admin.to_address() }, &mut ws)
        .unwrap();

    // Successful dispatch: nonce goes from zero to one.
    assert!(apply_tx(&runtime, &tx(admin, 0, RuntimeCall::ValueSetter(9)), &mut ws));
    assert_eq!(runtime.accounts.get_account(&admin, &ws).unwrap().nonce, 1);
    assert_eq!(runtime.value_setter.query_value(&ws), Response { value: Some(9) });

    // Failed call (not the admin): no nonce movement, no value change.
    let intruder = PubKey { w0: 4, w1: 4, w2: 4, w3: 4 };
    assert!(!apply_tx(&runtime, &tx(intruder, 0, RuntimeCall::ValueSetter(7)), &mut ws));
    assert!(runtime.accounts.get_account(&intruder, &ws).is_none());
    assert_eq!(runtime.value_setter.query_value(&ws), Response { value: Some(9) });

    // Replaying the admin's spent nonce fails and changes nothing.
    assert!(!apply_tx(&runtime, &tx(admin, 0, RuntimeCall::ValueSetter(8)), &mut ws));
    assert_eq!(runtime.accounts.get_account(&admin, &ws).unwrap().nonce, 1);
    assert_eq!(runtime.value_setter.query_value(&ws), Response { value: Some(9) });
}

#[test]
fn set_value_requires_admin() {
    let runtime = Runtime::new().unwrap();
    let mut ws = WorkingSet::new(Vec::new());
    let admin = generate_address(b"value_admin");
    let other = generate_address(b"somebody_else");
    runtime.value_setter.genesis(&ValueSetterConfig { admin }, &mut ws).unwrap();

    let r = runtime.value_setter.set_value(33, &other, &mut ws);
    assert_eq!(r.unwrap_err(), Error::NotAdmin);
    assert_eq!(runtime.value_setter.query_value(&ws), Response { value: None });

    runtime.value_setter.set_value(33, &admin, &mut ws).unwrap();
    assert_eq!(runtime.value_setter.query_value(&ws), Response { value: Some(33) });
    assert_eq!(ws.top_events().len(), 1);
}

#[test]
fn election_rejects_bad_votes_and_freezes() {
    let runtime = Runtime::new().unwrap();
    let mut ws = WorkingSet::new(Vec::new());
    let admin = generate_address(b"election_admin");
    let other = generate_address(b"voter");
    runtime
        .election
        .genesis(
            &ElectionConfig {
                admin,
                candidates: vec![pack_name(b"candidate_1"), pack_name(b"candidate_2")],
            },
            &mut ws,
        )
        .unwrap();

    assert_eq!(
        runtime.election.vote(2, &mut ws).unwrap_err(),
        Error::UnknownCandidate
    );
    runtime.election.vote(1, &mut ws).unwrap();

    assert_eq!(
        runtime.election.freeze_election(&other, &mut ws).unwrap_err(),
        Error::NotAdmin
    );
    runtime.election.freeze_election(&admin, &mut ws).unwrap();

    assert_eq!(
        runtime.election.vote(1, &mut ws).unwrap_err(),
        Error::ElectionFrozen
    );
}

#[test]
fn discarded_scope_rolls_back_writes_and_events() {
    let mut ws = WorkingSet::new(Vec::new());
    let module = generate_address(b"scope_demo");
    let key = StorageKey {
        module,
        field: 1,
        k1: Address { w0: 0, w1: 0, w2: 0, w3: 0 },
        k2: Address { w0: 0, w1: 0, w2: 0, w3: 0 },
    };
    ws.set(key, Value::U64(1));

    ws.open_scope();
    ws.set(key, Value::U64(2));
    assert_eq!(ws.get(key), Some(Value::U64(2)));
    ws.discard_scope();
    assert_eq!(ws.get(key), Some(Value::U64(1)));

    ws.open_scope();
    ws.set(key, Value::U64(3));
    ws.commit_scope();
    assert_eq!(ws.get(key), Some(Value::U64(3)));

    ws.delete(key);
    assert_eq!(ws.get(key), None);
    assert_eq!(ws.get_or_err(key).unwrap_err(), Error::NotFound);
}
