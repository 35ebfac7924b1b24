use rollup_runtime::address::generate_address;
use rollup_runtime::address::pack_name;
use rollup_runtime::address::Address;
use rollup_runtime::address::PubKey;
use rollup_runtime::address::ShortName;
use rollup_runtime::bank::create_token_address;
use rollup_runtime::bank::BankConfig;
use rollup_runtime::bank::TokenConfig;
use rollup_runtime::codec::encode_batch;
use rollup_runtime::codec::Batch;
use rollup_runtime::codec::Blob;
use rollup_runtime::codec::Signature;
use rollup_runtime::codec::Transaction;
use rollup_runtime::election::ElectionConfig;
use rollup_runtime::election::GetResultResponse;
use rollup_runtime::runtime::GenesisConfig;
use rollup_runtime::runtime::Runtime;
use rollup_runtime::runtime::RuntimeCall;
use rollup_runtime::sequencer_registry::SequencerConfig;
use rollup_runtime::state::CandidateRecord;
use rollup_runtime::state::Coins;
use rollup_runtime::stf::Phase;
use rollup_runtime::stf::SequencerOutcome;
use rollup_runtime::stf::Stf;
use rollup_runtime::swap::SwapModuleConfig;
use rollup_runtime::value_setter::Response;
use rollup_runtime::value_setter::ValueSetterConfig;

const LOCKED_AMOUNT: u64 = 200;

fn value_admin_key() -> PubKey {
    PubKey { w0: 100, w1: 0, w2: 0, w3: 1 }
}

fn election_admin_key() -> PubKey {
    PubKey { w0: 100, w1: 0, w2: 0, w3: 2 }
}

fn voter_key(i: u64) -> PubKey {
    PubKey { w0: 200, w1: i, w2: 0, w3: 0 }
}

fn seq_da_address() -> ShortName {
    pack_name(b"seq_da_addr")
}

fn seq_rollup_address() -> Address {
    generate_address(b"seq_rollup")
}

fn stake_token_address(runtime: &Runtime) -> Address {
    create_token_address(&pack_name(b"stake"), &runtime.bank.address, 0)
}

fn create_demo_config(runtime: &Runtime, locked_balance: u64) -> GenesisConfig {
    GenesisConfig {
        bank: BankConfig {
            tokens: vec![TokenConfig {
                token_name: pack_name(b"stake"),
                salt: 0,
                address_and_balances: vec![(seq_rollup_address(), locked_balance)],
            }],
        },
        sequencer: SequencerConfig {
            seq_da_address: seq_da_address(),
            seq_rollup_address: seq_rollup_address(),
            coins_to_lock: Coins {
                token_address: stake_token_address(runtime),
                amount: LOCKED_AMOUNT,
            },
        },
        value_setter: ValueSetterConfig { admin: value_admin_key().to_address() },
        election: ElectionConfig {
            admin: election_admin_key().to_address(),
            candidates: vec![pack_name(b"candidate_1"), pack_name(b"candidate_2")],
        },
        swap: SwapModuleConfig { pools: vec![] },
    }
}

fn tx(pub_key: PubKey, nonce: u64, call: RuntimeCall) -> Transaction {
    Transaction { pub_key, signature: Signature { w0: 0, w1: 0, w2: 0, w3: 0 }, nonce, call }
}

fn simulate_da() -> Vec<Transaction> {
    vec![
        tx(value_admin_key(), 0, RuntimeCall::ValueSetter(33)),
        tx(voter_key(1), 0, RuntimeCall::ElectionVote(1)),
        tx(voter_key(2), 0, RuntimeCall::ElectionVote(1)),
        tx(voter_key(3), 0, RuntimeCall::ElectionVote(1)),
    ]
}

fn new_test_blob(txs: Vec<Transaction>, sender: ShortName) -> Blob {
    Blob { sender, raw: encode_batch(&Batch { txs }) }
}

fn freeze_blob() -> Blob {
    new_test_blob(
        vec![tx(election_admin_key(), 0, RuntimeCall::ElectionFreeze)],
        seq_da_address(),
    )
}

fn winner_candidate_2() -> GetResultResponse {
    GetResultResponse::Winner(Some(CandidateRecord { name: pack_name(b"candidate_2"), count: 3 }))
}

#[test]
fn test_demo_values_in_db() {
    let runtime = Runtime::new().unwrap();
    let config = create_demo_config(&runtime, LOCKED_AMOUNT + 1);
    let mut demo = Stf::new(runtime);

    demo.init_chain(&config).unwrap();
    demo.begin_slot();

    let receipt = demo.apply_blob(&new_test_blob(simulate_da(), seq_da_address()));
    assert!(
        matches!(receipt.inner, SequencerOutcome::Rewarded(4)),
        "Sequencer execution should have succeeded but failed"
    );
    assert!(!receipt.events.is_empty());

    let freeze_receipt = demo.apply_blob(&freeze_blob());
    assert!(matches!(freeze_receipt.inner, SequencerOutcome::Rewarded(1)));

    demo.end_slot();

    let working_set = demo.open_query();

    let resp = demo.runtime.election.results(&working_set);
    assert_eq!(resp, winner_candidate_2());

    let resp = demo.runtime.value_setter.query_value(&working_set);
    assert_eq!(resp, Response { value: Some(33) });
}

#[test]
fn test_demo_values_not_in_db() {
    let runtime = Runtime::new().unwrap();
    let config = create_demo_config(&runtime, LOCKED_AMOUNT + 1);
    let mut demo = Stf::new(runtime);

    demo.init_chain(&config).unwrap();
    demo.begin_slot();

    let receipt = demo.apply_blob(&new_test_blob(simulate_da(), seq_da_address()));
    assert!(matches!(receipt.inner, SequencerOutcome::Rewarded(4)));
    let freeze_receipt = demo.apply_blob(&freeze_blob());
    assert!(matches!(freeze_receipt.inner, SequencerOutcome::Rewarded(1)));

    // No end_slot: a fresh handle over the store sees none of it.
    let working_set = demo.open_query();

    let resp = demo.runtime.election.results(&working_set);
    assert_eq!(resp, GetResultResponse::NotFrozen);

    let resp = demo.runtime.value_setter.query_value(&working_set);
    assert_eq!(resp, Response { value: None });
}

#[test]
fn test_sequencer_insufficient_funds() {
    let runtime = Runtime::new().unwrap();
    let config = create_demo_config(&runtime, LOCKED_AMOUNT - 1);
    let mut demo = Stf::new(runtime);

    demo.init_chain(&config).unwrap();
    demo.begin_slot();

    let receipt = demo.apply_blob(&new_test_blob(simulate_da(), seq_da_address()));
    assert!(matches!(receipt.inner, SequencerOutcome::Ignored));
    assert!(receipt.events.is_empty());

    demo.end_slot();

    let working_set = demo.open_query();
    let resp = demo.runtime.value_setter.query_value(&working_set);
    assert_eq!(resp, Response { value: None });
    let resp = demo.runtime.election.results(&working_set);
    assert_eq!(resp, GetResultResponse::NotFrozen);
    let stake_token = stake_token_address(&demo.runtime);
    let balance =
        demo.runtime.bank.get_balance_of(seq_rollup_address(), stake_token, &working_set);
    assert_eq!(balance, Some(LOCKED_AMOUNT - 1));
}

#[test]
fn test_wrong_sequencer_is_ignored() {
    let runtime = Runtime::new().unwrap();
    let config = create_demo_config(&runtime, LOCKED_AMOUNT + 1);
    let mut demo = Stf::new(runtime);

    demo.init_chain(&config).unwrap();
    demo.begin_slot();

    let receipt = demo.apply_blob(&new_test_blob(simulate_da(), pack_name(b"impostor")));
    assert!(matches!(receipt.inner, SequencerOutcome::Ignored));
    assert!(receipt.events.is_empty());
}

#[test]
fn test_malformed_blob_is_ignored() {
    let runtime = Runtime::new().unwrap();
    let config = create_demo_config(&runtime, LOCKED_AMOUNT + 1);
    let mut demo = Stf::new(runtime);

    demo.init_chain(&config).unwrap();
    demo.begin_slot();

    let receipt =
        demo.apply_blob(&Blob { sender: seq_da_address(), raw: vec![1, 2, 3] });
    assert!(matches!(receipt.inner, SequencerOutcome::Ignored));
    assert!(receipt.events.is_empty());
}

#[test]
fn test_replayed_batch_executes_nothing() {
    let runtime = Runtime::new().unwrap();
    let config = create_demo_config(&runtime, LOCKED_AMOUNT + 1);
    let mut demo = Stf::new(runtime);

    demo.init_chain(&config).unwrap();
    demo.begin_slot();

    let first = demo.apply_blob(&new_test_blob(simulate_da(), seq_da_address()));
    assert!(matches!(first.inner, SequencerOutcome::Rewarded(4)));

    // Same transactions, same nonces: every one is rejected now.
    let second = demo.apply_blob(&new_test_blob(simulate_da(), seq_da_address()));
    assert!(matches!(second.inner, SequencerOutcome::Rewarded(0)));
    assert!(second.events.is_empty());
}

#[test]
fn test_empty_bonded_blob_is_rewarded_zero() {
    let runtime = Runtime::new().unwrap();
    let config = create_demo_config(&runtime, LOCKED_AMOUNT + 1);
    let mut demo = Stf::new(runtime);

    demo.init_chain(&config).unwrap();
    demo.begin_slot();

    // A bonded, decodable blob with no transactions: the stake is
    // locked and returned, and the outcome is owed to be Rewarded(0).
    let receipt = demo.apply_blob(&new_test_blob(vec![], seq_da_address()));
    assert!(matches!(receipt.inner, SequencerOutcome::Rewarded(0)));
    assert!(receipt.events.is_empty());

    demo.end_slot();
    let working_set = demo.open_query();
    let stake_token = stake_token_address(&demo.runtime);
    let balance =
        demo.runtime.bank.get_balance_of(seq_rollup_address(), stake_token, &working_set);
    assert_eq!(balance, Some(LOCKED_AMOUNT + 1));
}

#[test]
fn test_genesis_overflow_commits_nothing() {
    let runtime = Runtime::new().unwrap();
    let mut config = create_demo_config(&runtime, LOCKED_AMOUNT + 1);
    config.bank.tokens = vec![TokenConfig {
        token_name: pack_name(b"stake"),
        salt: 0,
        address_and_balances: vec![
            (seq_rollup_address(), u64::MAX - 2),
            (generate_address(b"other"), u64::MAX - 2),
        ],
    }];
    let mut demo = Stf::new(runtime);

    let result = demo.init_chain(&config);
    assert!(result.is_err());
    assert_eq!("Total supply overflow", result.unwrap_err().message());
    assert_eq!(demo.phase, Phase::Uninitialized);

    let working_set = demo.open_query();
    let stake_token = stake_token_address(&demo.runtime);
    assert_eq!(demo.runtime.bank.supply_of(stake_token, &working_set).amount, None);
}
