use rollup_runtime::address::generate_address;
use rollup_runtime::address::pack_name;
use rollup_runtime::address::Address;
use rollup_runtime::address::PubKey;
use rollup_runtime::address::ShortName;
use rollup_runtime::bank::create_token_address;
use rollup_runtime::runtime::Runtime;
use rollup_runtime::state::Event;
use rollup_runtime::state::EventData;
use rollup_runtime::state::WorkingSet;
use rollup_runtime::swap::lp_name_of;
use rollup_runtime::swap::pool_id_of;
use rollup_runtime::swap::CallMessage;
use rollup_runtime::swap::SwapModuleConfig;

fn create_pool_event(pool_id: Address, token_a: Address, token_b: Address, lp: Address) -> Event {
    Event {
        key: ShortName { w0: 3, w1: 0, w2: 0, w3: 0 },
        value: EventData { a0: pool_id, a1: token_a, a2: token_b, a3: lp, n0: 0, n1: 0 },
    }
}

fn add_liquidity_event(pool_id: Address) -> Event {
    Event {
        key: ShortName { w0: 4, w1: 0, w2: 0, w3: 0 },
        value: EventData {
            a0: pool_id,
            a1: Address { w0: 0, w1: 0, w2: 0, w3: 0 },
            a2: Address { w0: 0, w1: 0, w2: 0, w3: 0 },
            a3: Address { w0: 0, w1: 0, w2: 0, w3: 0 },
            n0: 0,
            n1: 0,
        },
    }
}

#[test]
fn create_pool() {
    let runtime = Runtime::new().unwrap();
    let swap = runtime.swap;
    let bank = runtime.bank;

    let token_a = generate_address(b"token_a");
    let token_b = generate_address(b"token_b");
    let config = SwapModuleConfig { pools: vec![] };
    let mut working_set = WorkingSet::new(Vec::new());

    let genesis_result = swap.genesis(&config, &mut working_set);
    assert!(genesis_result.is_ok());

    let create_pool_message = CallMessage::CreatePool { token_a, token_b };

    let create_pool_result = swap.call(&bank, create_pool_message, &token_a, &mut working_set);

    assert!(create_pool_result.is_ok());

    let pool_id = pool_id_of(&token_a, &token_b);

    let liquidity_token = create_token_address(&lp_name_of(&token_a, &token_b), &swap.address, 0);

    assert_eq!(
        working_set.top_events()[0],
        create_pool_event(pool_id, token_a, token_b, liquidity_token)
    );

    let create_pool_result = swap.call(&bank, create_pool_message, &token_a, &mut working_set);

    assert!(create_pool_result.is_err());
    let error_message = create_pool_result.err().unwrap().message();
    assert_eq!("Pool already exists", error_message);
}

#[test]
fn add_liquidity() {
    let runtime = Runtime::new().unwrap();
    let swap = runtime.swap;
    let bank = runtime.bank;
    let empty_bank_config = rollup_runtime::bank::BankConfig { tokens: vec![] };
    let mut working_set = WorkingSet::new(Vec::new());
    bank.genesis(&empty_bank_config, &mut working_set).unwrap();

    let config = SwapModuleConfig { pools: vec![] };
    swap.genesis(&config, &mut working_set).unwrap();

    let private_key = PubKey { w0: 11, w1: 22, w2: 33, w3: 44 };
    let default_address = private_key.to_address();

    let create_token_a_message = rollup_runtime::bank::CallMessage::CreateToken {
        salt: 0,
        token_name: pack_name(b"TokenA"),
        initial_balance: 100,
        minter_address: default_address,
        authorized_minter: default_address,
    };
    let token_a_response = bank.call(create_token_a_message, &default_address, &mut working_set);
    assert!(token_a_response.is_ok());
    let token_a_address = create_token_address(&pack_name(b"TokenA"), &default_address, 0);

    let create_token_b_message = rollup_runtime::bank::CallMessage::CreateToken {
        salt: 0,
        token_name: pack_name(b"TokenB"),
        initial_balance: 100,
        minter_address: default_address,
        authorized_minter: default_address,
    };
    let token_b_response = bank.call(create_token_b_message, &default_address, &mut working_set);
    assert!(token_b_response.is_ok());
    let token_b_address = create_token_address(&pack_name(b"TokenB"), &default_address, 0);

    let create_pool_message =
        CallMessage::CreatePool { token_a: token_a_address, token_b: token_b_address };

    let create_pool_result = swap.call(&bank, create_pool_message, &token_a_address, &mut working_set);

    assert!(create_pool_result.is_ok());

    let pool_id = pool_id_of(&token_a_address, &token_b_address);

    let liquidity_token =
        create_token_address(&lp_name_of(&token_a_address, &token_b_address), &swap.address, 0);

    assert_eq!(
        working_set.top_events()[0],
        create_pool_event(pool_id, token_a_address, token_b_address, liquidity_token)
    );

    let add_liquidity_message =
        CallMessage::AddLiquidity { pool_id, token_a_amount: 100, token_b_amount: 50 };

    let add_liquidity_result =
        swap.call(&bank, add_liquidity_message, &default_address, &mut working_set);

    if add_liquidity_result.is_err() {
        println!(
            "add_liquidity_result: {:?}",
            add_liquidity_result.err().unwrap().message()
        );
    }

    assert_eq!(working_set.top_events()[1], add_liquidity_event(pool_id));

    let liquidity_token_balance =
        bank.balance_of(default_address, liquidity_token, &working_set);
    let liquidity_token_balance = liquidity_token_balance.amount.unwrap_or(0);

    assert_eq!(liquidity_token_balance, ((100 * 50) as f64).sqrt() as u64);
}

#[test]
fn swap() {
    let runtime = Runtime::new().unwrap();
    let swap = runtime.swap;
    let bank = runtime.bank;
    let empty_bank_config = rollup_runtime::bank::BankConfig { tokens: vec![] };
    let mut working_set = WorkingSet::new(Vec::new());
    bank.genesis(&empty_bank_config, &mut working_set).unwrap();

    let config = SwapModuleConfig { pools: vec![] };
    swap.genesis(&config, &mut working_set).unwrap();

    let private_key = PubKey { w0: 5, w1: 6, w2: 7, w3: 8 };
    let default_address = private_key.to_address();

    let create_token_a_message = rollup_runtime::bank::CallMessage::CreateToken {
        salt: 0,
        token_name: pack_name(b"TokenA"),
        initial_balance: 1000,
        minter_address: default_address,
        authorized_minter: default_address,
    };
    let token_a_response = bank.call(create_token_a_message, &default_address, &mut working_set);
    assert!(token_a_response.is_ok());
    let token_a_address = create_token_address(&pack_name(b"TokenA"), &default_address, 0);

    let create_token_b_message = rollup_runtime::bank::CallMessage::CreateToken {
        salt: 0,
        token_name: pack_name(b"TokenB"),
        initial_balance: 1000,
        minter_address: default_address,
        authorized_minter: default_address,
    };
    let token_b_response = bank.call(create_token_b_message, &default_address, &mut working_set);
    assert!(token_b_response.is_ok());
    let token_b_address = create_token_address(&pack_name(b"TokenB"), &default_address, 0);

    let create_pool_message =
        CallMessage::CreatePool { token_a: token_a_address, token_b: token_b_address };

    let create_pool_result =
        swap.call(&bank, create_pool_message, &default_address, &mut working_set);

    assert!(create_pool_result.is_ok());

    let pool_id = pool_id_of(&token_a_address, &token_b_address);

    let liquidity_token =
        create_token_address(&lp_name_of(&token_a_address, &token_b_address), &swap.address, 0);
    assert_eq!(
        working_set.top_events()[0],
        create_pool_event(pool_id, token_a_address, token_b_address, liquidity_token)
    );

    let add_liquidity_message =
        CallMessage::AddLiquidity { pool_id, token_a_amount: 100, token_b_amount: 200 };

    let add_liquidity_result =
        swap.call(&bank, add_liquidity_message, &default_address, &mut working_set);
    assert!(add_liquidity_result.is_ok());

    assert_eq!(working_set.top_events()[1], add_liquidity_event(pool_id));

    let swap_message = CallMessage::Swap { pool_id, token_a_amount: 100, token_b_amount: 0 };

    let swap_result = swap.call(&bank, swap_message, &default_address, &mut working_set);

    assert_eq!(
        working_set.top_events()[2],
        Event {
            key: ShortName { w0: 5, w1: 0, w2: 0, w3: 0 },
            value: EventData {
                a0: pool_id,
                a1: default_address,
                a2: token_a_address,
                a3: token_b_address,
                n0: 100,
                n1: 200,
            },
        }
    );

    if swap_result.is_err() {
        println!("swap_result: {:?}", swap_result.err().unwrap().message());
    }
}
