use rollup_runtime::address::generate_address;
use rollup_runtime::address::pack_name;
use rollup_runtime::address::Address;
use rollup_runtime::bank::create_token_address;
use rollup_runtime::bank::Bank;
use rollup_runtime::bank::BankConfig;
use rollup_runtime::bank::CallMessage;
use rollup_runtime::bank::TokenConfig;
use rollup_runtime::errors::Error;
use rollup_runtime::runtime::module_address;
use rollup_runtime::runtime::BANK_TAG;
use rollup_runtime::state::WorkingSet;

fn create_bank_config_with_token(addresses_count: u64, initial_balance: u64) -> BankConfig {
    let mut holders: Vec<(Address, u64)> = Vec::new();
    for i in 0..addresses_count {
        let key = format!("gen_address_{i}");
        holders.push((generate_address(key.as_bytes()), initial_balance));
    }
    BankConfig {
        tokens: vec![TokenConfig {
            token_name: pack_name(b"InitialToken"),
            salt: 0,
            address_and_balances: holders,
        }],
    }
}

#[test]
fn initial_and_deployed_token() {
    let bank_config = create_bank_config_with_token(1, 100);
    let mut working_set = WorkingSet::new(Vec::new());
    let bank = Bank::new(module_address(BANK_TAG));
    bank.genesis(&bank_config, &mut working_set).unwrap();

    let sender_address = generate_address(b"sender");
    let minter_address = generate_address(b"minter");
    let initial_balance = 500;
    let token_name = pack_name(b"Token1");
    let salt = 1;
    let token_address = create_token_address(&token_name, &sender_address, salt);
    let create_token_message = CallMessage::CreateToken {
        salt,
        token_name,
        initial_balance,
        minter_address,
        authorized_minter: minter_address,
    };

    bank.call(create_token_message, &sender_address, &mut working_set)
        .expect("Failed to create token");

    assert!(working_set.top_events().is_empty());

    let sender_balance = bank.get_balance_of(sender_address, token_address, &working_set);
    assert!(sender_balance.is_none());

    let minter_balance = bank.get_balance_of(minter_address, token_address, &working_set);

    assert_eq!(Some(initial_balance), minter_balance);
}

#[test]
fn overflow_max_supply() {
    let bank = Bank::new(module_address(BANK_TAG));
    let mut working_set = WorkingSet::new(Vec::new());

    let bank_config = create_bank_config_with_token(2, u64::MAX - 2);

    let genesis_result = bank.genesis(&bank_config, &mut working_set);
    assert!(genesis_result.is_err());

    assert_eq!(
        "Total supply overflow",
        genesis_result.unwrap_err().message()
    );
}

#[test]
fn transfer_moves_exact_amounts() {
    let bank = Bank::new(module_address(BANK_TAG));
    let mut working_set = WorkingSet::new(Vec::new());
    let alice = generate_address(b"alice");
    let bob = generate_address(b"bob");
    let token_name = pack_name(b"Cash");
    let token = create_token_address(&token_name, &alice, 7);
    bank.call(
        CallMessage::CreateToken {
            salt: 7,
            token_name,
            initial_balance: 1000,
            minter_address: alice,
            authorized_minter: alice,
        },
        &alice,
        &mut working_set,
    )
    .unwrap();
    bank.call(
        CallMessage::Transfer {
            to: bob,
            coins: rollup_runtime::state::Coins { token_address: token, amount: 300 },
        },
        &alice,
        &mut working_set,
    )
    .unwrap();
    assert_eq!(bank.get_balance_of(alice, token, &working_set), Some(700));
    assert_eq!(bank.get_balance_of(bob, token, &working_set), Some(300));

    let too_much = bank.call(
        CallMessage::Transfer {
            to: bob,
            coins: rollup_runtime::state::Coins { token_address: token, amount: 701 },
        },
        &alice,
        &mut working_set,
    );
    assert_eq!(too_much.unwrap_err(), Error::InsufficientFunds);
    assert_eq!(bank.get_balance_of(alice, token, &working_set), Some(700));
}

#[test]
fn mint_requires_authorization() {
    let bank = Bank::new(module_address(BANK_TAG));
    let mut working_set = WorkingSet::new(Vec::new());
    let alice = generate_address(b"alice");
    let mallory = generate_address(b"mallory");
    let token_name = pack_name(b"Gold");
    let token = create_token_address(&token_name, &alice, 0);
    bank.call(
        CallMessage::CreateToken {
            salt: 0,
            token_name,
            initial_balance: 10,
            minter_address: alice,
            authorized_minter: alice,
        },
        &alice,
        &mut working_set,
    )
    .unwrap();

    let forged = bank.call(
        CallMessage::Mint {
            coins: rollup_runtime::state::Coins { token_address: token, amount: 5 },
            minter_address: mallory,
        },
        &mallory,
        &mut working_set,
    );
    assert_eq!(forged.unwrap_err(), Error::NotAuthorizedMinter);

    bank.call(
        CallMessage::Mint {
            coins: rollup_runtime::state::Coins { token_address: token, amount: 5 },
            minter_address: alice,
        },
        &alice,
        &mut working_set,
    )
    .unwrap();
    assert_eq!(bank.get_balance_of(alice, token, &working_set), Some(15));
    assert_eq!(bank.supply_of(token, &working_set).amount, Some(15));
}
