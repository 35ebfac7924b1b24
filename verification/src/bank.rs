//! The token ledger module.
//!
//! The bank owns every token's record, every holder's balance of every
//! token, and the set of authorized minters per token.  It is the
//! fund-transfer capability the sequencer registry and the swap module
//! build on.

use vstd::prelude::*;

use crate::address::Address;
use crate::address::ShortName;
use crate::address::HASH_BASIS;
use crate::address::spec_fold_words;
use crate::address::spec_mix;
use crate::address::fold_words;
use crate::address::mix;
use crate::errors::Error;
use crate::state::Coins;
use crate::state::StorageKey;
use crate::state::TokenRecord;
use crate::state::Value;
use crate::state::WorkingSet;

verus! {

/// Field identifier of the token records inside the bank's namespace.
pub const TOKENS_FIELD: u64 = 1;

/// Field identifier of the balances inside the bank's namespace.
pub const BALANCES_FIELD: u64 = 2;

/// Field identifier of the authorized-minter flags.
pub const AUTH_MINTERS_FIELD: u64 = 3;

/// The deterministic address a token gets from its name, the creator's
/// address and a salt.
pub open spec fn spec_create_token_address(name: ShortName, sender: Address, salt: u64) -> Address {
    let h = spec_fold_words(
        HASH_BASIS,
        seq![
            name.w0,
            name.w1,
            name.w2,
            name.w3,
            sender.w0,
            sender.w1,
            sender.w2,
            sender.w3,
            salt,
        ],
    );
    Address { w0: spec_mix(h, 1), w1: spec_mix(h, 2), w2: spec_mix(h, 3), w3: spec_mix(h, 4) }
}

/// Derives the address of a token from its name, the creator's address
/// and a salt.
pub fn create_token_address(name: &ShortName, sender: &Address, salt: u64) -> (r: Address)
    ensures
        r == spec_create_token_address(*name, *sender, salt),
{
    let words: [u64; 9] = [
        name.w0,
        name.w1,
        name.w2,
        name.w3,
        sender.w0,
        sender.w1,
        sender.w2,
        sender.w3,
        salt,
    ];
    let h = fold_words(HASH_BASIS, words.as_slice());
    proof {
        assert(words@ =~= seq![
            name.w0,
            name.w1,
            name.w2,
            name.w3,
            sender.w0,
            sender.w1,
            sender.w2,
            sender.w3,
            salt,
        ]);
    }
    Address { w0: mix(h, 1), w1: mix(h, 2), w2: mix(h, 3), w3: mix(h, 4) }
}

/// Genesis configuration of one token: its name, its address salt and
/// the initial holders with their balances.
pub struct TokenConfig {
    pub token_name: ShortName,
    pub salt: u64,
    pub address_and_balances: Vec<(Address, u64)>,
}

/// Genesis configuration of the bank: the initial tokens, in order.
pub struct BankConfig {
    pub tokens: Vec<TokenConfig>,
}

/// The queried total supply of a token; `None` when no such token
/// exists.
#[derive(Clone, Copy, PartialEq, Eq, Structural, Debug)]
pub struct TotalSupplyResponse {
    pub amount: Option<u64>,
}

/// The queried balance of one holder; `None` when the holder has no
/// balance entry for the token.
#[derive(Clone, Copy, PartialEq, Eq, Structural, Debug)]
pub struct BalanceResponse {
    pub amount: Option<u64>,
}

/// Whether `m` occurs among the first `n` entries of `s`.
pub open spec fn in_prefix(s: Seq<Address>, n: int, m: Address) -> bool {
    exists|j: int| 0 <= j < n && s[j] == m
}

/// Growing the prefix by one entry adds exactly that entry.
pub proof fn lemma_in_prefix_step(s: Seq<Address>, i: int, m: Address)
    requires
        0 <= i < s.len(),
    ensures
        in_prefix(s, i + 1, m) <==> (in_prefix(s, i, m) || s[i] == m),
{
    if in_prefix(s, i + 1, m) {
        let j = choose|j: int| 0 <= j < i + 1 && s[j] == m;
        if j < i {
            assert(in_prefix(s, i, m));
        }
    }
    if in_prefix(s, i, m) {
        let j = choose|j: int| 0 <= j < i && s[j] == m;
        assert(0 <= j < i + 1 && s[j] == m);
    }
    if s[i] == m {
        assert(0 <= i < i + 1 && s[i] == m);
    }
}

/// The full prefix is ordinary membership.
pub proof fn lemma_in_prefix_full(s: Seq<Address>, m: Address)
    ensures
        in_prefix(s, s.len() as int, m) <==> s.contains(m),
{
}

/// The sum of the configured initial balances, as an unbounded integer.
pub open spec fn spec_supply_sum(pairs: Seq<(Address, u64)>) -> int
    decreases pairs.len(),
{
    if pairs.len() == 0 {
        0
    } else {
        spec_supply_sum(pairs.drop_last()) + pairs.last().1
    }
}

/// A prefix of the balances never sums to more than the whole.
pub proof fn lemma_supply_sum_prefix_le(pairs: Seq<(Address, u64)>, n: int)
    requires
        0 <= n <= pairs.len(),
    ensures
        spec_supply_sum(pairs.subrange(0, n)) <= spec_supply_sum(pairs),
    decreases pairs.len() - n,
{
    if n == pairs.len() {
        assert(pairs.subrange(0, n) =~= pairs);
    } else {
        assert(pairs.subrange(0, n + 1).drop_last() =~= pairs.subrange(0, n));
        assert(pairs.subrange(0, n + 1).last() == pairs[n]);
        lemma_supply_sum_prefix_le(pairs, n + 1);
    }
}

/// No two of the configured holders of one token coincide.
pub open spec fn spec_pairs_distinct(pairs: Seq<(Address, u64)>) -> bool {
    forall|j1: int, j2: int| 0 <= j1 < j2 < pairs.len() ==> pairs[j1].0 != pairs[j2].0
}

/// The configured total supply of the token at `i`.
pub open spec fn spec_sum_at(tokens: Seq<TokenConfig>, i: int) -> int {
    spec_supply_sum(tokens[i].address_and_balances@)
}

/// The first `n` configured tokens all have a representable supply.
pub open spec fn spec_sums_ok(tokens: Seq<TokenConfig>, n: int) -> bool {
    forall|i: int| 0 <= i < n ==> #[trigger] spec_sum_at(tokens, i) <= u64::MAX
}

/// Every configured token has a representable supply: genesis succeeds
/// exactly then.
pub open spec fn spec_genesis_ok(tokens: Seq<TokenConfig>) -> bool {
    spec_sums_ok(tokens, tokens.len() as int)
}

/// The available call messages of the bank.
#[derive(Clone, Copy, PartialEq, Eq, Structural, Debug)]
pub enum CallMessage {
    CreateToken {
        salt: u64,
        token_name: ShortName,
        initial_balance: u64,
        minter_address: Address,
        authorized_minter: Address,
    },
    Transfer { to: Address, coins: Coins },
    Mint { coins: Coins, minter_address: Address },
}

/// The token ledger module.
pub struct Bank {
    /// The module's own address; prefix of every key it owns.
    pub address: Address,
}

impl Bank {
    /// The key of a token's record.
    pub open spec fn token_key(self, token: Address) -> StorageKey {
        StorageKey {
            module: self.address,
            field: TOKENS_FIELD,
            k1: token,
            k2: Address::spec_zero(),
        }
    }

    /// The key of a holder's balance of a token.
    pub open spec fn balance_key(self, token: Address, holder: Address) -> StorageKey {
        StorageKey { module: self.address, field: BALANCES_FIELD, k1: token, k2: holder }
    }

    /// The key of a minter's authorization flag for a token.
    pub open spec fn auth_key(self, token: Address, minter: Address) -> StorageKey {
        StorageKey { module: self.address, field: AUTH_MINTERS_FIELD, k1: token, k2: minter }
    }

    /// Every key the bank owns.
    pub open spec fn keyset(self) -> Set<StorageKey> {
        Set::new(|k: StorageKey| k.module == self.address)
    }

    /// Every key of one token: its record, balances and minter flags.
    pub open spec fn token_keyset(self, token: Address) -> Set<StorageKey> {
        Set::new(|k: StorageKey| k.module == self.address && k.k1 == token)
    }

    /// The token record the working set shows, if any.
    pub open spec fn spec_token(self, ws: WorkingSet, token: Address) -> Option<TokenRecord> {
        match ws.val(self.token_key(token)) {
            Option::Some(Value::Token(t)) => Some(t),
            _ => None,
        }
    }

    /// The balance entry the working set shows, if any.
    pub open spec fn spec_balance(self, ws: WorkingSet, token: Address, holder: Address) -> Option<
        u64,
    > {
        match ws.val(self.balance_key(token, holder)) {
            Option::Some(Value::U64(b)) => Some(b),
            _ => None,
        }
    }

    /// The balance the working set shows, a missing entry reading as
    /// zero.
    pub open spec fn spec_bal0(self, ws: WorkingSet, token: Address, holder: Address) -> u64 {
        match self.spec_balance(ws, token, holder) {
            Option::Some(b) => b,
            Option::None => 0,
        }
    }

    /// Whether the working set records `minter` as authorized for
    /// `token`.
    pub open spec fn spec_authorized(self, ws: WorkingSet, token: Address, minter: Address) -> bool {
        ws.val(self.auth_key(token, minter)) == Some(Value::Flag(true))
    }

    /// The only keys creating a token writes: its record, the minter's
    /// balance entry, and one authorization flag per listed minter.
    pub open spec fn created_keys(
        self,
        token: Address,
        minter: Address,
        minters: Seq<Address>,
    ) -> Set<StorageKey> {
        Set::new(
            |k: StorageKey|
                k == self.token_key(token) || k == self.balance_key(token, minter) || (k.module
                    == self.address && k.field == AUTH_MINTERS_FIELD && k.k1 == token
                    && minters.contains(k.k2)),
        )
    }

    /// The authorization flags of `token` in `ws` are those of `pre`
    /// plus the first `n` entries of `s`.
    pub open spec fn spec_minters_match(
        self,
        ws: WorkingSet,
        pre: WorkingSet,
        token: Address,
        s: Seq<Address>,
        n: int,
    ) -> bool {
        forall|m: Address|
            #![trigger self.spec_authorized(ws, token, m)]
            self.spec_authorized(ws, token, m) == (in_prefix(s, n, m) || self.spec_authorized(
                pre,
                token,
                m,
            ))
    }

    /// The address the genesis token at `i` gets; the bank itself acts
    /// as the creator of genesis tokens.
    pub open spec fn spec_cfg_addr(self, tokens: Seq<TokenConfig>, i: int) -> Address {
        spec_create_token_address(tokens[i].token_name, self.address, tokens[i].salt)
    }

    /// Distinct genesis token addresses, and distinct holders within
    /// each token: a well-formed bank configuration.
    pub open spec fn spec_bank_cfg_wf(self, tokens: Seq<TokenConfig>) -> bool {
        &&& forall|i1: int, i2: int|
            0 <= i1 < i2 < tokens.len() ==> self.spec_cfg_addr(tokens, i1) != self.spec_cfg_addr(
                tokens,
                i2,
            )
        &&& forall|i: int|
            0 <= i < tokens.len() ==> spec_pairs_distinct(
                #[trigger] tokens[i].address_and_balances@,
            )
    }

    /// The first `n` balances of `pairs` are installed for `token`.
    pub open spec fn spec_bal_prefix(
        self,
        ws: WorkingSet,
        token: Address,
        pairs: Seq<(Address, u64)>,
        n: int,
    ) -> bool {
        forall|j: int|
            #![trigger self.spec_balance(ws, token, pairs[j].0)]
            0 <= j < n ==> self.spec_balance(ws, token, pairs[j].0) == Some(pairs[j].1)
    }

    /// The genesis token at `i` is fully installed in `ws`: its record
    /// shows the configured supply and each configured holder has its
    /// configured balance.
    pub open spec fn spec_installed_at(self, ws: WorkingSet, tokens: Seq<TokenConfig>, i: int) -> bool {
        &&& self.spec_token(ws, self.spec_cfg_addr(tokens, i)) == Some(
            TokenRecord { total_supply: spec_sum_at(tokens, i) as u64 },
        )
        &&& self.spec_bal_prefix(
            ws,
            self.spec_cfg_addr(tokens, i),
            tokens[i].address_and_balances@,
            tokens[i].address_and_balances@.len() as int,
        )
    }

    /// The first `n` genesis tokens are fully installed in `ws`.
    pub open spec fn spec_installed_upto(self, ws: WorkingSet, tokens: Seq<TokenConfig>, n: int) -> bool {
        forall|i: int| 0 <= i < n ==> #[trigger] self.spec_installed_at(ws, tokens, i)
    }

    /// Whether a transfer can succeed: the payer covers the amount, and
    /// the receiving balance does not overflow.
    pub open spec fn spec_can_transfer(
        self,
        ws: WorkingSet,
        from: Address,
        to: Address,
        coins: Coins,
    ) -> bool {
        &&& self.spec_bal0(ws, coins.token_address, from) >= coins.amount
        &&& (from == to || self.spec_bal0(ws, coins.token_address, to) + coins.amount
            <= u64::MAX)
    }

    /// A bank whose namespace starts at `address`.
    pub fn new(address: Address) -> (r: Bank)
        ensures
            r.address == address,
    {
        Bank { address }
    }

    /// Reads a token's record.
    pub fn get_token(&self, token: &Address, ws: &WorkingSet) -> (r: Option<TokenRecord>)
        requires
            ws.wf(),
        ensures
            r == self.spec_token(*ws, *token),
    {
        let key = StorageKey {
            module: self.address,
            field: TOKENS_FIELD,
            k1: *token,
            k2: Address::zero(),
        };
        match ws.get(key) {
            Option::Some(Value::Token(t)) => Some(t),
            _ => None,
        }
    }

    /// Reads a holder's balance entry of a token.
    pub fn get_balance_of(&self, holder: Address, token: Address, ws: &WorkingSet) -> (r: Option<
        u64,
    >)
        requires
            ws.wf(),
        ensures
            r == self.spec_balance(*ws, token, holder),
    {
        let key = StorageKey { module: self.address, field: BALANCES_FIELD, k1: token, k2: holder };
        match ws.get(key) {
            Option::Some(Value::U64(b)) => Some(b),
            _ => None,
        }
    }

    /// Query form of [`Self::get_balance_of`].
    pub fn balance_of(&self, holder: Address, token: Address, ws: &WorkingSet) -> (r:
        BalanceResponse)
        requires
            ws.wf(),
        ensures
            r.amount == self.spec_balance(*ws, token, holder),
    {
        BalanceResponse { amount: self.get_balance_of(holder, token, ws) }
    }

    /// Queries a token's total supply; `None` when the token does not
    /// exist.
    pub fn supply_of(&self, token: Address, ws: &WorkingSet) -> (r: TotalSupplyResponse)
        requires
            ws.wf(),
        ensures
            r.amount == match self.spec_token(*ws, token) {
                Option::Some(t) => Some(t.total_supply),
                Option::None => None::<u64>,
            },
    {
        match self.get_token(&token, ws) {
            Option::Some(t) => TotalSupplyResponse { amount: Some(t.total_supply) },
            Option::None => TotalSupplyResponse { amount: None },
        }
    }

    /// Moves `coins` from `from` to `to`.  Succeeds if and only if the
    /// payer's balance covers the amount and the receiving balance does
    /// not overflow; on failure nothing is written.
    pub fn transfer_from(
        &self,
        from: &Address,
        to: &Address,
        coins: Coins,
        ws: &mut WorkingSet,
    ) -> (r: Result<(), Error>)
        requires
            old(ws).wf(),
        ensures
            final(ws).wf(),
            r is Ok <==> self.spec_can_transfer(*old(ws), *from, *to, coins),
            WorkingSet::ws_effect(
                *old(ws),
                *final(ws),
                set![
                    self.balance_key(coins.token_address, *from),
                    self.balance_key(coins.token_address, *to),
                ],
            ),
            final(ws).top().events@ == old(ws).top().events@,
            r is Err ==> final(ws).top().writes@ == old(ws).top().writes@,
            r is Err ==> WorkingSet::ws_effect(*old(ws), *final(ws), Set::empty()),
            r is Ok && from != to ==> self.spec_balance(*final(ws), coins.token_address, *from)
                == Some((self.spec_bal0(*old(ws), coins.token_address, *from) - coins.amount) as u64),
            r is Ok && from != to ==> self.spec_balance(*final(ws), coins.token_address, *to)
                == Some((self.spec_bal0(*old(ws), coins.token_address, *to) + coins.amount) as u64),
            r is Ok && from == to ==> final(ws).top().writes@ == old(ws).top().writes@
                && WorkingSet::ws_effect(*old(ws), *final(ws), Set::empty()),
    {
        let ghost pre = *ws;
        let from_bal = match self.get_balance_of(*from, coins.token_address, ws) {
            Option::Some(b) => b,
            Option::None => 0,
        };
        if from_bal < coins.amount {
            proof {
                WorkingSet::lemma_ws_effect_refl(pre);
            }
            return Err(Error::InsufficientFunds);
        }
        if from == to {
            proof {
                WorkingSet::lemma_ws_effect_refl(pre);
            }
            return Ok(());
        }
        let to_bal = match self.get_balance_of(*to, coins.token_address, ws) {
            Option::Some(b) => b,
            Option::None => 0,
        };
        if coins.amount > u64::MAX - to_bal {
            proof {
                WorkingSet::lemma_ws_effect_refl(pre);
            }
            return Err(Error::BalanceOverflow);
        }
        let from_key = StorageKey {
            module: self.address,
            field: BALANCES_FIELD,
            k1: coins.token_address,
            k2: *from,
        };
        let to_key = StorageKey {
            module: self.address,
            field: BALANCES_FIELD,
            k1: coins.token_address,
            k2: *to,
        };
        ws.set(from_key, Value::U64(from_bal - coins.amount));
        let ghost mid = *ws;
        ws.set(to_key, Value::U64(to_bal + coins.amount));
        proof {
            assert(pre.top().writes@.is_prefix_of(mid.top().writes@));
            assert(mid.top().writes@.is_prefix_of(ws.top().writes@));
            assert(pre.top().writes@.is_prefix_of(ws.top().writes@));
            assert(pre.top().events@.is_prefix_of(ws.top().events@));
        }
        Ok(())
    }

    /// Mints `coins` to `recipient`.  Succeeds if and only if the token
    /// exists, `sender` is one of its authorized minters, and neither
    /// the total supply nor the recipient's balance overflows; on
    /// failure nothing is written.
    pub fn mint(
        &self,
        coins: Coins,
        recipient: &Address,
        sender: &Address,
        ws: &mut WorkingSet,
    ) -> (r: Result<(), Error>)
        requires
            old(ws).wf(),
        ensures
            final(ws).wf(),
            r is Ok <==> (self.spec_token(*old(ws), coins.token_address) is Some
                && self.spec_authorized(*old(ws), coins.token_address, *sender)
                && self.spec_token(*old(ws), coins.token_address).unwrap().total_supply
                    + coins.amount <= u64::MAX
                && self.spec_bal0(*old(ws), coins.token_address, *recipient) + coins.amount
                    <= u64::MAX),
            WorkingSet::ws_effect(
                *old(ws),
                *final(ws),
                set![
                    self.token_key(coins.token_address),
                    self.balance_key(coins.token_address, *recipient),
                ],
            ),
            final(ws).top().events@ == old(ws).top().events@,
            r is Err ==> final(ws).top().writes@ == old(ws).top().writes@,
            r is Err ==> WorkingSet::ws_effect(*old(ws), *final(ws), Set::empty()),
            r is Ok ==> self.spec_token(*final(ws), coins.token_address) == Some(
                TokenRecord {
                    total_supply: (self.spec_token(*old(ws), coins.token_address).unwrap()
                        .total_supply + coins.amount) as u64,
                },
            ),
            r is Ok ==> self.spec_balance(*final(ws), coins.token_address, *recipient) == Some(
                (self.spec_bal0(*old(ws), coins.token_address, *recipient) + coins.amount) as u64,
            ),
            r is Ok ==> forall|m: Address|
                self.spec_authorized(*final(ws), coins.token_address, m) == self.spec_authorized(
                    *old(ws),
                    coins.token_address,
                    m,
                ),
    {
        let ghost pre = *ws;
        let token = match self.get_token(&coins.token_address, ws) {
            Option::Some(t) => t,
            Option::None => {
                proof {
                    WorkingSet::lemma_ws_effect_refl(pre);
                }
                return Err(Error::TokenNotFound);
            },
        };
        let auth_key = StorageKey {
            module: self.address,
            field: AUTH_MINTERS_FIELD,
            k1: coins.token_address,
            k2: *sender,
        };
        let authorized = match ws.get(auth_key) {
            Option::Some(Value::Flag(true)) => true,
            _ => false,
        };
        if !authorized {
            proof {
                WorkingSet::lemma_ws_effect_refl(pre);
            }
            return Err(Error::NotAuthorizedMinter);
        }
        if coins.amount > u64::MAX - token.total_supply {
            proof {
                WorkingSet::lemma_ws_effect_refl(pre);
            }
            return Err(Error::SupplyOverflow);
        }
        let bal = match self.get_balance_of(*recipient, coins.token_address, ws) {
            Option::Some(b) => b,
            Option::None => 0,
        };
        if coins.amount > u64::MAX - bal {
            proof {
                WorkingSet::lemma_ws_effect_refl(pre);
            }
            return Err(Error::BalanceOverflow);
        }
        let token_key = StorageKey {
            module: self.address,
            field: TOKENS_FIELD,
            k1: coins.token_address,
            k2: Address::zero(),
        };
        let bal_key = StorageKey {
            module: self.address,
            field: BALANCES_FIELD,
            k1: coins.token_address,
            k2: *recipient,
        };
        ws.set(token_key, Value::Token(TokenRecord { total_supply: token.total_supply + coins.amount }));
        let ghost mid = *ws;
        ws.set(bal_key, Value::U64(bal + coins.amount));
        proof {
            assert(pre.top().writes@.is_prefix_of(mid.top().writes@));
            assert(mid.top().writes@.is_prefix_of(ws.top().writes@));
            assert(pre.top().writes@.is_prefix_of(ws.top().writes@));
            assert(pre.top().events@.is_prefix_of(ws.top().events@));
        }
        Ok(())
    }

    /// Creates a new token whose address derives from `name`, the
    /// caller `sender` and `salt`.  Succeeds if and only if no token
    /// with that address exists yet; the minter receives the initial
    /// balance, and each listed address becomes an authorized minter.
    /// No event is added.
    pub fn create_token(
        &self,
        salt: u64,
        name: &ShortName,
        initial_balance: u64,
        minter_address: &Address,
        authorized_minters: &Vec<Address>,
        sender: &Address,
        ws: &mut WorkingSet,
    ) -> (r: Result<Address, Error>)
        requires
            old(ws).wf(),
        ensures
            final(ws).wf(),
            r is Ok <==> self.spec_token(
                *old(ws),
                spec_create_token_address(*name, *sender, salt),
            ) is None,
            r is Ok ==> r == Ok::<Address, Error>(spec_create_token_address(*name, *sender, salt)),
            WorkingSet::ws_effect(
                *old(ws),
                *final(ws),
                self.created_keys(
                    spec_create_token_address(*name, *sender, salt),
                    *minter_address,
                    authorized_minters@,
                ),
            ),
            final(ws).top().events@ == old(ws).top().events@,
            r is Err ==> final(ws).top().writes@ == old(ws).top().writes@
                && WorkingSet::ws_effect(*old(ws), *final(ws), Set::empty()),
            r is Ok ==> self.spec_token(
                *final(ws),
                spec_create_token_address(*name, *sender, salt),
            ) == Some(TokenRecord { total_supply: initial_balance }),
            r is Ok ==> self.spec_balance(
                *final(ws),
                spec_create_token_address(*name, *sender, salt),
                *minter_address,
            ) == Some(initial_balance),
            r is Ok ==> forall|m: Address|
                self.spec_authorized(
                    *final(ws),
                    spec_create_token_address(*name, *sender, salt),
                    m,
                ) == (authorized_minters@.contains(m) || self.spec_authorized(
                    *old(ws),
                    spec_create_token_address(*name, *sender, salt),
                    m,
                )),
    {
        let ghost pre = *ws;
        let token_addr = create_token_address(name, sender, salt);
        if self.get_token(&token_addr, ws).is_some() {
            proof {
                WorkingSet::lemma_ws_effect_refl(pre);
            }
            return Err(Error::TokenAlreadyExists);
        }
        let token_key = StorageKey {
            module: self.address,
            field: TOKENS_FIELD,
            k1: token_addr,
            k2: Address::zero(),
        };
        let bal_key = StorageKey {
            module: self.address,
            field: BALANCES_FIELD,
            k1: token_addr,
            k2: *minter_address,
        };
        ws.set(token_key, Value::Token(TokenRecord { total_supply: initial_balance }));
        ws.set(bal_key, Value::U64(initial_balance));
        proof {
            assert(pre.top().writes@.is_prefix_of(ws.top().writes@));
            assert(pre.top().events@.is_prefix_of(ws.top().events@));
        }
        let ghost written = *ws;
        let ghost touched = self.created_keys(token_addr, *minter_address, authorized_minters@);
        let mut i: usize = 0;
        while i < authorized_minters.len()
            invariant
                ws.wf(),
                i <= authorized_minters.len(),
                touched == self.created_keys(token_addr, *minter_address, authorized_minters@),
                WorkingSet::ws_effect(pre, *ws, touched),
                ws.top().events@ == pre.top().events@,
                self.spec_token(*ws, token_addr) == Some(
                    TokenRecord { total_supply: initial_balance },
                ),
                self.spec_balance(*ws, token_addr, *minter_address) == Some(initial_balance),
                self.spec_minters_match(*ws, pre, token_addr, authorized_minters@, i as int),
            decreases authorized_minters.len() - i,
        {
            let ghost before = *ws;
            let auth_key = StorageKey {
                module: self.address,
                field: AUTH_MINTERS_FIELD,
                k1: token_addr,
                k2: authorized_minters[i],
            };
            ws.set(auth_key, Value::Flag(true));
            proof {
                assert(before.top().writes@.is_prefix_of(ws.top().writes@));
                assert(before.top().events@.is_prefix_of(ws.top().events@));
                WorkingSet::lemma_ws_effect_trans(pre, before, *ws, touched, set![auth_key]);
                assert(touched.contains(auth_key)) by {
                    assert(authorized_minters@.contains(authorized_minters@[i as int]));
                }
                assert(touched.union(set![auth_key]) =~= touched);
                assert(self.spec_minters_match(
                    *ws,
                    pre,
                    token_addr,
                    authorized_minters@,
                    i as int + 1,
                )) by {
                    assert forall|m: Address| #![trigger self.spec_authorized(*ws, token_addr, m)]
                        self.spec_authorized(*ws, token_addr, m) == (in_prefix(
                            authorized_minters@,
                            i as int + 1,
                            m,
                        ) || self.spec_authorized(pre, token_addr, m)) by {
                        lemma_in_prefix_step(authorized_minters@, i as int, m);
                        assert(self.spec_authorized(before, token_addr, m) == (in_prefix(
                            authorized_minters@,
                            i as int,
                            m,
                        ) || self.spec_authorized(pre, token_addr, m)));
                        if authorized_minters@[i as int] == m {
                            assert(ws.val(self.auth_key(token_addr, m)) == Some(
                                Value::Flag(true),
                            ));
                        } else {
                            assert(self.auth_key(token_addr, m) != auth_key);
                            assert(ws.val(self.auth_key(token_addr, m)) == before.val(
                                self.auth_key(token_addr, m),
                            ));
                        }
                    }
                }
            }
            i = i + 1;
        }
        proof {
            assert forall|m: Address|
                self.spec_authorized(*ws, token_addr, m) == (authorized_minters@.contains(m)
                    || self.spec_authorized(pre, token_addr, m)) by {
                lemma_in_prefix_full(authorized_minters@, m);
                assert(self.spec_minters_match(
                    *ws,
                    pre,
                    token_addr,
                    authorized_minters@,
                    authorized_minters@.len() as int,
                ));
                assert(self.spec_authorized(*ws, token_addr, m) == (in_prefix(
                    authorized_minters@,
                    authorized_minters@.len() as int,
                    m,
                ) || self.spec_authorized(pre, token_addr, m)));
            }
        }
        Ok(token_addr)
    }

    /// Installs the configured genesis tokens, in order.  Succeeds if
    /// and only if every configured token's total supply computation
    /// stays representable; otherwise nothing but bank keys was touched
    /// and the error is the stable supply-overflow error, which chain
    /// initialization treats as fatal.
    pub fn genesis(&self, config: &BankConfig, ws: &mut WorkingSet) -> (r: Result<(), Error>)
        requires
            old(ws).wf(),
        ensures
            final(ws).wf(),
            WorkingSet::ws_effect(*old(ws), *final(ws), self.keyset()),
            final(ws).top().events@ == old(ws).top().events@,
            r is Ok <==> spec_genesis_ok(config.tokens@),
            r is Err ==> r == Err::<(), Error>(Error::TotalSupplyOverflow),
            r is Ok && self.spec_bank_cfg_wf(config.tokens@) ==> self.spec_installed_upto(
                *final(ws),
                config.tokens@,
                config.tokens@.len() as int,
            ),
    {
        let ghost pre = *ws;
        let ghost tokens = config.tokens@;
        let mut ti: usize = 0;
        while ti < config.tokens.len()
            invariant
                ws.wf(),
                pre == *old(ws),
                ti <= config.tokens.len(),
                tokens == config.tokens@,
                WorkingSet::ws_effect(pre, *ws, self.keyset()),
                ws.top().events@ == pre.top().events@,
                spec_sums_ok(tokens, ti as int),
                self.spec_bank_cfg_wf(tokens) ==> self.spec_installed_upto(*ws, tokens, ti as int),
            decreases config.tokens.len() - ti,
        {
            let ghost iter_start = *ws;
            let tc = &config.tokens[ti];
            let ghost pairs = tc.address_and_balances@;
            let token_addr = create_token_address(&tc.token_name, &self.address, tc.salt);
            let mut total: u64 = 0;
            let mut j: usize = 0;
            while j < tc.address_and_balances.len()
                invariant
                    ws.wf(),
                    pre == *old(ws),
                    j <= tc.address_and_balances.len(),
                    pairs == tc.address_and_balances@,
                    tokens == config.tokens@,
                    ti < tokens.len(),
                    pairs == tokens[ti as int].address_and_balances@,
                    total == spec_supply_sum(pairs.subrange(0, j as int)),
                    WorkingSet::ws_effect(pre, *ws, self.keyset()),
                    ws.top().events@ == pre.top().events@,
                    spec_sums_ok(tokens, ti as int),
                decreases tc.address_and_balances.len() - j,
            {
                let amount = tc.address_and_balances[j].1;
                proof {
                    assert(pairs.subrange(0, j + 1).drop_last() =~= pairs.subrange(0, j as int));
                    assert(pairs.subrange(0, j + 1).last() == pairs[j as int]);
                }
                if amount > u64::MAX - total {
                    proof {
                        lemma_supply_sum_prefix_le(pairs, j as int + 1);
                        assert(spec_sum_at(tokens, ti as int) > u64::MAX);
                    }
                    return Err(Error::TotalSupplyOverflow);
                }
                total = total + amount;
                j = j + 1;
            }
            proof {
                assert(pairs.subrange(0, pairs.len() as int) =~= pairs);
                assert(total == spec_sum_at(tokens, ti as int));
            }
            let token_key = StorageKey {
                module: self.address,
                field: TOKENS_FIELD,
                k1: token_addr,
                k2: Address::zero(),
            };
            ws.set(token_key, Value::Token(TokenRecord { total_supply: total }));
            proof {
                let ghost mid = *ws;
                assert(iter_start.top().writes@.is_prefix_of(mid.top().writes@));
                assert(iter_start.top().events@.is_prefix_of(mid.top().events@));
                assert(WorkingSet::ws_effect(iter_start, mid, self.token_keyset(token_addr)));
            }
            let mut bi: usize = 0;
            while bi < tc.address_and_balances.len()
                invariant
                    ws.wf(),
                    bi <= tc.address_and_balances.len(),
                    pairs == tc.address_and_balances@,
                    tokens == config.tokens@,
                    token_addr == self.spec_cfg_addr(tokens, ti as int),
                    ti < tokens.len(),
                    WorkingSet::ws_effect(iter_start, *ws, self.token_keyset(token_addr)),
                    ws.top().events@ == iter_start.top().events@,
                    self.spec_token(*ws, token_addr) == Some(TokenRecord { total_supply: total }),
                    total == spec_sum_at(tokens, ti as int),
                    spec_pairs_distinct(pairs) ==> self.spec_bal_prefix(
                        *ws,
                        token_addr,
                        pairs,
                        bi as int,
                    ),
                decreases tc.address_and_balances.len() - bi,
            {
                let ghost before = *ws;
                let holder = tc.address_and_balances[bi].0;
                let amount = tc.address_and_balances[bi].1;
                let bal_key = StorageKey {
                    module: self.address,
                    field: BALANCES_FIELD,
                    k1: token_addr,
                    k2: holder,
                };
                ws.set(bal_key, Value::U64(amount));
                proof {
                    assert(before.top().writes@.is_prefix_of(ws.top().writes@));
                    assert(before.top().events@.is_prefix_of(ws.top().events@));
                    WorkingSet::lemma_ws_effect_trans(
                        iter_start,
                        before,
                        *ws,
                        self.token_keyset(token_addr),
                        set![bal_key],
                    );
                    assert(self.token_keyset(token_addr).union(set![bal_key])
                        =~= self.token_keyset(token_addr));
                    if spec_pairs_distinct(pairs) {
                        assert(self.spec_bal_prefix(*ws, token_addr, pairs, bi as int + 1)) by {
                            assert forall|jj: int|
                                #![trigger self.spec_balance(*ws, token_addr, pairs[jj].0)]
                                0 <= jj < bi as int + 1 implies self.spec_balance(
                                *ws,
                                token_addr,
                                pairs[jj].0,
                            ) == Some(pairs[jj].1) by {
                                if jj < bi as int {
                                    assert(self.spec_balance(before, token_addr, pairs[jj].0)
                                        == Some(pairs[jj].1));
                                    assert(pairs[jj].0 != holder);
                                    assert(self.balance_key(token_addr, pairs[jj].0) != bal_key);
                                } else {
                                    assert(ws.val(bal_key) == Some(Value::U64(amount)));
                                }
                            }
                        }
                    }
                }
                bi = bi + 1;
            }
            proof {
                let ghost iter_end = *ws;
                WorkingSet::lemma_ws_effect_trans(
                    pre,
                    iter_start,
                    iter_end,
                    self.keyset(),
                    self.token_keyset(token_addr),
                );
                assert(self.keyset().union(self.token_keyset(token_addr)) =~= self.keyset());
                assert(spec_sums_ok(tokens, ti as int + 1)) by {
                    assert forall|i: int| 0 <= i < ti as int + 1 implies #[trigger] spec_sum_at(
                        tokens,
                        i,
                    ) <= u64::MAX by {
                        if i < ti as int {
                            assert(spec_sum_at(tokens, i) <= u64::MAX);
                        }
                    }
                }
                if self.spec_bank_cfg_wf(tokens) {
                    assert(self.spec_installed_upto(iter_end, tokens, ti as int + 1)) by {
                        assert forall|i: int|
                            0 <= i < ti as int + 1 implies #[trigger] self.spec_installed_at(
                            iter_end,
                            tokens,
                            i,
                        ) by {
                            if i < ti as int {
                                assert(self.spec_installed_at(iter_start, tokens, i));
                                let addr_i = self.spec_cfg_addr(tokens, i);
                                assert(addr_i != token_addr);
                                assert(!self.token_keyset(token_addr).contains(
                                    self.token_key(addr_i),
                                ));
                                let pairs_i = tokens[i].address_and_balances@;
                                assert forall|jj: int|
                                    #![trigger self.spec_balance(iter_end, addr_i, pairs_i[jj].0)]
                                    0 <= jj < pairs_i.len() implies self.spec_balance(
                                    iter_end,
                                    addr_i,
                                    pairs_i[jj].0,
                                ) == Some(pairs_i[jj].1) by {
                                    assert(self.spec_balance(iter_start, addr_i, pairs_i[jj].0)
                                        == Some(pairs_i[jj].1));
                                    assert(!self.token_keyset(token_addr).contains(
                                        self.balance_key(addr_i, pairs_i[jj].0),
                                    ));
                                }
                            } else {
                                assert(self.spec_bal_prefix(
                                    iter_end,
                                    token_addr,
                                    pairs,
                                    pairs.len() as int,
                                ));
                            }
                        }
                    }
                }
            }
            ti = ti + 1;
        }
        Ok(())
    }

    /// What one successful bank call did, relating the state before
    /// (`ws1`) to the state after (`ws2`).  The bank appends no events.
    pub open spec fn spec_call_effects(
        self,
        ws1: WorkingSet,
        ws2: WorkingSet,
        msg: CallMessage,
        sender: Address,
    ) -> bool {
        &&& ws2.top().events@ == ws1.top().events@
        &&& match msg {
            CallMessage::CreateToken {
                salt,
                token_name,
                initial_balance,
                minter_address,
                authorized_minter,
            } => {
                let token = spec_create_token_address(token_name, sender, salt);
                &&& self.spec_token(ws2, token) == Some(
                    TokenRecord { total_supply: initial_balance },
                )
                &&& self.spec_balance(ws2, token, minter_address) == Some(initial_balance)
                &&& self.spec_authorized(ws2, token, authorized_minter)
            },
            CallMessage::Transfer { to, coins } => sender != to ==> {
                &&& self.spec_balance(ws2, coins.token_address, sender) == Some(
                    (self.spec_bal0(ws1, coins.token_address, sender) - coins.amount) as u64,
                )
                &&& self.spec_balance(ws2, coins.token_address, to) == Some(
                    (self.spec_bal0(ws1, coins.token_address, to) + coins.amount) as u64,
                )
            },
            CallMessage::Mint { coins, minter_address } => {
                &&& self.spec_token(ws2, coins.token_address) == Some(
                    TokenRecord {
                        total_supply: (self.spec_token(
                            ws1,
                            coins.token_address,
                        ).unwrap().total_supply + coins.amount) as u64,
                    },
                )
                &&& self.spec_balance(ws2, coins.token_address, minter_address) == Some(
                    (self.spec_bal0(ws1, coins.token_address, minter_address)
                        + coins.amount) as u64,
                )
            },
        }
    }

    /// When a bank call message is owed success, stated over the state
    /// before the call.
    pub open spec fn spec_call_ok(self, ws: WorkingSet, msg: CallMessage, sender: Address) -> bool {
        match msg {
            CallMessage::CreateToken { salt, token_name, .. } => self.spec_token(
                ws,
                spec_create_token_address(token_name, sender, salt),
            ) is None,
            CallMessage::Transfer { to, coins } => self.spec_can_transfer(ws, sender, to, coins),
            CallMessage::Mint { coins, minter_address } => {
                &&& self.spec_token(ws, coins.token_address) is Some
                &&& self.spec_authorized(ws, coins.token_address, sender)
                &&& self.spec_token(ws, coins.token_address).unwrap().total_supply + coins.amount
                    <= u64::MAX
                &&& self.spec_bal0(ws, coins.token_address, minter_address) + coins.amount
                    <= u64::MAX
            },
        }
    }

    /// Routes a decoded call message to the bank's logic.  The bank
    /// appends no events.
    pub fn call(
        &self,
        msg: CallMessage,
        sender: &Address,
        ws: &mut WorkingSet,
    ) -> (r: Result<crate::errors::CallResponse, Error>)
        requires
            old(ws).wf(),
        ensures
            final(ws).wf(),
            WorkingSet::ws_effect(*old(ws), *final(ws), self.keyset()),
            final(ws).top().events@ == old(ws).top().events@,
            r is Err ==> final(ws).top().writes@ == old(ws).top().writes@
                && WorkingSet::ws_effect(*old(ws), *final(ws), Set::empty()),
            r is Ok <==> self.spec_call_ok(*old(ws), msg, *sender),
            r is Ok ==> self.spec_call_effects(*old(ws), *final(ws), msg, *sender),
    {
        let ghost pre = *ws;
        let r = match msg {
            CallMessage::CreateToken {
                salt,
                token_name,
                initial_balance,
                minter_address,
                authorized_minter,
            } => {
                let minters = vec![authorized_minter];
                match self.create_token(
                    salt,
                    &token_name,
                    initial_balance,
                    &minter_address,
                    &minters,
                    sender,
                    ws,
                ) {
                    Ok(_) => {
                        proof {
                            assert(minters@.contains(authorized_minter)) by {
                                assert(minters@[0] == authorized_minter);
                            }
                        }
                        Ok(())
                    },
                    Err(e) => Err(e),
                }
            },
            CallMessage::Transfer { to, coins } => self.transfer_from(sender, &to, coins, ws),
            CallMessage::Mint { coins, minter_address } => {
                self.mint(coins, &minter_address, sender, ws)
            },
        };
        proof {
            assert(WorkingSet::ws_effect(pre, *ws, self.keyset()));
        }
        match r {
            Ok(_) => Ok(crate::errors::CallResponse::new()),
            Err(e) => Err(e),
        }
    }
}

} // verus!
