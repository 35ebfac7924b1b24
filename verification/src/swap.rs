//! The swap module: constant-product liquidity pools over the bank.
//!
//! A pool pairs two tokens and owns a liquidity token minted to
//! liquidity providers.  Every fund movement goes through the bank, and
//! every call is atomic: a failing call writes nothing.

use vstd::prelude::*;

use crate::address::Address;
use crate::address::ShortName;
use crate::address::HASH_BASIS;
use crate::address::spec_fold_words;
use crate::address::spec_mix;
use crate::address::fold_words;
use crate::address::mix;
use crate::bank::Bank;
use crate::bank::spec_create_token_address;
use crate::errors::CallResponse;
use crate::errors::Error;
use crate::state::Coins;
use crate::state::Event;
use crate::state::EventData;
pub use crate::state::Pool;
use crate::state::StorageKey;
use crate::state::Value;
use crate::state::WorkingSet;

verus! {

/// Field identifier of the pool records.
pub const POOLS_FIELD: u64 = 1;

/// The available call messages of the swap module.
#[derive(Clone, Copy, PartialEq, Eq, Structural, Debug)]
pub enum CallMessage {
    CreatePool { token_a: Address, token_b: Address },
    AddLiquidity { pool_id: Address, token_a_amount: u64, token_b_amount: u64 },
    RemoveLiquidity { pool_id: Address, liquidity_amount: u64 },
    Swap { pool_id: Address, token_a_amount: u64, token_b_amount: u64 },
}

/// Genesis configuration of the swap module; the initialization logic
/// installs nothing.
pub struct SwapModuleConfig {
    pub pools: Vec<Pool>,
}

/// The folded seed every pool-derived identifier starts from.
pub open spec fn spec_pool_seed(token_a: Address, token_b: Address) -> u64 {
    spec_fold_words(
        HASH_BASIS,
        seq![
            token_a.w0,
            token_a.w1,
            token_a.w2,
            token_a.w3,
            token_b.w0,
            token_b.w1,
            token_b.w2,
            token_b.w3,
        ],
    )
}

/// The pool identifier derived from the two token addresses, in order.
pub open spec fn spec_pool_id(token_a: Address, token_b: Address) -> Address {
    let h = spec_pool_seed(token_a, token_b);
    Address { w0: spec_mix(h, 1), w1: spec_mix(h, 2), w2: spec_mix(h, 3), w3: spec_mix(h, 4) }
}

/// The name of the pool's liquidity token, derived from the same seed.
pub open spec fn spec_lp_name(token_a: Address, token_b: Address) -> ShortName {
    let h = spec_pool_seed(token_a, token_b);
    ShortName { w0: spec_mix(h, 5), w1: spec_mix(h, 6), w2: spec_mix(h, 7), w3: spec_mix(h, 8) }
}

/// Derives the pool identifier of a token pair.
pub fn pool_id_of(token_a: &Address, token_b: &Address) -> (r: Address)
    ensures
        r == spec_pool_id(*token_a, *token_b),
{
    let words: [u64; 8] = [
        token_a.w0,
        token_a.w1,
        token_a.w2,
        token_a.w3,
        token_b.w0,
        token_b.w1,
        token_b.w2,
        token_b.w3,
    ];
    let h = fold_words(HASH_BASIS, words.as_slice());
    proof {
        assert(words@ =~= seq![
            token_a.w0,
            token_a.w1,
            token_a.w2,
            token_a.w3,
            token_b.w0,
            token_b.w1,
            token_b.w2,
            token_b.w3,
        ]);
    }
    Address { w0: mix(h, 1), w1: mix(h, 2), w2: mix(h, 3), w3: mix(h, 4) }
}

/// Derives the liquidity-token name of a token pair.
pub fn lp_name_of(token_a: &Address, token_b: &Address) -> (r: ShortName)
    ensures
        r == spec_lp_name(*token_a, *token_b),
{
    let words: [u64; 8] = [
        token_a.w0,
        token_a.w1,
        token_a.w2,
        token_a.w3,
        token_b.w0,
        token_b.w1,
        token_b.w2,
        token_b.w3,
    ];
    let h = fold_words(HASH_BASIS, words.as_slice());
    proof {
        assert(words@ =~= seq![
            token_a.w0,
            token_a.w1,
            token_a.w2,
            token_a.w3,
            token_b.w0,
            token_b.w1,
            token_b.w2,
            token_b.w3,
        ]);
    }
    ShortName { w0: mix(h, 5), w1: mix(h, 6), w2: mix(h, 7), w3: mix(h, 8) }
}

/// The address of the pool's liquidity token: created by the module
/// itself with salt zero.
pub open spec fn spec_lp_token(module: Address, token_a: Address, token_b: Address) -> Address {
    spec_create_token_address(spec_lp_name(token_a, token_b), module, 0)
}

/// `r` is the floor square root of `p`.
pub open spec fn spec_is_sqrt(p: int, r: int) -> bool {
    0 <= r && r * r <= p && p < ((r + 1) * (r + 1))
}

/// The floor square root of `p`.
pub open spec fn spec_isqrt(p: int) -> int {
    choose|r: int| spec_is_sqrt(p, r)
}

/// Floor square roots are unique.
pub proof fn lemma_isqrt_unique(p: int, r1: int, r2: int)
    by (nonlinear_arith)
    requires
        0 <= r1,
        0 <= r2,
        r1 * r1 <= p < (r1 + 1) * (r1 + 1),
        r2 * r2 <= p < (r2 + 1) * (r2 + 1),
    ensures
        r1 == r2,
{
}

/// The floor square root of a 128-bit product, by bisection.
pub fn isqrt_u128(p: u128) -> (r: u64)
    ensures
        r as int == spec_isqrt(p as int),
        (r as int) * (r as int) <= p as int,
        (p as int) < ((r as int + 1) * (r as int + 1)),
{
    let mut lo: u128 = 0;
    let mut hi: u128 = 0x1_0000_0000_0000_0000;
    proof {
        assert((hi as int) * (hi as int) > p as int) by (nonlinear_arith)
            requires
                hi == 0x1_0000_0000_0000_0000u128,
                p <= u128::MAX,
        ;
    }
    while hi - lo > 1
        invariant
            lo < hi,
            hi <= 0x1_0000_0000_0000_0000,
            (lo as int) * (lo as int) <= p as int,
            (p as int) < ((hi as int) * (hi as int)),
        decreases hi - lo,
    {
        let mid: u128 = lo + (hi - lo) / 2;
        proof {
            assert(lo < mid < hi);
            assert((mid as int) * (mid as int) <= (0xffff_ffff_ffff_ffffu128 as int) * (
            0xffff_ffff_ffff_ffffu128 as int)) by (nonlinear_arith)
                requires
                    mid <= 0xffff_ffff_ffff_ffffu128,
            ;
        }
        if mid * mid <= p {
            lo = mid;
        } else {
            hi = mid;
        }
    }
    proof {
        assert(hi == lo + 1);
        assert(spec_is_sqrt(p as int, lo as int));
        let w = spec_isqrt(p as int);
        assert(spec_is_sqrt(p as int, w)) by {
            assert(exists|r: int| spec_is_sqrt(p as int, r)) by {
                assert(spec_is_sqrt(p as int, lo as int));
            }
        }
        lemma_isqrt_unique(p as int, lo as int, w);
    }
    lo as u64
}

/// The swap module.
pub struct SwapModule {
    /// The module's own address: its namespace prefix, and the account
    /// holding each pool's reserves.
    pub address: Address,
}

impl SwapModule {
    /// The key of the pool record at `pool_id`.
    pub open spec fn pool_key(self, pool_id: Address) -> StorageKey {
        StorageKey {
            module: self.address,
            field: POOLS_FIELD,
            k1: pool_id,
            k2: Address::spec_zero(),
        }
    }

    /// Every key the module owns.
    pub open spec fn keyset(self) -> Set<StorageKey> {
        Set::new(|k: StorageKey| k.module == self.address)
    }

    /// Every key a swap call may touch: its own and the bank's.
    pub open spec fn reach(self, bank: Bank) -> Set<StorageKey> {
        Set::new(|k: StorageKey| k.module == self.address || k.module == bank.address)
    }

    /// The pool record the working set shows, if any.
    pub open spec fn spec_pool(self, ws: WorkingSet, pool_id: Address) -> Option<Pool> {
        match ws.val(self.pool_key(pool_id)) {
            Option::Some(Value::PoolVal(p)) => Some(p),
            _ => None,
        }
    }

    /// The only keys creating a pool writes: the pool record, and the
    /// fresh liquidity token's record, the module's (zero) balance of
    /// it and the module's own minter flag.
    pub open spec fn create_pool_keys(
        self,
        bank: Bank,
        token_a: Address,
        token_b: Address,
    ) -> Set<StorageKey> {
        let lp = spec_lp_token(self.address, token_a, token_b);
        set![
            self.pool_key(spec_pool_id(token_a, token_b)),
            bank.token_key(lp),
            bank.balance_key(lp, self.address),
            bank.auth_key(lp, self.address),
        ]
    }

    /// Whether creating a pool of `(token_a, token_b)` succeeds: no
    /// such pool yet, and the liquidity token's address is free.
    pub open spec fn spec_create_pool_ok(
        self,
        bank: Bank,
        ws: WorkingSet,
        token_a: Address,
        token_b: Address,
    ) -> bool {
        &&& self.spec_pool(ws, spec_pool_id(token_a, token_b)) is None
        &&& bank.spec_token(ws, spec_lp_token(self.address, token_a, token_b)) is None
    }

    /// The event a successful pool creation appends.
    pub open spec fn spec_create_pool_event(
        pool_id: Address,
        token_a: Address,
        token_b: Address,
        lp: Address,
    ) -> Event {
        Event {
            key: ShortName { w0: 3, w1: 0, w2: 0, w3: 0 },
            value: EventData { a0: pool_id, a1: token_a, a2: token_b, a3: lp, n0: 0, n1: 0 },
        }
    }

    /// A swap module whose namespace starts at `address`.
    pub fn new(address: Address) -> (r: SwapModule)
        ensures
            r.address == address,
    {
        SwapModule { address }
    }

    /// The initialization logic: nothing is installed.
    pub fn genesis(&self, _config: &SwapModuleConfig, ws: &mut WorkingSet) -> (r: Result<
        (),
        Error,
    >)
        requires
            old(ws).wf(),
        ensures
            final(ws).wf(),
            r is Ok,
            *final(ws) == *old(ws),
    {
        Ok(())
    }

    /// Reads the pool record at `pool_id`.
    pub fn get_pool(&self, pool_id: &Address, ws: &WorkingSet) -> (r: Option<Pool>)
        requires
            ws.wf(),
        ensures
            r == self.spec_pool(*ws, *pool_id),
    {
        let key = StorageKey {
            module: self.address,
            field: POOLS_FIELD,
            k1: *pool_id,
            k2: Address::zero(),
        };
        match ws.get(key) {
            Option::Some(Value::PoolVal(p)) => Some(p),
            _ => None,
        }
    }

    /// Creates the pool of `(token_a, token_b)` with empty reserves and
    /// a fresh liquidity token minted by the module alone.  Succeeds if
    /// and only if [`Self::spec_create_pool_ok`] holds; on failure
    /// nothing is written.
    #[verifier::rlimit(30)]
    pub fn create_pool(
        &self,
        bank: &Bank,
        token_a: Address,
        token_b: Address,
        ws: &mut WorkingSet,
    ) -> (r: Result<CallResponse, Error>)
        requires
            old(ws).wf(),
            self.address != bank.address,
        ensures
            final(ws).wf(),
            r is Ok <==> self.spec_create_pool_ok(*bank, *old(ws), token_a, token_b),
            self.spec_pool(*old(ws), spec_pool_id(token_a, token_b)) is Some ==> r
                == Err::<CallResponse, Error>(Error::PoolAlreadyExists),
            (self.spec_pool(*old(ws), spec_pool_id(token_a, token_b)) is None && bank.spec_token(
                *old(ws),
                spec_lp_token(self.address, token_a, token_b),
            ) is Some) ==> r == Err::<CallResponse, Error>(Error::CreateTokenFailed),
            WorkingSet::ws_effect(*old(ws), *final(ws), self.create_pool_keys(*bank, token_a, token_b)),
            r is Err ==> final(ws).top().writes@ == old(ws).top().writes@
                && final(ws).top().events@ == old(ws).top().events@
                && WorkingSet::ws_effect(*old(ws), *final(ws), Set::empty()),
            r is Ok ==> self.spec_pool(*final(ws), spec_pool_id(token_a, token_b)) == Some(
                Pool {
                    token_a,
                    token_a_liquidity: 0,
                    token_b,
                    token_b_liquidity: 0,
                    liquidity_token: spec_lp_token(self.address, token_a, token_b),
                },
            ),
            r is Ok ==> bank.spec_token(
                *final(ws),
                spec_lp_token(self.address, token_a, token_b),
            ) == Some(crate::state::TokenRecord { total_supply: 0 }),
            r is Ok ==> bank.spec_balance(
                *final(ws),
                spec_lp_token(self.address, token_a, token_b),
                self.address,
            ) == Some(0u64),
            r is Ok ==> forall|m: Address|
                #![trigger bank.spec_authorized(*final(ws), spec_lp_token(self.address, token_a, token_b), m)]
                bank.spec_authorized(
                    *final(ws),
                    spec_lp_token(self.address, token_a, token_b),
                    m,
                ) == (m == self.address || bank.spec_authorized(
                    *old(ws),
                    spec_lp_token(self.address, token_a, token_b),
                    m,
                )),
            r is Ok ==> final(ws).top().events@ == old(ws).top().events@.push(
                SwapModule::spec_create_pool_event(
                    spec_pool_id(token_a, token_b),
                    token_a,
                    token_b,
                    spec_lp_token(self.address, token_a, token_b),
                ),
            ),
    {
        let ghost pre = *ws;
        let pool_id = pool_id_of(&token_a, &token_b);
        if self.get_pool(&pool_id, ws).is_some() {
            proof {
                WorkingSet::lemma_ws_effect_refl(pre);
            }
            return Err(Error::PoolAlreadyExists);
        }
        let lp_name = lp_name_of(&token_a, &token_b);
        let minters = vec![self.address];
        let create_result = bank.create_token(
            0,
            &lp_name,
            0,
            &self.address,
            &minters,
            &self.address,
            ws,
        );
        let token_address = match create_result {
            Ok(a) => a,
            Err(_) => {
                proof {
                    WorkingSet::lemma_ws_effect_refl(pre);
                }
                return Err(Error::CreateTokenFailed);
            },
        };
        let total_supply = bank.supply_of(token_address, ws);
        if total_supply.amount.is_none() {
            proof {
                WorkingSet::lemma_ws_effect_refl(pre);
            }
            return Err(Error::TokenWasNotCreated);
        }
        let pool = Pool {
            token_a,
            token_a_liquidity: 0,
            token_b,
            token_b_liquidity: 0,
            liquidity_token: token_address,
        };
        let pool_key = StorageKey {
            module: self.address,
            field: POOLS_FIELD,
            k1: pool_id,
            k2: Address::zero(),
        };
        let ghost mid = *ws;
        ws.set(pool_key, Value::PoolVal(pool));
        let ghost mid2 = *ws;
        ws.add_event(
            Event {
                key: ShortName { w0: 3, w1: 0, w2: 0, w3: 0 },
                value: EventData {
                    a0: pool_id,
                    a1: token_a,
                    a2: token_b,
                    a3: token_address,
                    n0: 0,
                    n1: 0,
                },
            },
        );
        proof {
            let post = *ws;
            assert(WorkingSet::ws_effect(mid, mid2, set![pool_key])) by {
                assert(mid.top().writes@.is_prefix_of(mid2.top().writes@));
                assert(mid.top().events@.is_prefix_of(mid2.top().events@));
            }
            assert(WorkingSet::ws_effect(mid2, post, Set::empty())) by {
                assert(mid2.top().writes@.is_prefix_of(post.top().writes@));
                assert(mid2.top().events@.is_prefix_of(post.top().events@));
            }
            let ghost created = bank.created_keys(token_address, self.address, minters@);
            assert(created =~= set![
                bank.token_key(token_address),
                bank.balance_key(token_address, self.address),
                bank.auth_key(token_address, self.address),
            ]) by {
                assert forall|k: StorageKey| minters@.contains(k.k2) implies k.k2 == self.address
                    by {
                    let j = choose|j: int| 0 <= j < minters@.len() && minters@[j] == k.k2;
                }
                assert(minters@.contains(self.address)) by {
                    assert(minters@[0] == self.address);
                }
            }
            WorkingSet::lemma_ws_effect_trans(pre, mid, mid2, created, set![pool_key]);
            WorkingSet::lemma_ws_effect_trans(
                pre,
                mid2,
                post,
                created.union(set![pool_key]),
                Set::empty(),
            );
            WorkingSet::lemma_ws_effect_widen(
                pre,
                post,
                created.union(set![pool_key]).union(Set::empty()),
                self.create_pool_keys(*bank, token_a, token_b),
            );
            assert(!created.contains(pool_key));
            assert(post.val(pool_key) == Some(Value::PoolVal(pool)));
            assert(minters@.contains(self.address)) by {
                assert(minters@[0] == self.address);
            }
            assert(!set![pool_key].contains(bank.balance_key(token_address, self.address)));
            assert(bank.spec_balance(post, token_address, self.address) == Some(0u64));
            assert forall|m: Address|
                #![trigger bank.spec_authorized(post, token_address, m)]
                bank.spec_authorized(post, token_address, m) == (m == self.address
                    || bank.spec_authorized(pre, token_address, m)) by {
                assert(bank.spec_authorized(mid, token_address, m) == (minters@.contains(m)
                    || bank.spec_authorized(pre, token_address, m)));
                assert(minters@.contains(m) <==> m == self.address) by {
                    if minters@.contains(m) {
                        let j = choose|j: int| 0 <= j < minters@.len() && minters@[j] == m;
                    }
                    if m == self.address {
                        assert(minters@[0] == self.address);
                    }
                }
                assert(!set![pool_key].contains(bank.auth_key(token_address, m)));
                assert(post.val(bank.auth_key(token_address, m)) == mid.val(
                    bank.auth_key(token_address, m),
                ));
            }
            assert(post.top().events@ == pre.top().events@.push(
                SwapModule::spec_create_pool_event(pool_id, token_a, token_b, token_address),
            ));
        }
        Ok(CallResponse::new())
    }

    /// The pool record a successful liquidity addition leaves: the
    /// amounts themselves for an empty pool, otherwise the grown
    /// reserves.
    pub open spec fn spec_pool_after_add(p: Pool, amt_a: u64, amt_b: u64) -> Pool {
        if p.token_a_liquidity == 0 && p.token_b_liquidity == 0 {
            Pool {
                token_a: p.token_a,
                token_a_liquidity: amt_a,
                token_b: p.token_b,
                token_b_liquidity: amt_b,
                liquidity_token: p.liquidity_token,
            }
        } else {
            Pool {
                token_a: p.token_a,
                token_a_liquidity: (p.token_a_liquidity + amt_a) as u64,
                token_b: p.token_b,
                token_b_liquidity: (p.token_b_liquidity + amt_b) as u64,
                liquidity_token: p.liquidity_token,
            }
        }
    }

    /// The liquidity-token amount a successful addition mints: the
    /// floor square root of the product for the first deposit, the
    /// sender's share of the supply afterwards.
    pub open spec fn spec_minted(
        bank: Bank,
        ws: WorkingSet,
        p: Pool,
        amt_a: u64,
        amt_b: u64,
    ) -> int {
        if p.token_a_liquidity == 0 && p.token_b_liquidity == 0 {
            spec_isqrt((amt_a as int) * (amt_b as int))
        } else {
            ((amt_a as int) / (p.token_a_liquidity as int)) * (
            match bank.spec_token(ws, p.liquidity_token) {
                Option::Some(t) => t.total_supply as int,
                Option::None => 0,
            })
        }
    }

    /// The only keys a liquidity addition writes: the pool record, the
    /// four deposit balances, and the liquidity token's record and the
    /// sender's balance of it.
    pub open spec fn add_liquidity_keys(
        self,
        bank: Bank,
        ws: WorkingSet,
        pool_id: Address,
        sender: Address,
    ) -> Set<StorageKey> {
        let p = self.spec_pool(ws, pool_id).unwrap();
        set![
            self.pool_key(pool_id),
            bank.balance_key(p.token_a, sender),
            bank.balance_key(p.token_a, self.address),
            bank.balance_key(p.token_b, sender),
            bank.balance_key(p.token_b, self.address),
            bank.token_key(p.liquidity_token),
            bank.balance_key(p.liquidity_token, sender),
        ]
    }

    /// When a liquidity addition is owed success, stated over the state
    /// before the call: the pool exists, both deposits can go through,
    /// and the liquidity mint can go through — minted by the module
    /// itself for the first deposit, by the sender afterwards, as the
    /// call message hands the mint on.  The conditions read the old
    /// state, which is exact when the pool's three tokens are pairwise
    /// distinct and the sender is not the module itself.
    pub open spec fn spec_add_liquidity_ok(
        self,
        bank: Bank,
        ws: WorkingSet,
        pool_id: Address,
        amt_a: u64,
        amt_b: u64,
        sender: Address,
    ) -> bool {
        &&& self.spec_pool(ws, pool_id) is Some
        &&& {
            let p = self.spec_pool(ws, pool_id).unwrap();
            &&& bank.spec_can_transfer(
                ws,
                sender,
                self.address,
                Coins { token_address: p.token_a, amount: amt_a },
            )
            &&& bank.spec_can_transfer(
                ws,
                sender,
                self.address,
                Coins { token_address: p.token_b, amount: amt_b },
            )
            &&& if p.token_a_liquidity == 0 && p.token_b_liquidity == 0 {
                let liq = spec_isqrt((amt_a as int) * (amt_b as int));
                &&& bank.spec_token(ws, p.liquidity_token) is Some
                &&& bank.spec_authorized(ws, p.liquidity_token, self.address)
                &&& bank.spec_token(ws, p.liquidity_token).unwrap().total_supply + liq
                    <= u64::MAX
                &&& bank.spec_bal0(ws, p.liquidity_token, sender) + liq <= u64::MAX
            } else {
                let supply = match bank.spec_token(ws, p.liquidity_token) {
                    Option::Some(t) => t.total_supply,
                    Option::None => 0,
                };
                let liq = ((amt_a as int) / (p.token_a_liquidity as int)) * (supply as int);
                &&& p.token_a_liquidity > 0
                &&& p.token_b_liquidity > 0
                &&& liq <= u64::MAX
                &&& bank.spec_token(ws, p.liquidity_token) is Some
                &&& bank.spec_authorized(ws, p.liquidity_token, sender)
                &&& bank.spec_token(ws, p.liquidity_token).unwrap().total_supply + liq
                    <= u64::MAX
                &&& bank.spec_bal0(ws, p.liquidity_token, sender) + liq <= u64::MAX
                &&& p.token_a_liquidity + amt_a <= u64::MAX
                &&& p.token_b_liquidity + amt_b <= u64::MAX
            }
        }
    }

    /// The event a successful liquidity addition appends.
    pub open spec fn spec_add_liquidity_event(pool_id: Address) -> Event {
        Event {
            key: ShortName { w0: 4, w1: 0, w2: 0, w3: 0 },
            value: EventData {
                a0: pool_id,
                a1: Address::spec_zero(),
                a2: Address::spec_zero(),
                a3: Address::spec_zero(),
                n0: 0,
                n1: 0,
            },
        }
    }

    /// Deposits both of the pool's tokens from `sender` and mints the
    /// pool's liquidity token in return; the first deposit into an
    /// empty pool mints the floor square root of the amounts' product.
    /// A failing deposit, mint or reserve update leaves nothing
    /// written.
    #[verifier::rlimit(60)]
    pub fn add_liquidity(
        &self,
        bank: &Bank,
        pool_id: Address,
        token_a_amount: u64,
        token_b_amount: u64,
        sender: &Address,
        ws: &mut WorkingSet,
    ) -> (r: Result<CallResponse, Error>)
        requires
            old(ws).wf(),
            self.address != bank.address,
        ensures
            final(ws).wf(),
            WorkingSet::ws_effect(
                *old(ws),
                *final(ws),
                self.add_liquidity_keys(*bank, *old(ws), pool_id, *sender),
            ),
            r is Err ==> final(ws).top().writes@ == old(ws).top().writes@
                && final(ws).top().events@ == old(ws).top().events@
                && WorkingSet::ws_effect(*old(ws), *final(ws), Set::empty()),
            self.spec_pool(*old(ws), pool_id) is None ==> r == Err::<CallResponse, Error>(
                Error::PoolNotFound,
            ),
            (*sender != self.address && self.spec_pool(*old(ws), pool_id) is Some && {
                let p = self.spec_pool(*old(ws), pool_id).unwrap();
                p.token_a != p.token_b && p.liquidity_token != p.token_a && p.liquidity_token
                    != p.token_b
            }) ==> (r is Ok <==> self.spec_add_liquidity_ok(
                *bank,
                *old(ws),
                pool_id,
                token_a_amount,
                token_b_amount,
                *sender,
            )),
            (r is Ok && *sender != self.address && self.spec_pool(*old(ws), pool_id) is Some && {
                let p = self.spec_pool(*old(ws), pool_id).unwrap();
                p.token_a != p.token_b && p.liquidity_token != p.token_a && p.liquidity_token
                    != p.token_b
            }) ==> {
                let p = self.spec_pool(*old(ws), pool_id).unwrap();
                let minted = SwapModule::spec_minted(
                    *bank,
                    *old(ws),
                    p,
                    token_a_amount,
                    token_b_amount,
                );
                &&& bank.spec_balance(*final(ws), p.token_a, *sender) == Some(
                    (bank.spec_bal0(*old(ws), p.token_a, *sender) - token_a_amount) as u64,
                )
                &&& bank.spec_balance(*final(ws), p.token_a, self.address) == Some(
                    (bank.spec_bal0(*old(ws), p.token_a, self.address) + token_a_amount) as u64,
                )
                &&& bank.spec_balance(*final(ws), p.token_b, *sender) == Some(
                    (bank.spec_bal0(*old(ws), p.token_b, *sender) - token_b_amount) as u64,
                )
                &&& bank.spec_balance(*final(ws), p.token_b, self.address) == Some(
                    (bank.spec_bal0(*old(ws), p.token_b, self.address) + token_b_amount) as u64,
                )
                &&& bank.spec_token(*final(ws), p.liquidity_token) == Some(
                    crate::state::TokenRecord {
                        total_supply: (bank.spec_token(
                            *old(ws),
                            p.liquidity_token,
                        ).unwrap().total_supply + minted) as u64,
                    },
                )
                &&& bank.spec_balance(*final(ws), p.liquidity_token, *sender) == Some(
                    (bank.spec_bal0(*old(ws), p.liquidity_token, *sender) + minted) as u64,
                )
            },
            r is Ok ==> self.spec_pool(*old(ws), pool_id) is Some,
            r is Ok ==> self.spec_pool(*final(ws), pool_id) == Some(
                SwapModule::spec_pool_after_add(
                    self.spec_pool(*old(ws), pool_id).unwrap(),
                    token_a_amount,
                    token_b_amount,
                ),
            ),
            r is Ok ==> final(ws).top().events@ == old(ws).top().events@.push(
                SwapModule::spec_add_liquidity_event(pool_id),
            ),
    {
        let ghost pre = *ws;
        let pool = match self.get_pool(&pool_id, ws) {
            Option::Some(p) => p,
            Option::None => {
                proof {
                    WorkingSet::lemma_ws_effect_refl(pre);
                }
                return Err(Error::PoolNotFound);
            },
        };
        ws.open_scope();
        let t1 = bank.transfer_from(
            sender,
            &self.address,
            Coins { token_address: pool.token_a, amount: token_a_amount },
            ws,
        );
        let t2 = bank.transfer_from(
            sender,
            &self.address,
            Coins { token_address: pool.token_b, amount: token_b_amount },
            ws,
        );
        if t1.is_err() || t2.is_err() {
            ws.discard_scope();
            proof {
                assert(WorkingSet::ws_effect(pre, *ws, Set::empty()));
            }
            return Err(Error::TransferFailed);
        }
        let new_pool: Pool;
        if pool.token_a_liquidity == 0 && pool.token_b_liquidity == 0 {
            proof {
                assert((token_a_amount as u128 as int) * (token_b_amount as u128 as int)
                    <= u128::MAX) by (nonlinear_arith)
                    requires
                        token_a_amount <= u64::MAX,
                        token_b_amount <= u64::MAX,
                ;
            }
            let product: u128 = (token_a_amount as u128) * (token_b_amount as u128);
            let liquidity_token_amount = isqrt_u128(product);
            let mint_result = bank.mint(
                Coins { token_address: pool.liquidity_token, amount: liquidity_token_amount },
                sender,
                &self.address,
                ws,
            );
            if mint_result.is_err() {
                ws.discard_scope();
                proof {
                    assert(WorkingSet::ws_effect(pre, *ws, Set::empty()));
                }
                return Err(Error::MintFailed);
            }
            new_pool = Pool {
                token_a: pool.token_a,
                token_a_liquidity: token_a_amount,
                token_b: pool.token_b,
                token_b_liquidity: token_b_amount,
                liquidity_token: pool.liquidity_token,
            };
        } else {
            if pool.token_a_liquidity == 0 || pool.token_b_liquidity == 0 {
                ws.discard_scope();
                proof {
                    assert(WorkingSet::ws_effect(pre, *ws, Set::empty()));
                }
                return Err(Error::LiquidityComputation);
            }
            let supply = match bank.supply_of(pool.liquidity_token, ws).amount {
                Option::Some(s) => s,
                Option::None => 0,
            };
            let share: u64 = token_a_amount / pool.token_a_liquidity;
            proof {
                assert((share as u128 as int) * (supply as u128 as int) <= u128::MAX)
                    by (nonlinear_arith)
                    requires
                        share <= u64::MAX,
                        supply <= u64::MAX,
                ;
            }
            let wide: u128 = (share as u128) * (supply as u128);
            if wide > 0xffff_ffff_ffff_ffffu128 {
                ws.discard_scope();
                proof {
                    assert(WorkingSet::ws_effect(pre, *ws, Set::empty()));
                }
                return Err(Error::LiquidityComputation);
            }
            let liquidity_token_amount = wide as u64;
            let mint_result = bank.mint(
                Coins { token_address: pool.liquidity_token, amount: liquidity_token_amount },
                sender,
                sender,
                ws,
            );
            if mint_result.is_err() {
                ws.discard_scope();
                proof {
                    assert(WorkingSet::ws_effect(pre, *ws, Set::empty()));
                }
                return Err(Error::MintFailed);
            }
            if token_a_amount > u64::MAX - pool.token_a_liquidity || token_b_amount > u64::MAX
                - pool.token_b_liquidity {
                ws.discard_scope();
                proof {
                    assert(WorkingSet::ws_effect(pre, *ws, Set::empty()));
                }
                return Err(Error::LiquidityComputation);
            }
            new_pool = Pool {
                token_a: pool.token_a,
                token_a_liquidity: pool.token_a_liquidity + token_a_amount,
                token_b: pool.token_b,
                token_b_liquidity: pool.token_b_liquidity + token_b_amount,
                liquidity_token: pool.liquidity_token,
            };
        }
        let pool_key = StorageKey {
            module: self.address,
            field: POOLS_FIELD,
            k1: pool_id,
            k2: Address::zero(),
        };
        ws.set(pool_key, Value::PoolVal(new_pool));
        ws.add_event(
            Event {
                key: ShortName { w0: 4, w1: 0, w2: 0, w3: 0 },
                value: EventData {
                    a0: pool_id,
                    a1: Address::zero(),
                    a2: Address::zero(),
                    a3: Address::zero(),
                    n0: 0,
                    n1: 0,
                },
            },
        );
        let ghost before_commit = *ws;
        ws.commit_scope();
        proof {
            let post = *ws;
            assert(post.top().writes@ == pre.top().writes@ + before_commit.top().writes@);
            assert(pre.top().writes@.is_prefix_of(post.top().writes@));
            assert(post.top().events@ == pre.top().events@ + before_commit.top().events@);
            assert(before_commit.top().events@ =~= seq![
                SwapModule::spec_add_liquidity_event(pool_id),
            ]);
            assert(post.top().events@ =~= pre.top().events@.push(
                SwapModule::spec_add_liquidity_event(pool_id),
            ));
            assert(pre.top().events@.is_prefix_of(post.top().events@));
            assert(WorkingSet::ws_effect(
                pre,
                post,
                self.add_liquidity_keys(*bank, pre, pool_id, *sender),
            ));
            assert(post.val(pool_key) == Some(Value::PoolVal(new_pool)));
        }
        Ok(CallResponse::new())
    }

    /// What the pool pays out for a one-sided deposit: the deposit
    /// scaled by the opposite reserve.
    pub open spec fn spec_swap_out(amount_in: u64, reserve_out: u64, reserve_in: u64) -> int {
        ((amount_in as int) * (reserve_out as int)) / (reserve_in as int)
    }

    /// The pool record a successful swap leaves.
    pub open spec fn spec_pool_after_swap(p: Pool, amt_a: u64, amt_b: u64) -> Pool {
        if amt_a > 0 {
            Pool {
                token_a: p.token_a,
                token_a_liquidity: (p.token_a_liquidity + amt_a) as u64,
                token_b: p.token_b,
                token_b_liquidity: (p.token_b_liquidity - SwapModule::spec_swap_out(
                    amt_a,
                    p.token_b_liquidity,
                    p.token_a_liquidity,
                )) as u64,
                liquidity_token: p.liquidity_token,
            }
        } else {
            Pool {
                token_a: p.token_a,
                token_a_liquidity: (p.token_a_liquidity - SwapModule::spec_swap_out(
                    amt_b,
                    p.token_a_liquidity,
                    p.token_b_liquidity,
                )) as u64,
                token_b: p.token_b,
                token_b_liquidity: (p.token_b_liquidity + amt_b) as u64,
                liquidity_token: p.liquidity_token,
            }
        }
    }

    /// The only keys a swap writes: the pool record and the four
    /// balances of the two sides between sender and module.  Token
    /// records — and so total supplies — stay as they were.
    pub open spec fn swap_keys(
        self,
        bank: Bank,
        ws: WorkingSet,
        pool_id: Address,
        sender: Address,
    ) -> Set<StorageKey> {
        let p = self.spec_pool(ws, pool_id).unwrap();
        set![
            self.pool_key(pool_id),
            bank.balance_key(p.token_a, sender),
            bank.balance_key(p.token_a, self.address),
            bank.balance_key(p.token_b, sender),
            bank.balance_key(p.token_b, self.address),
        ]
    }

    /// When a swap is owed success, stated over the state before the
    /// call: the pool exists, exactly one side's amount is positive,
    /// both reserves cover the amounts, the grown reserve stays
    /// representable, and both transfers can go through.  The two
    /// transfer conditions read the old state, which is exact when the
    /// pool's tokens differ and the sender is not the module itself.
    pub open spec fn spec_swap_ok(
        self,
        bank: Bank,
        ws: WorkingSet,
        pool_id: Address,
        amt_a: u64,
        amt_b: u64,
        sender: Address,
    ) -> bool {
        &&& self.spec_pool(ws, pool_id) is Some
        &&& !(amt_a > 0 && amt_b > 0)
        &&& {
            let p = self.spec_pool(ws, pool_id).unwrap();
            &&& p.token_a_liquidity > 0
            &&& p.token_b_liquidity > 0
            &&& p.token_a_liquidity >= amt_a
            &&& p.token_b_liquidity >= amt_b
            &&& if amt_a > 0 {
                let out = SwapModule::spec_swap_out(
                    amt_a,
                    p.token_b_liquidity,
                    p.token_a_liquidity,
                );
                &&& p.token_a_liquidity + amt_a <= u64::MAX
                &&& bank.spec_can_transfer(
                    ws,
                    self.address,
                    sender,
                    Coins { token_address: p.token_b, amount: out as u64 },
                )
                &&& bank.spec_can_transfer(
                    ws,
                    sender,
                    self.address,
                    Coins { token_address: p.token_a, amount: amt_a },
                )
            } else {
                let out = SwapModule::spec_swap_out(
                    amt_b,
                    p.token_a_liquidity,
                    p.token_b_liquidity,
                );
                &&& p.token_b_liquidity + amt_b <= u64::MAX
                &&& bank.spec_can_transfer(
                    ws,
                    self.address,
                    sender,
                    Coins { token_address: p.token_a, amount: out as u64 },
                )
                &&& bank.spec_can_transfer(
                    ws,
                    sender,
                    self.address,
                    Coins { token_address: p.token_b, amount: amt_b },
                )
            }
        }
    }

    /// The event a successful swap appends.
    pub open spec fn spec_swap_event(
        pool_id: Address,
        sender: Address,
        send_token: Address,
        receive_token: Address,
        send_amount: u64,
        receive_amount: u64,
    ) -> Event {
        Event {
            key: ShortName { w0: 5, w1: 0, w2: 0, w3: 0 },
            value: EventData {
                a0: pool_id,
                a1: sender,
                a2: send_token,
                a3: receive_token,
                n0: send_amount,
                n1: receive_amount,
            },
        }
    }

    /// Swaps one of the pool's tokens for the other at the ratio of the
    /// reserves: exactly one side's amount must be positive, the pool
    /// must have liquidity on both sides covering the amounts, and both
    /// transfers must go through; otherwise nothing is written.
    #[verifier::rlimit(60)]
    pub fn swap(
        &self,
        bank: &Bank,
        pool_id: Address,
        token_a_amount: u64,
        token_b_amount: u64,
        sender: &Address,
        ws: &mut WorkingSet,
    ) -> (r: Result<CallResponse, Error>)
        requires
            old(ws).wf(),
            self.address != bank.address,
        ensures
            final(ws).wf(),
            WorkingSet::ws_effect(
                *old(ws),
                *final(ws),
                self.swap_keys(*bank, *old(ws), pool_id, *sender),
            ),
            r is Err ==> final(ws).top().writes@ == old(ws).top().writes@
                && final(ws).top().events@ == old(ws).top().events@
                && WorkingSet::ws_effect(*old(ws), *final(ws), Set::empty()),
            self.spec_pool(*old(ws), pool_id) is None ==> r == Err::<CallResponse, Error>(
                Error::PoolNotFound,
            ),
            self.spec_pool(*old(ws), pool_id) is Some && token_a_amount > 0 && token_b_amount > 0
                ==> r == Err::<CallResponse, Error>(Error::OnlyOneToken),
            (r is Ok && *sender != self.address && self.spec_pool(*old(ws), pool_id) is Some
                && self.spec_pool(*old(ws), pool_id).unwrap().token_a != self.spec_pool(
                *old(ws),
                pool_id,
            ).unwrap().token_b) ==> {
                let p = self.spec_pool(*old(ws), pool_id).unwrap();
                if token_a_amount > 0 {
                    let out = SwapModule::spec_swap_out(
                        token_a_amount,
                        p.token_b_liquidity,
                        p.token_a_liquidity,
                    );
                    &&& bank.spec_balance(*final(ws), p.token_a, *sender) == Some(
                        (bank.spec_bal0(*old(ws), p.token_a, *sender) - token_a_amount) as u64,
                    )
                    &&& bank.spec_balance(*final(ws), p.token_a, self.address) == Some(
                        (bank.spec_bal0(*old(ws), p.token_a, self.address)
                            + token_a_amount) as u64,
                    )
                    &&& bank.spec_balance(*final(ws), p.token_b, *sender) == Some(
                        (bank.spec_bal0(*old(ws), p.token_b, *sender) + out) as u64,
                    )
                    &&& bank.spec_balance(*final(ws), p.token_b, self.address) == Some(
                        (bank.spec_bal0(*old(ws), p.token_b, self.address) - out) as u64,
                    )
                } else {
                    let out = SwapModule::spec_swap_out(
                        token_b_amount,
                        p.token_a_liquidity,
                        p.token_b_liquidity,
                    );
                    &&& bank.spec_balance(*final(ws), p.token_b, *sender) == Some(
                        (bank.spec_bal0(*old(ws), p.token_b, *sender) - token_b_amount) as u64,
                    )
                    &&& bank.spec_balance(*final(ws), p.token_b, self.address) == Some(
                        (bank.spec_bal0(*old(ws), p.token_b, self.address)
                            + token_b_amount) as u64,
                    )
                    &&& bank.spec_balance(*final(ws), p.token_a, *sender) == Some(
                        (bank.spec_bal0(*old(ws), p.token_a, *sender) + out) as u64,
                    )
                    &&& bank.spec_balance(*final(ws), p.token_a, self.address) == Some(
                        (bank.spec_bal0(*old(ws), p.token_a, self.address) - out) as u64,
                    )
                }
            },
            (*sender != self.address && self.spec_pool(*old(ws), pool_id) is Some && self.spec_pool(
                *old(ws),
                pool_id,
            ).unwrap().token_a != self.spec_pool(*old(ws), pool_id).unwrap().token_b) ==> (
            r is Ok <==> self.spec_swap_ok(
                *bank,
                *old(ws),
                pool_id,
                token_a_amount,
                token_b_amount,
                *sender,
            )),
            r is Ok ==> self.spec_pool(*old(ws), pool_id) is Some,
            r is Ok ==> {
                let p = self.spec_pool(*old(ws), pool_id).unwrap();
                &&& !(token_a_amount > 0 && token_b_amount > 0)
                &&& p.token_a_liquidity > 0
                &&& p.token_b_liquidity > 0
                &&& p.token_a_liquidity >= token_a_amount
                &&& p.token_b_liquidity >= token_b_amount
                &&& self.spec_pool(*final(ws), pool_id) == Some(
                    SwapModule::spec_pool_after_swap(p, token_a_amount, token_b_amount),
                )
            },
            r is Ok ==> {
                let p = self.spec_pool(*old(ws), pool_id).unwrap();
                final(ws).top().events@ == old(ws).top().events@.push(
                    if token_a_amount > 0 {
                        SwapModule::spec_swap_event(
                            pool_id,
                            *sender,
                            p.token_a,
                            p.token_b,
                            token_a_amount,
                            SwapModule::spec_swap_out(
                                token_a_amount,
                                p.token_b_liquidity,
                                p.token_a_liquidity,
                            ) as u64,
                        )
                    } else {
                        SwapModule::spec_swap_event(
                            pool_id,
                            *sender,
                            p.token_b,
                            p.token_a,
                            token_b_amount,
                            SwapModule::spec_swap_out(
                                token_b_amount,
                                p.token_a_liquidity,
                                p.token_b_liquidity,
                            ) as u64,
                        )
                    },
                )
            },
    {
        let ghost pre = *ws;
        let pool = match self.get_pool(&pool_id, ws) {
            Option::Some(p) => p,
            Option::None => {
                proof {
                    WorkingSet::lemma_ws_effect_refl(pre);
                }
                return Err(Error::PoolNotFound);
            },
        };
        if token_a_amount > 0 && token_b_amount > 0 {
            proof {
                WorkingSet::lemma_ws_effect_refl(pre);
            }
            return Err(Error::OnlyOneToken);
        }
        if pool.token_a_liquidity == 0 || pool.token_b_liquidity == 0 {
            proof {
                WorkingSet::lemma_ws_effect_refl(pre);
            }
            return Err(Error::NoLiquidity);
        }
        if pool.token_a_liquidity < token_a_amount || pool.token_b_liquidity < token_b_amount {
            proof {
                WorkingSet::lemma_ws_effect_refl(pre);
            }
            return Err(Error::NotEnoughLiquidity);
        }
        let send_token: Address;
        let receive_token: Address;
        let send_amount: u64;
        let receive_amount: u64;
        let new_pool: Pool;
        if token_a_amount > 0 {
            proof {
                assert((token_a_amount as int) * (pool.token_b_liquidity as int) <= (
                pool.token_a_liquidity as int) * (pool.token_b_liquidity as int))
                    by (nonlinear_arith)
                    requires
                        token_a_amount <= pool.token_a_liquidity,
                ;
                assert(((pool.token_a_liquidity as int) * (pool.token_b_liquidity as int)) / (
                pool.token_a_liquidity as int) == pool.token_b_liquidity as int)
                    by (nonlinear_arith)
                    requires
                        pool.token_a_liquidity > 0,
                ;
                vstd::arithmetic::div_mod::lemma_div_is_ordered(
                    (token_a_amount as int) * (pool.token_b_liquidity as int),
                    (pool.token_a_liquidity as int) * (pool.token_b_liquidity as int),
                    pool.token_a_liquidity as int,
                );
                assert((token_a_amount as u128 as int) * (pool.token_b_liquidity as u128 as int)
                    <= u128::MAX) by (nonlinear_arith)
                    requires
                        token_a_amount <= u64::MAX,
                        pool.token_b_liquidity <= u64::MAX,
                ;
            }
            let wide: u128 = (token_a_amount as u128) * (pool.token_b_liquidity as u128);
            let b_to_send: u64 = (wide / (pool.token_a_liquidity as u128)) as u64;
            if token_a_amount > u64::MAX - pool.token_a_liquidity {
                proof {
                    WorkingSet::lemma_ws_effect_refl(pre);
                }
                return Err(Error::LiquidityComputation);
            }
            send_token = pool.token_a;
            receive_token = pool.token_b;
            send_amount = token_a_amount;
            receive_amount = b_to_send;
            new_pool = Pool {
                token_a: pool.token_a,
                token_a_liquidity: pool.token_a_liquidity + token_a_amount,
                token_b: pool.token_b,
                token_b_liquidity: pool.token_b_liquidity - b_to_send,
                liquidity_token: pool.liquidity_token,
            };
        } else {
            proof {
                assert((token_b_amount as int) * (pool.token_a_liquidity as int) <= (
                pool.token_b_liquidity as int) * (pool.token_a_liquidity as int))
                    by (nonlinear_arith)
                    requires
                        token_b_amount <= pool.token_b_liquidity,
                ;
                assert(((pool.token_b_liquidity as int) * (pool.token_a_liquidity as int)) / (
                pool.token_b_liquidity as int) == pool.token_a_liquidity as int)
                    by (nonlinear_arith)
                    requires
                        pool.token_b_liquidity > 0,
                ;
                vstd::arithmetic::div_mod::lemma_div_is_ordered(
                    (token_b_amount as int) * (pool.token_a_liquidity as int),
                    (pool.token_b_liquidity as int) * (pool.token_a_liquidity as int),
                    pool.token_b_liquidity as int,
                );
                assert((token_b_amount as u128 as int) * (pool.token_a_liquidity as u128 as int)
                    <= u128::MAX) by (nonlinear_arith)
                    requires
                        token_b_amount <= u64::MAX,
                        pool.token_a_liquidity <= u64::MAX,
                ;
            }
            let wide: u128 = (token_b_amount as u128) * (pool.token_a_liquidity as u128);
            let a_to_send: u64 = (wide / (pool.token_b_liquidity as u128)) as u64;
            if token_b_amount > u64::MAX - pool.token_b_liquidity {
                proof {
                    WorkingSet::lemma_ws_effect_refl(pre);
                }
                return Err(Error::LiquidityComputation);
            }
            send_token = pool.token_b;
            receive_token = pool.token_a;
            send_amount = token_b_amount;
            receive_amount = a_to_send;
            new_pool = Pool {
                token_a: pool.token_a,
                token_a_liquidity: pool.token_a_liquidity - a_to_send,
                token_b: pool.token_b,
                token_b_liquidity: pool.token_b_liquidity + token_b_amount,
                liquidity_token: pool.liquidity_token,
            };
        }
        ws.open_scope();
        let t1 = bank.transfer_from(
            &self.address,
            sender,
            Coins { token_address: receive_token, amount: receive_amount },
            ws,
        );
        if t1.is_err() {
            ws.discard_scope();
            proof {
                assert(WorkingSet::ws_effect(pre, *ws, Set::empty()));
            }
            return Err(Error::TransferFailed);
        }
        let t2 = bank.transfer_from(
            sender,
            &self.address,
            Coins { token_address: send_token, amount: send_amount },
            ws,
        );
        if t2.is_err() {
            ws.discard_scope();
            proof {
                assert(WorkingSet::ws_effect(pre, *ws, Set::empty()));
            }
            return Err(Error::TransferFailed);
        }
        let pool_key = StorageKey {
            module: self.address,
            field: POOLS_FIELD,
            k1: pool_id,
            k2: Address::zero(),
        };
        ws.set(pool_key, Value::PoolVal(new_pool));
        ws.add_event(
            Event {
                key: ShortName { w0: 5, w1: 0, w2: 0, w3: 0 },
                value: EventData {
                    a0: pool_id,
                    a1: *sender,
                    a2: send_token,
                    a3: receive_token,
                    n0: send_amount,
                    n1: receive_amount,
                },
            },
        );
        let ghost before_commit = *ws;
        ws.commit_scope();
        proof {
            let post = *ws;
            let ghost ev = Event {
                key: ShortName { w0: 5, w1: 0, w2: 0, w3: 0 },
                value: EventData {
                    a0: pool_id,
                    a1: *sender,
                    a2: send_token,
                    a3: receive_token,
                    n0: send_amount,
                    n1: receive_amount,
                },
            };
            assert(post.top().writes@ == pre.top().writes@ + before_commit.top().writes@);
            assert(pre.top().writes@.is_prefix_of(post.top().writes@));
            assert(post.top().events@ == pre.top().events@ + before_commit.top().events@);
            assert(before_commit.top().events@ =~= seq![ev]);
            assert(post.top().events@ =~= pre.top().events@.push(ev));
            assert(pre.top().events@.is_prefix_of(post.top().events@));
            assert(WorkingSet::ws_effect(
                pre,
                post,
                self.swap_keys(*bank, pre, pool_id, *sender),
            ));
            assert(post.val(pool_key) == Some(Value::PoolVal(new_pool)));
        }
        Ok(CallResponse::new())
    }

    /// Removing liquidity: the call is accepted and changes nothing.
    pub fn remove_liquidity(
        &self,
        _pool_id: Address,
        _liquidity_amount: u64,
        ws: &mut WorkingSet,
    ) -> (r: Result<CallResponse, Error>)
        requires
            old(ws).wf(),
        ensures
            final(ws).wf(),
            r is Ok,
            *final(ws) == *old(ws),
    {
        Ok(CallResponse::new())
    }

    /// The events one successful call message appends, in order.
    pub open spec fn spec_call_events(
        self,
        bank: Bank,
        ws: WorkingSet,
        msg: CallMessage,
        sender: Address,
    ) -> Seq<Event> {
        match msg {
            CallMessage::CreatePool { token_a, token_b } => seq![
                SwapModule::spec_create_pool_event(
                    spec_pool_id(token_a, token_b),
                    token_a,
                    token_b,
                    spec_lp_token(self.address, token_a, token_b),
                ),
            ],
            CallMessage::AddLiquidity { pool_id, .. } => seq![
                SwapModule::spec_add_liquidity_event(pool_id),
            ],
            CallMessage::RemoveLiquidity { .. } => Seq::empty(),
            CallMessage::Swap { pool_id, token_a_amount, token_b_amount } => {
                let p = self.spec_pool(ws, pool_id).unwrap();
                seq![
                    if token_a_amount > 0 {
                        SwapModule::spec_swap_event(
                            pool_id,
                            sender,
                            p.token_a,
                            p.token_b,
                            token_a_amount,
                            SwapModule::spec_swap_out(
                                token_a_amount,
                                p.token_b_liquidity,
                                p.token_a_liquidity,
                            ) as u64,
                        )
                    } else {
                        SwapModule::spec_swap_event(
                            pool_id,
                            sender,
                            p.token_b,
                            p.token_a,
                            token_b_amount,
                            SwapModule::spec_swap_out(
                                token_b_amount,
                                p.token_a_liquidity,
                                p.token_b_liquidity,
                            ) as u64,
                        )
                    },
                ]
            },
        }
    }

    /// What one successful call message did, relating the state before
    /// (`ws1`) to the state after (`ws2`): the pool record, the token
    /// effects and the appended event, per message.
    pub open spec fn spec_call_effects(
        self,
        bank: Bank,
        ws1: WorkingSet,
        ws2: WorkingSet,
        msg: CallMessage,
        sender: Address,
    ) -> bool {
        &&& ws2.top().events@ == ws1.top().events@ + self.spec_call_events(
            bank,
            ws1,
            msg,
            sender,
        )
        &&& match msg {
            CallMessage::CreatePool { token_a, token_b } => {
                let lp = spec_lp_token(self.address, token_a, token_b);
                &&& self.spec_pool(ws2, spec_pool_id(token_a, token_b)) == Some(
                    Pool {
                        token_a,
                        token_a_liquidity: 0,
                        token_b,
                        token_b_liquidity: 0,
                        liquidity_token: lp,
                    },
                )
                &&& bank.spec_token(ws2, lp) == Some(crate::state::TokenRecord { total_supply: 0 })
                &&& bank.spec_balance(ws2, lp, self.address) == Some(0u64)
                &&& forall|m: Address|
                    #![trigger bank.spec_authorized(ws2, spec_lp_token(self.address, token_a, token_b), m)]
                    bank.spec_authorized(ws2, lp, m) == (m == self.address || bank.spec_authorized(
                        ws1,
                        lp,
                        m,
                    ))
            },
            CallMessage::AddLiquidity { pool_id, token_a_amount, token_b_amount } => {
                &&& self.spec_pool(ws1, pool_id) is Some
                &&& self.spec_pool(ws2, pool_id) == Some(
                    SwapModule::spec_pool_after_add(
                        self.spec_pool(ws1, pool_id).unwrap(),
                        token_a_amount,
                        token_b_amount,
                    ),
                )
            },
            CallMessage::RemoveLiquidity { .. } => forall|k: StorageKey|
                (k.module == self.address || k.module == bank.address) ==> ws2.val(k) == ws1.val(
                    k,
                ),
            CallMessage::Swap { pool_id, token_a_amount, token_b_amount } => {
                &&& self.spec_pool(ws1, pool_id) is Some
                &&& self.spec_pool(ws2, pool_id) == Some(
                    SwapModule::spec_pool_after_swap(
                        self.spec_pool(ws1, pool_id).unwrap(),
                        token_a_amount,
                        token_b_amount,
                    ),
                )
            },
        }
    }

    /// Whether the old state alone decides a call message exactly: it
    /// does, except where the sender is the module itself or a pool
    /// pairs a token with itself, where the intermediate transfers can
    /// interfere.
    pub open spec fn spec_call_exact(
        self,
        bank: Bank,
        ws: WorkingSet,
        msg: CallMessage,
        sender: Address,
    ) -> bool {
        match msg {
            CallMessage::CreatePool { .. } => true,
            CallMessage::AddLiquidity { pool_id, .. } => sender != self.address && (self.spec_pool(
                ws,
                pool_id,
            ) is None || {
                let p = self.spec_pool(ws, pool_id).unwrap();
                p.token_a != p.token_b && p.liquidity_token != p.token_a && p.liquidity_token
                    != p.token_b
            }),
            CallMessage::RemoveLiquidity { .. } => true,
            CallMessage::Swap { pool_id, .. } => sender != self.address && (self.spec_pool(
                ws,
                pool_id,
            ) is None || self.spec_pool(ws, pool_id).unwrap().token_a != self.spec_pool(
                ws,
                pool_id,
            ).unwrap().token_b),
        }
    }

    /// When a call message is owed success, stated over the state
    /// before the call; exact wherever [`Self::spec_call_exact`] holds.
    pub open spec fn spec_call_ok(
        self,
        bank: Bank,
        ws: WorkingSet,
        msg: CallMessage,
        sender: Address,
    ) -> bool {
        match msg {
            CallMessage::CreatePool { token_a, token_b } => self.spec_create_pool_ok(
                bank,
                ws,
                token_a,
                token_b,
            ),
            CallMessage::AddLiquidity { pool_id, token_a_amount, token_b_amount } => self
                .spec_add_liquidity_ok(bank, ws, pool_id, token_a_amount, token_b_amount, sender),
            CallMessage::RemoveLiquidity { .. } => true,
            CallMessage::Swap { pool_id, token_a_amount, token_b_amount } => self.spec_swap_ok(
                bank,
                ws,
                pool_id,
                token_a_amount,
                token_b_amount,
                sender,
            ),
        }
    }

    /// Routes a decoded call message to the module's logic.
    pub fn call(
        &self,
        bank: &Bank,
        msg: CallMessage,
        sender: &Address,
        ws: &mut WorkingSet,
    ) -> (r: Result<CallResponse, Error>)
        requires
            old(ws).wf(),
            self.address != bank.address,
        ensures
            final(ws).wf(),
            WorkingSet::ws_effect(*old(ws), *final(ws), self.reach(*bank)),
            r is Err ==> final(ws).top().writes@ == old(ws).top().writes@
                && final(ws).top().events@ == old(ws).top().events@
                && WorkingSet::ws_effect(*old(ws), *final(ws), Set::empty()),
            self.spec_call_exact(*bank, *old(ws), msg, *sender) ==> (r is Ok
                <==> self.spec_call_ok(*bank, *old(ws), msg, *sender)),
            r is Ok ==> self.spec_call_effects(*bank, *old(ws), *final(ws), msg, *sender),
            (msg matches CallMessage::CreatePool { token_a, token_b } && self.spec_pool(
                *old(ws),
                spec_pool_id(token_a, token_b),
            ) is Some) ==> r == Err::<CallResponse, Error>(Error::PoolAlreadyExists),
            (msg matches CallMessage::AddLiquidity { pool_id, .. } && self.spec_pool(
                *old(ws),
                pool_id,
            ) is None) ==> r == Err::<CallResponse, Error>(Error::PoolNotFound),
            (msg matches CallMessage::Swap { pool_id, .. } && self.spec_pool(
                *old(ws),
                pool_id,
            ) is None) ==> r == Err::<CallResponse, Error>(Error::PoolNotFound),
            (msg matches CallMessage::Swap { pool_id, token_a_amount, token_b_amount }
                && self.spec_pool(*old(ws), pool_id) is Some && token_a_amount > 0
                && token_b_amount > 0) ==> r == Err::<CallResponse, Error>(Error::OnlyOneToken),
    {
        let ghost pre = *ws;
        match msg {
            CallMessage::CreatePool { token_a, token_b } => {
                let r = self.create_pool(bank, token_a, token_b, ws);
                proof {
                    if r is Ok {
                        assert(ws.top().events@ =~= pre.top().events@ + self.spec_call_events(
                            *bank,
                            pre,
                            msg,
                            *sender,
                        ));
                    }
                }
                r
            },
            CallMessage::AddLiquidity { pool_id, token_a_amount, token_b_amount } => {
                let r = self.add_liquidity(
                    bank,
                    pool_id,
                    token_a_amount,
                    token_b_amount,
                    sender,
                    ws,
                );
                proof {
                    if r is Ok {
                        assert(ws.top().events@ =~= pre.top().events@ + self.spec_call_events(
                            *bank,
                            pre,
                            msg,
                            *sender,
                        ));
                    }
                }
                r
            },
            CallMessage::RemoveLiquidity { pool_id, liquidity_amount } => {
                let r = self.remove_liquidity(pool_id, liquidity_amount, ws);
                proof {
                    WorkingSet::lemma_ws_effect_refl(pre);
                    WorkingSet::lemma_ws_effect_widen(
                        pre,
                        *ws,
                        Set::empty(),
                        self.reach(*bank),
                    );
                }
                r
            },
            CallMessage::Swap { pool_id, token_a_amount, token_b_amount } => {
                let r = self.swap(bank, pool_id, token_a_amount, token_b_amount, sender, ws);
                proof {
                    if r is Ok {
                        assert(ws.top().events@ =~= pre.top().events@ + self.spec_call_events(
                            *bank,
                            pre,
                            msg,
                            *sender,
                        ));
                    }
                }
                r
            },
        }
    }
}

} // verus!
