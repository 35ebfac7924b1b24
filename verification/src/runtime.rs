//! The module registry and call dispatcher.
//!
//! The runtime is constructed once with a fixed, ordered set of
//! modules; their addresses are derived at construction and never
//! change, and construction fails if any two modules would share an
//! address, so no two modules ever alias a storage key.

use vstd::prelude::*;

use crate::accounts::Accounts;
use crate::address::Address;
use crate::address::HASH_BASIS;
use crate::address::spec_mix;
use crate::address::mix;
use crate::bank::Bank;
use crate::bank::BankConfig;
use crate::election::Election;
use crate::election::ElectionConfig;
use crate::errors::CallResponse;
use crate::errors::Error;
use crate::sequencer_registry::SequencerConfig;
use crate::sequencer_registry::SequencerRegistry;
use crate::state::StorageKey;
use crate::state::WorkingSet;
use crate::swap::SwapModule;
use crate::swap::SwapModuleConfig;
use crate::value_setter::ValueSetter;
use crate::value_setter::ValueSetterConfig;

verus! {

/// Module namespace tags, the salts their addresses derive from.
pub const ACCOUNTS_TAG: u64 = 1;

pub const BANK_TAG: u64 = 2;

pub const SEQUENCER_TAG: u64 = 3;

pub const VALUE_SETTER_TAG: u64 = 4;

pub const ELECTION_TAG: u64 = 5;

pub const SWAP_TAG: u64 = 6;

/// The deterministic address of the module with namespace tag `tag`.
pub open spec fn spec_module_address(tag: u64) -> Address {
    let h = spec_mix(HASH_BASIS, tag);
    Address { w0: spec_mix(h, 1), w1: spec_mix(h, 2), w2: spec_mix(h, 3), w3: spec_mix(h, 4) }
}

/// Derives the address of the module with namespace tag `tag`.
pub fn module_address(tag: u64) -> (r: Address)
    ensures
        r == spec_module_address(tag),
{
    let h = mix(HASH_BASIS, tag);
    Address { w0: mix(h, 1), w1: mix(h, 2), w2: mix(h, 3), w3: mix(h, 4) }
}

/// A decoded call message, tagged with the module that owns it.
#[derive(Clone, Copy, PartialEq, Eq, Structural, Debug)]
pub enum RuntimeCall {
    Bank(crate::bank::CallMessage),
    ValueSetter(u32),
    ElectionVote(u64),
    ElectionFreeze,
    Swap(crate::swap::CallMessage),
}

/// The ordered genesis configuration, one entry per module.
pub struct GenesisConfig {
    pub bank: BankConfig,
    pub sequencer: SequencerConfig,
    pub value_setter: ValueSetterConfig,
    pub election: ElectionConfig,
    pub swap: SwapModuleConfig,
}

/// The fixed, ordered set of modules.
pub struct Runtime {
    pub accounts: Accounts,
    pub bank: Bank,
    pub sequencer: SequencerRegistry,
    pub value_setter: ValueSetter,
    pub election: Election,
    pub swap: SwapModule,
}

impl Runtime {
    /// Well-formed: every module sits at its derived address, and no
    /// two modules share one.
    pub open spec fn wf(self) -> bool {
        &&& self.accounts.address == spec_module_address(ACCOUNTS_TAG)
        &&& self.bank.address == spec_module_address(BANK_TAG)
        &&& self.sequencer.address == spec_module_address(SEQUENCER_TAG)
        &&& self.value_setter.address == spec_module_address(VALUE_SETTER_TAG)
        &&& self.election.address == spec_module_address(ELECTION_TAG)
        &&& self.swap.address == spec_module_address(SWAP_TAG)
        &&& self.accounts.address != self.bank.address
        &&& self.accounts.address != self.sequencer.address
        &&& self.accounts.address != self.value_setter.address
        &&& self.accounts.address != self.election.address
        &&& self.accounts.address != self.swap.address
        &&& self.bank.address != self.sequencer.address
        &&& self.bank.address != self.value_setter.address
        &&& self.bank.address != self.election.address
        &&& self.bank.address != self.swap.address
        &&& self.sequencer.address != self.value_setter.address
        &&& self.sequencer.address != self.election.address
        &&& self.sequencer.address != self.swap.address
        &&& self.value_setter.address != self.election.address
        &&& self.value_setter.address != self.swap.address
        &&& self.election.address != self.swap.address
    }

    /// Every key a dispatched call may touch: everything but the
    /// accounts module's namespace, so dispatch can never move a nonce.
    pub open spec fn business_keys(self) -> Set<StorageKey> {
        Set::new(|k: StorageKey| k.module != self.accounts.address)
    }

    /// Two of the six derived module addresses coincide: the one
    /// condition under which the runtime cannot be built.
    pub open spec fn spec_addresses_collide() -> bool {
        let a0 = spec_module_address(ACCOUNTS_TAG);
        let a1 = spec_module_address(BANK_TAG);
        let a2 = spec_module_address(SEQUENCER_TAG);
        let a3 = spec_module_address(VALUE_SETTER_TAG);
        let a4 = spec_module_address(ELECTION_TAG);
        let a5 = spec_module_address(SWAP_TAG);
        ||| a0 == a1
        ||| a0 == a2
        ||| a0 == a3
        ||| a0 == a4
        ||| a0 == a5
        ||| a1 == a2
        ||| a1 == a3
        ||| a1 == a4
        ||| a1 == a5
        ||| a2 == a3
        ||| a2 == a4
        ||| a2 == a5
        ||| a3 == a4
        ||| a3 == a5
        ||| a4 == a5
    }

    /// Builds the runtime, deriving every module's address.  Returns
    /// `None` exactly when two derived addresses collide, so a
    /// well-formed runtime's modules never alias a key.
    pub fn new() -> (r: Option<Runtime>)
        ensures
            r is None <==> Runtime::spec_addresses_collide(),
            r is Some ==> r.unwrap().wf(),
    {
        let a0 = module_address(ACCOUNTS_TAG);
        let a1 = module_address(BANK_TAG);
        let a2 = module_address(SEQUENCER_TAG);
        let a3 = module_address(VALUE_SETTER_TAG);
        let a4 = module_address(ELECTION_TAG);
        let a5 = module_address(SWAP_TAG);
        if a0 == a1 || a0 == a2 || a0 == a3 || a0 == a4 || a0 == a5 || a1 == a2 || a1 == a3 || a1
            == a4 || a1 == a5 || a2 == a3 || a2 == a4 || a2 == a5 || a3 == a4 || a3 == a5 || a4
            == a5 {
            return None;
        }
        Some(
            Runtime {
                accounts: Accounts::new(a0),
                bank: Bank::new(a1),
                sequencer: SequencerRegistry::new(a2),
                value_setter: ValueSetter::new(a3),
                election: Election::new(a4),
                swap: SwapModule::new(a5),
            },
        )
    }

    /// Runs every module's genesis, in registry order, against `ws`.
    /// Fails exactly when the bank's supply computation overflows; the
    /// orchestrator treats any failure as fatal and commits nothing.
    pub fn genesis(&self, config: &GenesisConfig, ws: &mut WorkingSet) -> (r: Result<(), Error>)
        requires
            old(ws).wf(),
            self.wf(),
            config.election.candidates@.len() <= 0xffff_ffff,
        ensures
            final(ws).wf(),
            final(ws).depth() == old(ws).depth(),
            final(ws).base@ == old(ws).base@,
            final(ws).top().events@ == old(ws).top().events@,
            r is Ok <==> crate::bank::spec_genesis_ok(config.bank.tokens@),
            r is Err ==> r == Err::<(), Error>(Error::TotalSupplyOverflow),
            r is Ok && self.bank.spec_bank_cfg_wf(config.bank.tokens@)
                ==> self.bank.spec_installed_upto(
                *final(ws),
                config.bank.tokens@,
                config.bank.tokens@.len() as int,
            ),
            r is Ok ==> self.sequencer.spec_seq_da(*final(ws)) == Some(
                config.sequencer.seq_da_address,
            ) && self.sequencer.spec_seq_rollup(*final(ws)) == Some(
                config.sequencer.seq_rollup_address,
            ) && self.sequencer.spec_coins(*final(ws)) == Some(config.sequencer.coins_to_lock),
            r is Ok ==> self.value_setter.spec_admin(*final(ws)) == Some(
                config.value_setter.admin,
            ) && self.value_setter.spec_value(*final(ws)) == self.value_setter.spec_value(
                *old(ws),
            ),
            r is Ok ==> self.election.spec_admin(*final(ws)) == Some(config.election.admin)
                && !self.election.spec_frozen(*final(ws)) && final(ws).val(
                self.election.frozen_key(),
            ) == Some(crate::state::Value::Flag(false)) && self.election.spec_count0(*final(ws))
                == config.election.candidates@.len() && final(ws).val(self.election.count_key())
                == Some(crate::state::Value::U64(config.election.candidates@.len() as u64))
                && self.election.spec_ballot_installed(
                *final(ws),
                config.election.candidates@,
                config.election.candidates@.len() as int,
            ),
    {
        let ghost pre = *ws;
        let r = self.bank.genesis(&config.bank, ws);
        if r.is_err() {
            return Err(Error::TotalSupplyOverflow);
        }
        let ghost s1 = *ws;
        let r2 = self.sequencer.genesis(&config.sequencer, ws);
        let ghost s2 = *ws;
        let r3 = self.value_setter.genesis(&config.value_setter, ws);
        let ghost s3 = *ws;
        let r4 = self.election.genesis(&config.election, ws);
        proof {
            let post = *ws;
            assert(self.bank.spec_bank_cfg_wf(config.bank.tokens@)
                ==> self.bank.spec_installed_upto(
                post,
                config.bank.tokens@,
                config.bank.tokens@.len() as int,
            )) by {
                if self.bank.spec_bank_cfg_wf(config.bank.tokens@) {
                    assert forall|i: int|
                        0 <= i < config.bank.tokens@.len() implies #[trigger] self.bank
                        .spec_installed_at(post, config.bank.tokens@, i) by {
                        assert(self.bank.spec_installed_at(s1, config.bank.tokens@, i));
                        let addr_i = self.bank.spec_cfg_addr(config.bank.tokens@, i);
                        let pairs_i = config.bank.tokens@[i].address_and_balances@;
                        assert(post.val(self.bank.token_key(addr_i)) == s1.val(
                            self.bank.token_key(addr_i),
                        ));
                        assert forall|jj: int|
                            #![trigger self.bank.spec_balance(post, addr_i, pairs_i[jj].0)]
                            0 <= jj < pairs_i.len() implies self.bank.spec_balance(
                            post,
                            addr_i,
                            pairs_i[jj].0,
                        ) == Some(pairs_i[jj].1) by {
                            assert(self.bank.spec_balance(s1, addr_i, pairs_i[jj].0) == Some(
                                pairs_i[jj].1,
                            ));
                            assert(post.val(self.bank.balance_key(addr_i, pairs_i[jj].0))
                                == s1.val(self.bank.balance_key(addr_i, pairs_i[jj].0)));
                        }
                    }
                }
            }
        }
        Ok(())
    }

    /// Whether the old state alone decides a dispatched call exactly;
    /// see [`crate::swap::SwapModule::spec_call_exact`] for the one
    /// family of exceptions.
    pub open spec fn spec_dispatch_exact(
        self,
        ws: WorkingSet,
        call: RuntimeCall,
        sender: Address,
    ) -> bool {
        match call {
            RuntimeCall::Swap(m) => self.swap.spec_call_exact(self.bank, ws, m, sender),
            _ => true,
        }
    }

    /// When a dispatched call is owed success, stated over the state
    /// before the call.
    pub open spec fn spec_dispatch_ok(
        self,
        ws: WorkingSet,
        call: RuntimeCall,
        sender: Address,
    ) -> bool {
        match call {
            RuntimeCall::Bank(m) => self.bank.spec_call_ok(ws, m, sender),
            RuntimeCall::ValueSetter(_) => self.value_setter.spec_admin(ws) == Some(sender),
            RuntimeCall::ElectionVote(c) => self.election.spec_vote_ok(ws, c),
            RuntimeCall::ElectionFreeze => self.election.spec_admin(ws) == Some(sender),
            RuntimeCall::Swap(m) => self.swap.spec_call_ok(self.bank, ws, m, sender),
        }
    }

    /// The events one successfully dispatched call appends, in order.
    pub open spec fn spec_dispatch_events(
        self,
        ws: WorkingSet,
        call: RuntimeCall,
        sender: Address,
    ) -> Seq<crate::state::Event> {
        match call {
            RuntimeCall::Bank(_) => Seq::empty(),
            RuntimeCall::ValueSetter(v) => seq![ValueSetter::spec_set_event(v)],
            RuntimeCall::ElectionVote(c) => seq![Election::spec_vote_event(c)],
            RuntimeCall::ElectionFreeze => Seq::empty(),
            RuntimeCall::Swap(m) => self.swap.spec_call_events(self.bank, ws, m, sender),
        }
    }

    /// What one successfully dispatched call did, relating the state
    /// before (`ws1`) to the state after (`ws2`): the owning module's
    /// effect, and exactly the call's events appended.
    pub open spec fn spec_dispatch_effects(
        self,
        ws1: WorkingSet,
        ws2: WorkingSet,
        call: RuntimeCall,
        sender: Address,
    ) -> bool {
        &&& ws2.top().events@ == ws1.top().events@ + self.spec_dispatch_events(ws1, call, sender)
        &&& match call {
            RuntimeCall::Bank(m) => self.bank.spec_call_effects(ws1, ws2, m, sender),
            RuntimeCall::ValueSetter(v) => self.value_setter.spec_value(ws2) == Some(v),
            RuntimeCall::ElectionVote(c) => self.election.spec_candidate(ws1, c) is Some
                && self.election.spec_candidate(ws2, c) == Some(
                crate::state::CandidateRecord {
                    name: self.election.spec_candidate(ws1, c).unwrap().name,
                    count: (self.election.spec_candidate(ws1, c).unwrap().count + 1) as u64,
                },
            ),
            RuntimeCall::ElectionFreeze => self.election.spec_frozen(ws2),
            RuntimeCall::Swap(m) => self.swap.spec_call_effects(self.bank, ws1, ws2, m, sender),
        }
    }

    /// The dispatch conditions read no accounts-module key, so two
    /// states that agree outside the accounts namespace decide every
    /// call alike.  The transaction pipeline leans on this: the
    /// authentication hook's account write cannot change what a call
    /// is owed.
    pub proof fn lemma_dispatch_conditions_frame(
        self,
        ws1: WorkingSet,
        ws2: WorkingSet,
        call: RuntimeCall,
        sender: Address,
    )
        requires
            self.wf(),
            forall|k: StorageKey| k.module != self.accounts.address ==> ws1.val(k) == ws2.val(k),
        ensures
            self.spec_dispatch_ok(ws1, call, sender) == self.spec_dispatch_ok(ws2, call, sender),
            self.spec_dispatch_exact(ws1, call, sender) == self.spec_dispatch_exact(
                ws2,
                call,
                sender,
            ),
    {
    }

    /// A dispatched call's effects transport along the accounts-frame:
    /// if two before/after pairs agree outside the accounts namespace
    /// and append the same events, the effects hold of both.  The
    /// transaction pipeline uses this to restate a call's effects over
    /// the whole transaction, across the authentication writes.
    pub proof fn lemma_dispatch_effects_frame(
        self,
        ws1: WorkingSet,
        ws2: WorkingSet,
        wsa: WorkingSet,
        wsb: WorkingSet,
        call: RuntimeCall,
        sender: Address,
    )
        requires
            self.wf(),
            self.spec_dispatch_effects(ws1, ws2, call, sender),
            forall|k: StorageKey| k.module != self.accounts.address ==> wsa.val(k) == ws1.val(k),
            forall|k: StorageKey| k.module != self.accounts.address ==> wsb.val(k) == ws2.val(k),
            wsb.top().events@ == wsa.top().events@ + self.spec_dispatch_events(ws1, call, sender),
        ensures
            self.spec_dispatch_effects(wsa, wsb, call, sender),
    {
        assert(self.spec_dispatch_events(wsa, call, sender) == self.spec_dispatch_events(
            ws1,
            call,
            sender,
        ));
        match call {
            RuntimeCall::Bank(m) => {
                assert(wsb.top().events@ =~= wsa.top().events@);
                match m {
                    crate::bank::CallMessage::CreateToken {
                        salt,
                        token_name,
                        minter_address,
                        authorized_minter,
                        ..
                    } => {
                        let token = crate::bank::spec_create_token_address(
                            token_name,
                            sender,
                            salt,
                        );
                        assert(wsb.val(self.bank.token_key(token)) == ws2.val(
                            self.bank.token_key(token),
                        ));
                        assert(wsb.val(self.bank.balance_key(token, minter_address)) == ws2.val(
                            self.bank.balance_key(token, minter_address),
                        ));
                        assert(wsb.val(self.bank.auth_key(token, authorized_minter)) == ws2.val(
                            self.bank.auth_key(token, authorized_minter),
                        ));
                    },
                    crate::bank::CallMessage::Transfer { to, coins } => {
                        assert(wsa.val(self.bank.balance_key(coins.token_address, sender))
                            == ws1.val(self.bank.balance_key(coins.token_address, sender)));
                        assert(wsa.val(self.bank.balance_key(coins.token_address, to)) == ws1.val(
                            self.bank.balance_key(coins.token_address, to),
                        ));
                        assert(wsb.val(self.bank.balance_key(coins.token_address, sender))
                            == ws2.val(self.bank.balance_key(coins.token_address, sender)));
                        assert(wsb.val(self.bank.balance_key(coins.token_address, to)) == ws2.val(
                            self.bank.balance_key(coins.token_address, to),
                        ));
                    },
                    crate::bank::CallMessage::Mint { coins, minter_address } => {
                        assert(wsa.val(self.bank.token_key(coins.token_address)) == ws1.val(
                            self.bank.token_key(coins.token_address),
                        ));
                        assert(wsb.val(self.bank.token_key(coins.token_address)) == ws2.val(
                            self.bank.token_key(coins.token_address),
                        ));
                        assert(wsa.val(self.bank.balance_key(coins.token_address, minter_address))
                            == ws1.val(
                            self.bank.balance_key(coins.token_address, minter_address),
                        ));
                        assert(wsb.val(self.bank.balance_key(coins.token_address, minter_address))
                            == ws2.val(
                            self.bank.balance_key(coins.token_address, minter_address),
                        ));
                    },
                }
                assert(self.bank.spec_call_effects(wsa, wsb, m, sender));
            },
            RuntimeCall::ValueSetter(_) => {
                assert(wsb.val(self.value_setter.value_key()) == ws2.val(
                    self.value_setter.value_key(),
                ));
            },
            RuntimeCall::ElectionVote(c) => {
                assert(wsa.val(self.election.cand_key(c)) == ws1.val(self.election.cand_key(c)));
                assert(wsb.val(self.election.cand_key(c)) == ws2.val(self.election.cand_key(c)));
            },
            RuntimeCall::ElectionFreeze => {
                assert(wsb.top().events@ =~= wsa.top().events@);
                assert(wsb.val(self.election.frozen_key()) == ws2.val(
                    self.election.frozen_key(),
                ));
            },
            RuntimeCall::Swap(m) => {
                assert(self.swap.spec_call_events(self.bank, wsa, m, sender)
                    == self.swap.spec_call_events(self.bank, ws1, m, sender)) by {
                    match m {
                        crate::swap::CallMessage::Swap { pool_id, .. } => {
                            assert(wsa.val(self.swap.pool_key(pool_id)) == ws1.val(
                                self.swap.pool_key(pool_id),
                            ));
                        },
                        _ => {},
                    }
                }
                match m {
                    crate::swap::CallMessage::CreatePool { token_a, token_b } => {
                        let lp = crate::swap::spec_lp_token(self.swap.address, token_a, token_b);
                        let pid = crate::swap::spec_pool_id(token_a, token_b);
                        assert(wsb.val(self.swap.pool_key(pid)) == ws2.val(
                            self.swap.pool_key(pid),
                        ));
                        assert(wsb.val(self.bank.token_key(lp)) == ws2.val(
                            self.bank.token_key(lp),
                        ));
                        assert(wsb.val(self.bank.balance_key(lp, self.swap.address)) == ws2.val(
                            self.bank.balance_key(lp, self.swap.address),
                        ));
                        assert forall|m2: Address|
                            #![trigger self.bank.spec_authorized(wsb, crate::swap::spec_lp_token(self.swap.address, token_a, token_b), m2)]
                            self.bank.spec_authorized(wsb, lp, m2) == (m2 == self.swap.address
                                || self.bank.spec_authorized(wsa, lp, m2)) by {
                            assert(wsa.val(self.bank.auth_key(lp, m2)) == ws1.val(
                                self.bank.auth_key(lp, m2),
                            ));
                            assert(wsb.val(self.bank.auth_key(lp, m2)) == ws2.val(
                                self.bank.auth_key(lp, m2),
                            ));
                            assert(self.bank.spec_authorized(ws2, lp, m2) == (m2
                                == self.swap.address || self.bank.spec_authorized(ws1, lp, m2)));
                        }
                    },
                    crate::swap::CallMessage::AddLiquidity { pool_id, .. } => {
                        assert(wsa.val(self.swap.pool_key(pool_id)) == ws1.val(
                            self.swap.pool_key(pool_id),
                        ));
                        assert(wsb.val(self.swap.pool_key(pool_id)) == ws2.val(
                            self.swap.pool_key(pool_id),
                        ));
                    },
                    crate::swap::CallMessage::RemoveLiquidity { .. } => {
                        assert forall|k: StorageKey|
                            (k.module == self.swap.address || k.module == self.bank.address)
                                implies wsb.val(k) == wsa.val(k) by {
                            assert(wsa.val(k) == ws1.val(k));
                            assert(wsb.val(k) == ws2.val(k));
                            assert(ws2.val(k) == ws1.val(k));
                        }
                    },
                    crate::swap::CallMessage::Swap { pool_id, .. } => {
                        assert(wsa.val(self.swap.pool_key(pool_id)) == ws1.val(
                            self.swap.pool_key(pool_id),
                        ));
                        assert(wsb.val(self.swap.pool_key(pool_id)) == ws2.val(
                            self.swap.pool_key(pool_id),
                        ));
                    },
                }
            },
        }
    }

    /// Resolves a call message to the owning module and forwards it,
    /// with `sender` as the acting identity.  A dispatched call only
    /// ever grows the innermost scope, touches no accounts-module key,
    /// and writes nothing at all when it fails.
    pub fn dispatch(
        &self,
        call: RuntimeCall,
        sender: &Address,
        ws: &mut WorkingSet,
    ) -> (r: Result<CallResponse, Error>)
        requires
            old(ws).wf(),
            self.wf(),
        ensures
            final(ws).wf(),
            WorkingSet::ws_effect(*old(ws), *final(ws), self.business_keys()),
            r is Err ==> final(ws).top().writes@ == old(ws).top().writes@
                && final(ws).top().events@ == old(ws).top().events@
                && WorkingSet::ws_effect(*old(ws), *final(ws), Set::empty()),
            self.spec_dispatch_exact(*old(ws), call, *sender) ==> (r is Ok
                <==> self.spec_dispatch_ok(*old(ws), call, *sender)),
            r is Ok ==> self.spec_dispatch_effects(*old(ws), *final(ws), call, *sender),
    {
        let ghost pre = *ws;
        let r = match call {
            RuntimeCall::Bank(msg) => {
                let r = self.bank.call(msg, sender, ws);
                proof {
                    assert(WorkingSet::ws_effect(pre, *ws, self.business_keys()));
                    if r is Ok {
                        assert(ws.top().events@ =~= pre.top().events@
                            + self.spec_dispatch_events(pre, call, *sender));
                    }
                }
                r
            },
            RuntimeCall::ValueSetter(value) => {
                let r = match self.value_setter.set_value(value, sender, ws) {
                    Ok(_) => Ok(CallResponse::new()),
                    Err(e) => Err(e),
                };
                proof {
                    assert(WorkingSet::ws_effect(pre, *ws, self.business_keys()));
                    if r is Ok {
                        assert(ws.top().events@ =~= pre.top().events@
                            + self.spec_dispatch_events(pre, call, *sender));
                    }
                }
                r
            },
            RuntimeCall::ElectionVote(candidate) => {
                let r = match self.election.vote(candidate, ws) {
                    Ok(_) => Ok(CallResponse::new()),
                    Err(e) => Err(e),
                };
                proof {
                    assert(WorkingSet::ws_effect(pre, *ws, self.business_keys()));
                    if r is Ok {
                        assert(ws.top().events@ =~= pre.top().events@
                            + self.spec_dispatch_events(pre, call, *sender));
                    }
                }
                r
            },
            RuntimeCall::ElectionFreeze => {
                let r = match self.election.freeze_election(sender, ws) {
                    Ok(_) => Ok(CallResponse::new()),
                    Err(e) => Err(e),
                };
                proof {
                    assert(WorkingSet::ws_effect(pre, *ws, self.business_keys()));
                    if r is Ok {
                        assert(ws.top().events@ =~= pre.top().events@
                            + self.spec_dispatch_events(pre, call, *sender));
                    }
                }
                r
            },
            RuntimeCall::Swap(msg) => {
                let r = self.swap.call(&self.bank, msg, sender, ws);
                proof {
                    assert(WorkingSet::ws_effect(pre, *ws, self.business_keys()));
                }
                r
            },
        };
        r
    }
}

} // verus!
