//! The sequencer registry: the economic-security module.
//!
//! It knows the one currently registered sequencer (its DA address and
//! its rollup-chain address) and the stake that must be locked around
//! every blob.  The blob-level hooks transfer the stake into the
//! module's own escrow before any transaction of a blob executes and
//! return it after the whole batch ran.

use vstd::prelude::*;

use crate::address::Address;
use crate::address::ShortName;
use crate::bank::Bank;
use crate::errors::Error;
use crate::state::Coins;
use crate::state::StorageKey;
use crate::state::Value;
use crate::state::WorkingSet;

verus! {

/// Field identifier of the registered sequencer's DA address.
pub const SEQ_DA_FIELD: u64 = 1;

/// Field identifier of the registered sequencer's rollup address.
pub const SEQ_ROLLUP_FIELD: u64 = 2;

/// Field identifier of the stake locked around each blob.
pub const COINS_TO_LOCK_FIELD: u64 = 3;

/// Genesis configuration of the registry.
pub struct SequencerConfig {
    /// The DA-layer address blobs must claim as their sender.
    pub seq_da_address: ShortName,
    /// The sequencer's address on the rollup chain, holding the stake.
    pub seq_rollup_address: Address,
    /// The stake locked around each blob.
    pub coins_to_lock: Coins,
}

/// The sequencer registry module.
pub struct SequencerRegistry {
    /// The module's own address: the stake's escrow account.
    pub address: Address,
}

impl SequencerRegistry {
    /// The key of the registered DA address.
    pub open spec fn da_key(self) -> StorageKey {
        StorageKey {
            module: self.address,
            field: SEQ_DA_FIELD,
            k1: Address::spec_zero(),
            k2: Address::spec_zero(),
        }
    }

    /// The key of the registered rollup address.
    pub open spec fn rollup_key(self) -> StorageKey {
        StorageKey {
            module: self.address,
            field: SEQ_ROLLUP_FIELD,
            k1: Address::spec_zero(),
            k2: Address::spec_zero(),
        }
    }

    /// The key of the configured stake.
    pub open spec fn coins_key(self) -> StorageKey {
        StorageKey {
            module: self.address,
            field: COINS_TO_LOCK_FIELD,
            k1: Address::spec_zero(),
            k2: Address::spec_zero(),
        }
    }

    /// Every key the module owns.
    pub open spec fn keyset(self) -> Set<StorageKey> {
        Set::new(|k: StorageKey| k.module == self.address)
    }

    /// The registered DA address, if any.
    pub open spec fn spec_seq_da(self, ws: WorkingSet) -> Option<ShortName> {
        match ws.val(self.da_key()) {
            Option::Some(Value::Name(n)) => Some(n),
            _ => None,
        }
    }

    /// The registered rollup address, if any.
    pub open spec fn spec_seq_rollup(self, ws: WorkingSet) -> Option<Address> {
        match ws.val(self.rollup_key()) {
            Option::Some(Value::Addr(a)) => Some(a),
            _ => None,
        }
    }

    /// The configured stake, if any.
    pub open spec fn spec_coins(self, ws: WorkingSet) -> Option<Coins> {
        match ws.val(self.coins_key()) {
            Option::Some(Value::CoinsVal(c)) => Some(c),
            _ => None,
        }
    }

    /// All three registration entries are present.
    pub open spec fn spec_registered(self, ws: WorkingSet) -> bool {
        &&& self.spec_seq_da(ws) is Some
        &&& self.spec_seq_rollup(ws) is Some
        &&& self.spec_coins(ws) is Some
    }

    /// The only keys the blob hooks may write: the stake token's
    /// balance entries of the registered sequencer and of the escrow.
    /// Everything else — every other balance, every token record and
    /// every minter flag — stays as it was.
    pub open spec fn stake_keys(self, bank: Bank, ws: WorkingSet) -> Set<StorageKey> {
        set![
            bank.balance_key(
                self.spec_coins(ws).unwrap().token_address,
                self.spec_seq_rollup(ws).unwrap(),
            ),
            bank.balance_key(self.spec_coins(ws).unwrap().token_address, self.address),
        ]
    }

    /// Whether a blob claiming `sender_da` may be bonded on `ws`: the
    /// registry is configured, the claimed sender is the registered
    /// sequencer, and its rollup balance covers the stake.
    pub open spec fn spec_begin_ok(self, bank: Bank, ws: WorkingSet, sender_da: ShortName) -> bool {
        &&& self.spec_registered(ws)
        &&& self.spec_seq_da(ws) == Some(sender_da)
        &&& bank.spec_can_transfer(
            ws,
            self.spec_seq_rollup(ws).unwrap(),
            self.address,
            self.spec_coins(ws).unwrap(),
        )
    }

    /// Whether the escrowed stake can be returned on `ws`.
    pub open spec fn spec_end_ok(self, bank: Bank, ws: WorkingSet) -> bool {
        &&& self.spec_registered(ws)
        &&& bank.spec_can_transfer(
            ws,
            self.address,
            self.spec_seq_rollup(ws).unwrap(),
            self.spec_coins(ws).unwrap(),
        )
    }

    /// Bonding is reversible: on any state the begin hook accepted and
    /// transformed, the end hook's transfer back is owed success.  The
    /// escrow holds at least the locked amount, and returning it cannot
    /// overflow the sequencer's balance, because that balance only
    /// returns to where it started.
    pub proof fn lemma_begin_then_end(
        self,
        bank: Bank,
        ws1: WorkingSet,
        ws2: WorkingSet,
        sender_da: ShortName,
    )
        requires
            bank.address != self.address,
            self.spec_begin_ok(bank, ws1, sender_da),
            forall|k: StorageKey|
                !self.stake_keys(bank, ws1).contains(k) ==> ws2.val(k) == ws1.val(k),
            self.spec_seq_rollup(ws1).unwrap() != self.address ==> {
                let rollup = self.spec_seq_rollup(ws1).unwrap();
                let coins = self.spec_coins(ws1).unwrap();
                &&& bank.spec_balance(ws2, coins.token_address, rollup) == Some(
                    (bank.spec_bal0(ws1, coins.token_address, rollup) - coins.amount) as u64,
                )
                &&& bank.spec_balance(ws2, coins.token_address, self.address) == Some(
                    (bank.spec_bal0(ws1, coins.token_address, self.address)
                        + coins.amount) as u64,
                )
            },
            self.spec_seq_rollup(ws1).unwrap() == self.address ==> forall|k: StorageKey|
                ws2.val(k) == ws1.val(k),
        ensures
            self.spec_end_ok(bank, ws2),
    {
        assert(!self.stake_keys(bank, ws1).contains(self.da_key()));
        assert(!self.stake_keys(bank, ws1).contains(self.rollup_key()));
        assert(!self.stake_keys(bank, ws1).contains(self.coins_key()));
    }

    /// A registry whose namespace (and escrow account) is `address`.
    pub fn new(address: Address) -> (r: SequencerRegistry)
        ensures
            r.address == address,
    {
        SequencerRegistry { address }
    }

    /// Installs the registered sequencer and the stake to lock.
    pub fn genesis(&self, config: &SequencerConfig, ws: &mut WorkingSet) -> (r: Result<(), Error>)
        requires
            old(ws).wf(),
        ensures
            final(ws).wf(),
            r is Ok,
            WorkingSet::ws_effect(
                *old(ws),
                *final(ws),
                set![self.da_key(), self.rollup_key(), self.coins_key()],
            ),
            final(ws).top().events@ == old(ws).top().events@,
            self.spec_seq_da(*final(ws)) == Some(config.seq_da_address),
            self.spec_seq_rollup(*final(ws)) == Some(config.seq_rollup_address),
            self.spec_coins(*final(ws)) == Some(config.coins_to_lock),
    {
        let ghost pre = *ws;
        let zero = Address::zero();
        ws.set(
            StorageKey { module: self.address, field: SEQ_DA_FIELD, k1: zero, k2: zero },
            Value::Name(config.seq_da_address),
        );
        ws.set(
            StorageKey { module: self.address, field: SEQ_ROLLUP_FIELD, k1: zero, k2: zero },
            Value::Addr(config.seq_rollup_address),
        );
        ws.set(
            StorageKey { module: self.address, field: COINS_TO_LOCK_FIELD, k1: zero, k2: zero },
            Value::CoinsVal(config.coins_to_lock),
        );
        proof {
            assert(pre.top().writes@.is_prefix_of(ws.top().writes@));
            assert(pre.top().events@.is_prefix_of(ws.top().events@));
        }
        Ok(())
    }

    /// Bonds a blob before any of its transactions run: checks that a
    /// sequencer is registered, that the blob's claimed sender is that
    /// sequencer, and locks the configured stake in escrow.  Succeeds
    /// if and only if [`Self::spec_begin_ok`] holds; on failure nothing
    /// is written.
    pub fn begin_blob_hook(
        &self,
        bank: &Bank,
        sender_da: &ShortName,
        ws: &mut WorkingSet,
    ) -> (r: Result<(), Error>)
        requires
            old(ws).wf(),
        ensures
            final(ws).wf(),
            r is Ok <==> self.spec_begin_ok(*bank, *old(ws), *sender_da),
            WorkingSet::ws_effect(*old(ws), *final(ws), self.stake_keys(*bank, *old(ws))),
            final(ws).top().events@ == old(ws).top().events@,
            r is Err ==> final(ws).top().writes@ == old(ws).top().writes@
                && WorkingSet::ws_effect(*old(ws), *final(ws), Set::empty()),
            self.spec_seq_da(*old(ws)) is None ==> r == Err::<(), Error>(
                Error::UnregisteredSequencer,
            ),
            (self.spec_seq_da(*old(ws)) is Some && self.spec_seq_da(*old(ws)) != Some(*sender_da))
                ==> r == Err::<(), Error>(Error::InvalidSequencer),
            r is Ok && self.spec_seq_rollup(*old(ws)).unwrap() != self.address ==> {
                let rollup = self.spec_seq_rollup(*old(ws)).unwrap();
                let coins = self.spec_coins(*old(ws)).unwrap();
                &&& bank.spec_balance(*final(ws), coins.token_address, rollup) == Some(
                    (bank.spec_bal0(*old(ws), coins.token_address, rollup) - coins.amount) as u64,
                )
                &&& bank.spec_balance(*final(ws), coins.token_address, self.address) == Some(
                    (bank.spec_bal0(*old(ws), coins.token_address, self.address)
                        + coins.amount) as u64,
                )
            },
            r is Ok && self.spec_seq_rollup(*old(ws)).unwrap() == self.address
                ==> final(ws).top().writes@ == old(ws).top().writes@ && WorkingSet::ws_effect(
                *old(ws),
                *final(ws),
                Set::empty(),
            ),
    {
        let ghost pre = *ws;
        let zero = Address::zero();
        let next_da = match ws.get(
            StorageKey { module: self.address, field: SEQ_DA_FIELD, k1: zero, k2: zero },
        ) {
            Option::Some(Value::Name(n)) => n,
            _ => {
                proof {
                    WorkingSet::lemma_ws_effect_refl(pre);
                }
                return Err(Error::UnregisteredSequencer);
            },
        };
        if !(next_da.w0 == sender_da.w0 && next_da.w1 == sender_da.w1 && next_da.w2 == sender_da.w2
            && next_da.w3 == sender_da.w3) {
            proof {
                WorkingSet::lemma_ws_effect_refl(pre);
            }
            return Err(Error::InvalidSequencer);
        }
        let rollup = match ws.get(
            StorageKey { module: self.address, field: SEQ_ROLLUP_FIELD, k1: zero, k2: zero },
        ) {
            Option::Some(Value::Addr(a)) => a,
            _ => {
                proof {
                    WorkingSet::lemma_ws_effect_refl(pre);
                }
                return Err(Error::UnregisteredSequencer);
            },
        };
        let coins = match ws.get(
            StorageKey { module: self.address, field: COINS_TO_LOCK_FIELD, k1: zero, k2: zero },
        ) {
            Option::Some(Value::CoinsVal(c)) => c,
            _ => {
                proof {
                    WorkingSet::lemma_ws_effect_refl(pre);
                }
                return Err(Error::UnregisteredSequencer);
            },
        };
        let r = bank.transfer_from(&rollup, &self.address, coins, ws);
        proof {
            assert(set![
                bank.balance_key(coins.token_address, rollup),
                bank.balance_key(coins.token_address, self.address),
            ] =~= self.stake_keys(*bank, pre));
        }
        r
    }

    /// Returns the escrowed stake to the sequencer after the whole
    /// batch ran.  Succeeds if and only if [`Self::spec_end_ok`] holds;
    /// on failure nothing is written.
    pub fn end_blob_hook(&self, bank: &Bank, ws: &mut WorkingSet) -> (r: Result<(), Error>)
        requires
            old(ws).wf(),
        ensures
            final(ws).wf(),
            r is Ok <==> self.spec_end_ok(*bank, *old(ws)),
            WorkingSet::ws_effect(*old(ws), *final(ws), self.stake_keys(*bank, *old(ws))),
            final(ws).top().events@ == old(ws).top().events@,
            r is Err ==> final(ws).top().writes@ == old(ws).top().writes@
                && WorkingSet::ws_effect(*old(ws), *final(ws), Set::empty()),
            r is Ok && self.spec_seq_rollup(*old(ws)).unwrap() != self.address ==> {
                let rollup = self.spec_seq_rollup(*old(ws)).unwrap();
                let coins = self.spec_coins(*old(ws)).unwrap();
                &&& bank.spec_balance(*final(ws), coins.token_address, self.address) == Some(
                    (bank.spec_bal0(*old(ws), coins.token_address, self.address)
                        - coins.amount) as u64,
                )
                &&& bank.spec_balance(*final(ws), coins.token_address, rollup) == Some(
                    (bank.spec_bal0(*old(ws), coins.token_address, rollup) + coins.amount) as u64,
                )
            },
    {
        let ghost pre = *ws;
        let zero = Address::zero();
        let rollup = match ws.get(
            StorageKey { module: self.address, field: SEQ_ROLLUP_FIELD, k1: zero, k2: zero },
        ) {
            Option::Some(Value::Addr(a)) => a,
            _ => {
                proof {
                    WorkingSet::lemma_ws_effect_refl(pre);
                }
                return Err(Error::UnregisteredSequencer);
            },
        };
        let coins = match ws.get(
            StorageKey { module: self.address, field: COINS_TO_LOCK_FIELD, k1: zero, k2: zero },
        ) {
            Option::Some(Value::CoinsVal(c)) => c,
            _ => {
                proof {
                    WorkingSet::lemma_ws_effect_refl(pre);
                }
                return Err(Error::UnregisteredSequencer);
            },
        };
        if match ws.get(StorageKey { module: self.address, field: SEQ_DA_FIELD, k1: zero, k2: zero }) {
            Option::Some(Value::Name(_)) => false,
            _ => true,
        } {
            proof {
                WorkingSet::lemma_ws_effect_refl(pre);
            }
            return Err(Error::UnregisteredSequencer);
        }
        let r = bank.transfer_from(&self.address, &rollup, coins, ws);
        proof {
            assert(set![
                bank.balance_key(coins.token_address, self.address),
                bank.balance_key(coins.token_address, rollup),
            ] =~= self.stake_keys(*bank, pre));
        }
        r
    }
}

} // verus!
