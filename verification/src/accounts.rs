//! The accounts module: one account per signer, with the replay-
//! protection nonce, and the transaction-level hook pair invoked around
//! dispatch.

use vstd::prelude::*;

use crate::address::Address;
use crate::address::PubKey;
use crate::errors::Error;
use crate::state::AccountRecord;
use crate::state::StorageKey;
use crate::state::Value;
use crate::state::WorkingSet;

verus! {

/// Field identifier of the account records.
pub const ACCOUNTS_FIELD: u64 = 1;

/// The accounts module.
pub struct Accounts {
    /// The module's own address; prefix of every key it owns.
    pub address: Address,
}

impl Accounts {
    /// The key of the account owned by `pk`.
    pub open spec fn account_key(self, pk: PubKey) -> StorageKey {
        StorageKey {
            module: self.address,
            field: ACCOUNTS_FIELD,
            k1: pk.spec_as_slot(),
            k2: Address::spec_zero(),
        }
    }

    /// Every key the module owns.
    pub open spec fn keyset(self) -> Set<StorageKey> {
        Set::new(|k: StorageKey| k.module == self.address)
    }

    /// The stored account of `pk`, if any.
    pub open spec fn spec_account(self, ws: WorkingSet, pk: PubKey) -> Option<AccountRecord> {
        match ws.val(self.account_key(pk)) {
            Option::Some(Value::Account(a)) => Some(a),
            _ => None,
        }
    }

    /// The nonce the signer must use next: its account's nonce, or zero
    /// for a signer not seen yet.
    pub open spec fn spec_nonce0(self, ws: WorkingSet, pk: PubKey) -> u64 {
        match self.spec_account(ws, pk) {
            Option::Some(a) => a.nonce,
            Option::None => 0,
        }
    }

    /// The address a transaction of `pk` acts as: the stored account's
    /// address, or the one a fresh account would get.
    pub open spec fn spec_signer_addr(self, ws: WorkingSet, pk: PubKey) -> Address {
        match self.spec_account(ws, pk) {
            Option::Some(a) => a.addr,
            Option::None => pk.spec_to_address(),
        }
    }

    /// An accounts module whose namespace starts at `address`.
    pub fn new(address: Address) -> (r: Accounts)
        ensures
            r.address == address,
    {
        Accounts { address }
    }

    /// Reads the stored account of `pk`.
    pub fn get_account(&self, pk: &PubKey, ws: &WorkingSet) -> (r: Option<AccountRecord>)
        requires
            ws.wf(),
        ensures
            r == self.spec_account(*ws, *pk),
    {
        let key = StorageKey {
            module: self.address,
            field: ACCOUNTS_FIELD,
            k1: pk.as_slot(),
            k2: Address::zero(),
        };
        match ws.get(key) {
            Option::Some(Value::Account(a)) => Some(a),
            _ => None,
        }
    }

    /// Authenticates a transaction before dispatch: looks the signer's
    /// account up, creating a default zero-nonce account for a signer
    /// not seen yet, and succeeds with the signer's resolved address if
    /// and only if the account's nonce equals the transaction's nonce.
    /// The nonce itself is never changed here.
    pub fn pre_dispatch_tx_hook(&self, pub_key: &PubKey, tx_nonce: u64, ws: &mut WorkingSet) -> (r:
        Result<Address, Error>)
        requires
            old(ws).wf(),
        ensures
            final(ws).wf(),
            r is Ok <==> self.spec_nonce0(*old(ws), *pub_key) == tx_nonce,
            r is Err ==> r == Err::<Address, Error>(Error::BadNonce),
            r is Ok ==> r == Ok::<Address, Error>(self.spec_signer_addr(*old(ws), *pub_key)),
            WorkingSet::ws_effect(*old(ws), *final(ws), set![self.account_key(*pub_key)]),
            final(ws).top().events@ == old(ws).top().events@,
            self.spec_account(*final(ws), *pub_key) == Some(
                AccountRecord {
                    addr: self.spec_signer_addr(*old(ws), *pub_key),
                    nonce: self.spec_nonce0(*old(ws), *pub_key),
                },
            ),
            self.spec_nonce0(*final(ws), *pub_key) == self.spec_nonce0(*old(ws), *pub_key),
    {
        let ghost pre = *ws;
        let account = match self.get_account(pub_key, ws) {
            Option::Some(a) => a,
            Option::None => {
                let fresh = AccountRecord { addr: pub_key.to_address(), nonce: 0 };
                let key = StorageKey {
                    module: self.address,
                    field: ACCOUNTS_FIELD,
                    k1: pub_key.as_slot(),
                    k2: Address::zero(),
                };
                ws.set(key, Value::Account(fresh));
                fresh
            },
        };
        proof {
            if self.spec_account(pre, *pub_key) is Some {
                WorkingSet::lemma_ws_effect_refl(pre);
                WorkingSet::lemma_ws_effect_widen(
                    pre,
                    *ws,
                    Set::empty(),
                    set![self.account_key(*pub_key)],
                );
            }
        }
        if account.nonce != tx_nonce {
            return Err(Error::BadNonce);
        }
        Ok(account.addr)
    }

    /// Finishes a dispatched transaction: increments the signer's nonce
    /// by exactly one.  Succeeds if and only if the account exists and
    /// its nonce can still grow; on failure nothing is written.
    pub fn post_dispatch_tx_hook(&self, pub_key: &PubKey, ws: &mut WorkingSet) -> (r: Result<
        (),
        Error,
    >)
        requires
            old(ws).wf(),
        ensures
            final(ws).wf(),
            r is Ok <==> (self.spec_account(*old(ws), *pub_key) is Some && self.spec_nonce0(
                *old(ws),
                *pub_key,
            ) < u64::MAX),
            WorkingSet::ws_effect(*old(ws), *final(ws), set![self.account_key(*pub_key)]),
            final(ws).top().events@ == old(ws).top().events@,
            r is Err ==> final(ws).top().writes@ == old(ws).top().writes@
                && WorkingSet::ws_effect(*old(ws), *final(ws), Set::empty()),
            r is Ok ==> self.spec_account(*final(ws), *pub_key) == Some(
                AccountRecord {
                    addr: self.spec_signer_addr(*old(ws), *pub_key),
                    nonce: (self.spec_nonce0(*old(ws), *pub_key) + 1) as u64,
                },
            ),
    {
        let ghost pre = *ws;
        let account = match self.get_account(pub_key, ws) {
            Option::Some(a) => a,
            Option::None => {
                proof {
                    WorkingSet::lemma_ws_effect_refl(pre);
                }
                return Err(Error::AccountNotFound);
            },
        };
        if account.nonce == u64::MAX {
            proof {
                WorkingSet::lemma_ws_effect_refl(pre);
            }
            return Err(Error::NonceOverflow);
        }
        let key = StorageKey {
            module: self.address,
            field: ACCOUNTS_FIELD,
            k1: pub_key.as_slot(),
            k2: Address::zero(),
        };
        ws.set(key, Value::Account(AccountRecord { addr: account.addr, nonce: account.nonce + 1 }));
        Ok(())
    }
}

} // verus!
