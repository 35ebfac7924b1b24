//! The key/value setter module: a minimal business module illustrating
//! the dispatch contract.  Only the configured admin may set the value.

use vstd::prelude::*;

use crate::address::Address;
use crate::address::ShortName;
use crate::errors::Error;
use crate::state::Event;
use crate::state::EventData;
use crate::state::StorageKey;
use crate::state::Value;
use crate::state::WorkingSet;

verus! {

/// Field identifier of the stored value.
pub const VALUE_FIELD: u64 = 1;

/// Field identifier of the configured admin.
pub const ADMIN_FIELD: u64 = 2;

/// Genesis configuration of the value setter.
pub struct ValueSetterConfig {
    /// The only address allowed to set the value.
    pub admin: Address,
}

/// The queried value; `None` when no value was ever set.
#[derive(Clone, Copy, PartialEq, Eq, Structural, Debug)]
pub struct Response {
    pub value: Option<u32>,
}

/// The value setter module.
pub struct ValueSetter {
    /// The module's own address; prefix of every key it owns.
    pub address: Address,
}

impl ValueSetter {
    /// The key of the stored value.
    pub open spec fn value_key(self) -> StorageKey {
        StorageKey {
            module: self.address,
            field: VALUE_FIELD,
            k1: Address::spec_zero(),
            k2: Address::spec_zero(),
        }
    }

    /// The key of the configured admin.
    pub open spec fn admin_key(self) -> StorageKey {
        StorageKey {
            module: self.address,
            field: ADMIN_FIELD,
            k1: Address::spec_zero(),
            k2: Address::spec_zero(),
        }
    }

    /// Every key the module owns.
    pub open spec fn keyset(self) -> Set<StorageKey> {
        Set::new(|k: StorageKey| k.module == self.address)
    }

    /// The stored value, if any.
    pub open spec fn spec_value(self, ws: WorkingSet) -> Option<u32> {
        match ws.val(self.value_key()) {
            Option::Some(Value::U32(v)) => Some(v),
            _ => None,
        }
    }

    /// The configured admin, if any.
    pub open spec fn spec_admin(self, ws: WorkingSet) -> Option<Address> {
        match ws.val(self.admin_key()) {
            Option::Some(Value::Addr(a)) => Some(a),
            _ => None,
        }
    }

    /// The event a successful set appends.
    pub open spec fn spec_set_event(value: u32) -> Event {
        Event {
            key: ShortName { w0: 1, w1: 0, w2: 0, w3: 0 },
            value: EventData {
                a0: Address::spec_zero(),
                a1: Address::spec_zero(),
                a2: Address::spec_zero(),
                a3: Address::spec_zero(),
                n0: value as u64,
                n1: 0,
            },
        }
    }

    /// A value setter whose namespace starts at `address`.
    pub fn new(address: Address) -> (r: ValueSetter)
        ensures
            r.address == address,
    {
        ValueSetter { address }
    }

    /// Installs the configured admin.
    pub fn genesis(&self, config: &ValueSetterConfig, ws: &mut WorkingSet) -> (r: Result<
        (),
        Error,
    >)
        requires
            old(ws).wf(),
        ensures
            final(ws).wf(),
            r is Ok,
            WorkingSet::ws_effect(*old(ws), *final(ws), set![self.admin_key()]),
            final(ws).top().events@ == old(ws).top().events@,
            self.spec_admin(*final(ws)) == Some(config.admin),
            self.spec_value(*final(ws)) == self.spec_value(*old(ws)),
    {
        let ghost pre = *ws;
        let zero = Address::zero();
        ws.set(
            StorageKey { module: self.address, field: ADMIN_FIELD, k1: zero, k2: zero },
            Value::Addr(config.admin),
        );
        Ok(())
    }

    /// Sets the stored value.  Succeeds, stores the value and appends
    /// the set event if and only if `sender` is the configured admin;
    /// on failure nothing is written.
    pub fn set_value(&self, value: u32, sender: &Address, ws: &mut WorkingSet) -> (r: Result<
        (),
        Error,
    >)
        requires
            old(ws).wf(),
        ensures
            final(ws).wf(),
            r is Ok <==> self.spec_admin(*old(ws)) == Some(*sender),
            r is Err ==> r == Err::<(), Error>(Error::NotAdmin),
            WorkingSet::ws_effect(*old(ws), *final(ws), set![self.value_key()]),
            r is Err ==> final(ws).top().writes@ == old(ws).top().writes@
                && final(ws).top().events@ == old(ws).top().events@
                && WorkingSet::ws_effect(*old(ws), *final(ws), Set::empty()),
            r is Ok ==> self.spec_value(*final(ws)) == Some(value),
            r is Ok ==> final(ws).top().events@ == old(ws).top().events@.push(
                ValueSetter::spec_set_event(value),
            ),
    {
        let ghost pre = *ws;
        let zero = Address::zero();
        let admin = match ws.get(
            StorageKey { module: self.address, field: ADMIN_FIELD, k1: zero, k2: zero },
        ) {
            Option::Some(Value::Addr(a)) => a,
            _ => {
                proof {
                    WorkingSet::lemma_ws_effect_refl(pre);
                }
                return Err(Error::NotAdmin);
            },
        };
        if !(admin == *sender) {
            proof {
                WorkingSet::lemma_ws_effect_refl(pre);
            }
            return Err(Error::NotAdmin);
        }
        ws.set(
            StorageKey { module: self.address, field: VALUE_FIELD, k1: zero, k2: zero },
            Value::U32(value),
        );
        ws.add_event(
            Event {
                key: ShortName { w0: 1, w1: 0, w2: 0, w3: 0 },
                value: EventData {
                    a0: Address::zero(),
                    a1: Address::zero(),
                    a2: Address::zero(),
                    a3: Address::zero(),
                    n0: value as u64,
                    n1: 0,
                },
            },
        );
        proof {
            assert(pre.top().writes@.is_prefix_of(ws.top().writes@));
            assert(pre.top().events@.is_prefix_of(ws.top().events@));
        }
        Ok(())
    }

    /// Queries the stored value; never mutates the working set.
    pub fn query_value(&self, ws: &WorkingSet) -> (r: Response)
        requires
            ws.wf(),
        ensures
            r.value == self.spec_value(*ws),
    {
        let zero = Address::zero();
        match ws.get(StorageKey { module: self.address, field: VALUE_FIELD, k1: zero, k2: zero }) {
            Option::Some(Value::U32(v)) => Response { value: Some(v) },
            _ => Response { value: None },
        }
    }
}

} // verus!
