//! The voting module: a second business module illustrating dispatch.
//!
//! Candidates are fixed at genesis, anyone may vote while the election
//! is open, the admin freezes it, and the result query names the
//! candidate with the most votes once the election is frozen.

use vstd::prelude::*;

use crate::address::Address;
use crate::address::ShortName;
use crate::errors::Error;
use crate::state::CandidateRecord;
use crate::state::Event;
use crate::state::EventData;
use crate::state::StorageKey;
use crate::state::Value;
use crate::state::WorkingSet;

verus! {

/// Field identifier of the configured admin.
pub const ELECTION_ADMIN_FIELD: u64 = 1;

/// Field identifier of the frozen flag.
pub const FROZEN_FIELD: u64 = 2;

/// Field identifier of the candidate count.
pub const CAND_COUNT_FIELD: u64 = 3;

/// Field identifier of the per-candidate records.
pub const CANDIDATE_FIELD: u64 = 4;

/// Genesis configuration of the election.
pub struct ElectionConfig {
    /// The only address allowed to freeze the election.
    pub admin: Address,
    /// The candidates, in ballot order.
    pub candidates: Vec<ShortName>,
}

/// The result query's answer.
#[derive(Clone, Copy, PartialEq, Eq, Structural, Debug)]
pub enum GetResultResponse {
    /// The election is frozen: the best candidate, or `None` for an
    /// empty ballot.
    Winner(Option<CandidateRecord>),
    /// The election still accepts votes, so it has no result yet.
    NotFrozen,
}

/// The address slot a candidate index keys.
pub open spec fn spec_idx_addr(i: u64) -> Address {
    Address { w0: i, w1: 0, w2: 0, w3: 0 }
}

/// The election module.
pub struct Election {
    /// The module's own address; prefix of every key it owns.
    pub address: Address,
}

impl Election {
    /// The key of the configured admin.
    pub open spec fn admin_key(self) -> StorageKey {
        StorageKey {
            module: self.address,
            field: ELECTION_ADMIN_FIELD,
            k1: Address::spec_zero(),
            k2: Address::spec_zero(),
        }
    }

    /// The key of the frozen flag.
    pub open spec fn frozen_key(self) -> StorageKey {
        StorageKey {
            module: self.address,
            field: FROZEN_FIELD,
            k1: Address::spec_zero(),
            k2: Address::spec_zero(),
        }
    }

    /// The key of the candidate count.
    pub open spec fn count_key(self) -> StorageKey {
        StorageKey {
            module: self.address,
            field: CAND_COUNT_FIELD,
            k1: Address::spec_zero(),
            k2: Address::spec_zero(),
        }
    }

    /// The key of the candidate record at index `i`.
    pub open spec fn cand_key(self, i: u64) -> StorageKey {
        StorageKey {
            module: self.address,
            field: CANDIDATE_FIELD,
            k1: spec_idx_addr(i),
            k2: Address::spec_zero(),
        }
    }

    /// Every key the module owns.
    pub open spec fn keyset(self) -> Set<StorageKey> {
        Set::new(|k: StorageKey| k.module == self.address)
    }

    /// The configured admin, if any.
    pub open spec fn spec_admin(self, ws: WorkingSet) -> Option<Address> {
        match ws.val(self.admin_key()) {
            Option::Some(Value::Addr(a)) => Some(a),
            _ => None,
        }
    }

    /// Whether the election is frozen.
    pub open spec fn spec_frozen(self, ws: WorkingSet) -> bool {
        ws.val(self.frozen_key()) == Some(Value::Flag(true))
    }

    /// The candidate count, a missing entry reading as zero.
    pub open spec fn spec_count0(self, ws: WorkingSet) -> u64 {
        match ws.val(self.count_key()) {
            Option::Some(Value::U64(n)) => n,
            _ => 0,
        }
    }

    /// The candidate record at `i`, if any.
    pub open spec fn spec_candidate(self, ws: WorkingSet, i: u64) -> Option<CandidateRecord> {
        match ws.val(self.cand_key(i)) {
            Option::Some(Value::Candidate(c)) => Some(c),
            _ => None,
        }
    }

    /// The candidate record at `i`, a missing entry reading as an
    /// unnamed candidate with no votes.
    pub open spec fn spec_cand0(self, ws: WorkingSet, i: u64) -> CandidateRecord {
        match self.spec_candidate(ws, i) {
            Option::Some(c) => c,
            Option::None => CandidateRecord { name: ShortName::spec_empty(), count: 0 },
        }
    }

    /// When a vote is owed success: the election is open, the index
    /// names a candidate, and its count can still grow.
    pub open spec fn spec_vote_ok(self, ws: WorkingSet, candidate: u64) -> bool {
        &&& !self.spec_frozen(ws)
        &&& self.spec_candidate(ws, candidate) is Some
        &&& self.spec_candidate(ws, candidate).unwrap().count < u64::MAX
    }

    /// `w` is the ballot's winner: no candidate has more votes, and no
    /// earlier candidate has as many.
    pub open spec fn spec_is_winner(self, ws: WorkingSet, w: u64) -> bool {
        &&& w < self.spec_count0(ws)
        &&& forall|i: u64|
            i < self.spec_count0(ws) ==> #[trigger] self.spec_cand0(ws, i).count
                <= self.spec_cand0(ws, w).count
        &&& forall|i: u64|
            i < w ==> #[trigger] self.spec_cand0(ws, i).count < self.spec_cand0(ws, w).count
    }

    /// The first `n` configured candidates are installed with no votes.
    pub open spec fn spec_ballot_installed(
        self,
        ws: WorkingSet,
        names: Seq<ShortName>,
        n: int,
    ) -> bool {
        forall|i: int|
            0 <= i < n ==> #[trigger] self.spec_candidate(ws, i as u64) == Some(
                CandidateRecord { name: names[i], count: 0 },
            )
    }

    /// The event a vote appends.
    pub open spec fn spec_vote_event(candidate: u64) -> Event {
        Event {
            key: ShortName { w0: 2, w1: 0, w2: 0, w3: 0 },
            value: EventData {
                a0: Address::spec_zero(),
                a1: Address::spec_zero(),
                a2: Address::spec_zero(),
                a3: Address::spec_zero(),
                n0: candidate,
                n1: 0,
            },
        }
    }

    /// An election module whose namespace starts at `address`.
    pub fn new(address: Address) -> (r: Election)
        ensures
            r.address == address,
    {
        Election { address }
    }

    /// Installs the admin and the ballot, each candidate with no votes.
    pub fn genesis(&self, config: &ElectionConfig, ws: &mut WorkingSet) -> (r: Result<(), Error>)
        requires
            old(ws).wf(),
            config.candidates@.len() <= 0xffff_ffff,
        ensures
            final(ws).wf(),
            r is Ok,
            WorkingSet::ws_effect(*old(ws), *final(ws), self.keyset()),
            final(ws).top().events@ == old(ws).top().events@,
            self.spec_admin(*final(ws)) == Some(config.admin),
            !self.spec_frozen(*final(ws)),
            final(ws).val(self.frozen_key()) == Some(Value::Flag(false)),
            self.spec_count0(*final(ws)) == config.candidates@.len(),
            final(ws).val(self.count_key()) == Some(
                Value::U64(config.candidates@.len() as u64),
            ),
            self.spec_ballot_installed(
                *final(ws),
                config.candidates@,
                config.candidates@.len() as int,
            ),
    {
        let ghost pre = *ws;
        let zero = Address::zero();
        ws.set(
            StorageKey { module: self.address, field: ELECTION_ADMIN_FIELD, k1: zero, k2: zero },
            Value::Addr(config.admin),
        );
        ws.set(
            StorageKey { module: self.address, field: FROZEN_FIELD, k1: zero, k2: zero },
            Value::Flag(false),
        );
        ws.set(
            StorageKey { module: self.address, field: CAND_COUNT_FIELD, k1: zero, k2: zero },
            Value::U64(config.candidates.len() as u64),
        );
        proof {
            assert(pre.top().writes@.is_prefix_of(ws.top().writes@));
            assert(pre.top().events@.is_prefix_of(ws.top().events@));
            assert(WorkingSet::ws_effect(pre, *ws, self.keyset()));
        }
        let mut i: usize = 0;
        while i < config.candidates.len()
            invariant
                ws.wf(),
                pre == *old(ws),
                i <= config.candidates.len(),
                config.candidates@.len() <= 0xffff_ffff,
                WorkingSet::ws_effect(pre, *ws, self.keyset()),
                ws.top().events@ == pre.top().events@,
                self.spec_admin(*ws) == Some(config.admin),
                !self.spec_frozen(*ws),
                ws.val(self.frozen_key()) == Some(Value::Flag(false)),
                self.spec_count0(*ws) == config.candidates@.len(),
                ws.val(self.count_key()) == Some(Value::U64(config.candidates@.len() as u64)),
                self.spec_ballot_installed(*ws, config.candidates@, i as int),
            decreases config.candidates.len() - i,
        {
            let ghost before = *ws;
            let key = StorageKey {
                module: self.address,
                field: CANDIDATE_FIELD,
                k1: Address { w0: i as u64, w1: 0, w2: 0, w3: 0 },
                k2: Address::zero(),
            };
            ws.set(key, Value::Candidate(CandidateRecord { name: config.candidates[i], count: 0 }));
            proof {
                assert(before.top().writes@.is_prefix_of(ws.top().writes@));
                assert(before.top().events@.is_prefix_of(ws.top().events@));
                WorkingSet::lemma_ws_effect_trans(pre, before, *ws, self.keyset(), set![key]);
                assert(self.keyset().union(set![key]) =~= self.keyset());
                assert(self.spec_ballot_installed(*ws, config.candidates@, i as int + 1)) by {
                    assert forall|j: int|
                        0 <= j < i as int + 1 implies #[trigger] self.spec_candidate(
                        *ws,
                        j as u64,
                    ) == Some(CandidateRecord { name: config.candidates@[j], count: 0 }) by {
                        if j < i as int {
                            assert(self.spec_candidate(before, j as u64) == Some(
                                CandidateRecord { name: config.candidates@[j], count: 0 },
                            ));
                            assert(self.cand_key(j as u64) != key);
                        } else {
                            assert(ws.val(key) == Some(
                                Value::Candidate(
                                    CandidateRecord { name: config.candidates@[j], count: 0 },
                                ),
                            ));
                        }
                    }
                }
            }
            i = i + 1;
        }
        Ok(())
    }

    /// Casts one vote for the candidate at `candidate`.  Succeeds, adds
    /// one to that candidate's count and appends the vote event if and
    /// only if the election is open, the index names a candidate on the
    /// ballot and its count can still grow; on failure nothing is
    /// written.
    pub fn vote(&self, candidate: u64, ws: &mut WorkingSet) -> (r: Result<(), Error>)
        requires
            old(ws).wf(),
        ensures
            final(ws).wf(),
            r is Ok <==> self.spec_vote_ok(*old(ws), candidate),
            WorkingSet::ws_effect(*old(ws), *final(ws), set![self.cand_key(candidate)]),
            r is Err ==> final(ws).top().writes@ == old(ws).top().writes@
                && final(ws).top().events@ == old(ws).top().events@
                && WorkingSet::ws_effect(*old(ws), *final(ws), Set::empty()),
            r is Ok ==> self.spec_candidate(*final(ws), candidate) == Some(
                CandidateRecord {
                    name: self.spec_candidate(*old(ws), candidate).unwrap().name,
                    count: (self.spec_candidate(*old(ws), candidate).unwrap().count + 1) as u64,
                },
            ),
            r is Ok ==> final(ws).top().events@ == old(ws).top().events@.push(
                Election::spec_vote_event(candidate),
            ),
    {
        let ghost pre = *ws;
        let zero = Address::zero();
        let frozen = match ws.get(
            StorageKey { module: self.address, field: FROZEN_FIELD, k1: zero, k2: zero },
        ) {
            Option::Some(Value::Flag(b)) => b,
            _ => false,
        };
        if frozen {
            proof {
                WorkingSet::lemma_ws_effect_refl(pre);
            }
            return Err(Error::ElectionFrozen);
        }
        let key = StorageKey {
            module: self.address,
            field: CANDIDATE_FIELD,
            k1: Address { w0: candidate, w1: 0, w2: 0, w3: 0 },
            k2: zero,
        };
        let cand = match ws.get(key) {
            Option::Some(Value::Candidate(c)) => c,
            _ => {
                proof {
                    WorkingSet::lemma_ws_effect_refl(pre);
                }
                return Err(Error::UnknownCandidate);
            },
        };
        if cand.count == u64::MAX {
            proof {
                WorkingSet::lemma_ws_effect_refl(pre);
            }
            return Err(Error::VoteCountOverflow);
        }
        ws.set(key, Value::Candidate(CandidateRecord { name: cand.name, count: cand.count + 1 }));
        ws.add_event(
            Event {
                key: ShortName { w0: 2, w1: 0, w2: 0, w3: 0 },
                value: EventData {
                    a0: Address::zero(),
                    a1: Address::zero(),
                    a2: Address::zero(),
                    a3: Address::zero(),
                    n0: candidate,
                    n1: 0,
                },
            },
        );
        proof {
            assert(pre.top().writes@.is_prefix_of(ws.top().writes@));
            assert(pre.top().events@.is_prefix_of(ws.top().events@));
        }
        Ok(())
    }

    /// Freezes the election.  Succeeds if and only if `sender` is the
    /// configured admin; on failure nothing is written.
    pub fn freeze_election(&self, sender: &Address, ws: &mut WorkingSet) -> (r: Result<(), Error>)
        requires
            old(ws).wf(),
        ensures
            final(ws).wf(),
            r is Ok <==> self.spec_admin(*old(ws)) == Some(*sender),
            r is Err ==> r == Err::<(), Error>(Error::NotAdmin),
            WorkingSet::ws_effect(*old(ws), *final(ws), set![self.frozen_key()]),
            final(ws).top().events@ == old(ws).top().events@,
            r is Err ==> final(ws).top().writes@ == old(ws).top().writes@
                && WorkingSet::ws_effect(*old(ws), *final(ws), Set::empty()),
            r is Ok ==> self.spec_frozen(*final(ws)),
    {
        let ghost pre = *ws;
        let zero = Address::zero();
        let admin = match ws.get(
            StorageKey { module: self.address, field: ELECTION_ADMIN_FIELD, k1: zero, k2: zero },
        ) {
            Option::Some(Value::Addr(a)) => a,
            _ => {
                proof {
                    WorkingSet::lemma_ws_effect_refl(pre);
                }
                return Err(Error::NotAdmin);
            },
        };
        if !(admin == *sender) {
            proof {
                WorkingSet::lemma_ws_effect_refl(pre);
            }
            return Err(Error::NotAdmin);
        }
        ws.set(
            StorageKey { module: self.address, field: FROZEN_FIELD, k1: zero, k2: zero },
            Value::Flag(true),
        );
        Ok(())
    }

    /// Queries the election's result: the winning candidate once the
    /// election is frozen.  Never mutates the working set.
    pub fn results(&self, ws: &WorkingSet) -> (r: GetResultResponse)
        requires
            ws.wf(),
        ensures
            !self.spec_frozen(*ws) ==> r == GetResultResponse::NotFrozen,
            self.spec_frozen(*ws) && self.spec_count0(*ws) == 0 ==> r
                == GetResultResponse::Winner(None),
            self.spec_frozen(*ws) && self.spec_count0(*ws) > 0 ==> exists|w: u64|
                #[trigger] self.spec_is_winner(*ws, w) && r == GetResultResponse::Winner(
                    Some(self.spec_cand0(*ws, w)),
                ),
    {
        let zero = Address::zero();
        let frozen = match ws.get(
            StorageKey { module: self.address, field: FROZEN_FIELD, k1: zero, k2: zero },
        ) {
            Option::Some(Value::Flag(b)) => b,
            _ => false,
        };
        if !frozen {
            return GetResultResponse::NotFrozen;
        }
        let count = match ws.get(
            StorageKey { module: self.address, field: CAND_COUNT_FIELD, k1: zero, k2: zero },
        ) {
            Option::Some(Value::U64(n)) => n,
            _ => 0,
        };
        if count == 0 {
            return GetResultResponse::Winner(None);
        }
        let mut best_idx: u64 = 0;
        let mut best = self.read_cand0(0, ws);
        let mut i: u64 = 1;
        while i < count
            invariant
                ws.wf(),
                count == self.spec_count0(*ws),
                1 <= i <= count,
                best_idx < i,
                best == self.spec_cand0(*ws, best_idx),
                forall|j: u64| j < i ==> #[trigger] self.spec_cand0(*ws, j).count <= best.count,
                forall|j: u64| j < best_idx ==> #[trigger] self.spec_cand0(*ws, j).count
                    < best.count,
            decreases count - i,
        {
            let c = self.read_cand0(i, ws);
            if c.count > best.count {
                best_idx = i;
                best = c;
            }
            i = i + 1;
        }
        proof {
            assert(self.spec_is_winner(*ws, best_idx));
        }
        GetResultResponse::Winner(Some(best))
    }

    /// Reads the candidate record at `i`, defaulting a missing entry.
    fn read_cand0(&self, i: u64, ws: &WorkingSet) -> (r: CandidateRecord)
        requires
            ws.wf(),
        ensures
            r == self.spec_cand0(*ws, i),
    {
        let key = StorageKey {
            module: self.address,
            field: CANDIDATE_FIELD,
            k1: Address { w0: i, w1: 0, w2: 0, w3: 0 },
            k2: Address::zero(),
        };
        match ws.get(key) {
            Option::Some(Value::Candidate(c)) => c,
            _ => CandidateRecord { name: ShortName::empty(), count: 0 },
        }
    }
}

} // verus!
