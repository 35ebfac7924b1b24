//! The slot/chain orchestrator: the state-transition function.
//!
//! Chain initialization, slot open/close and per-blob application, as
//! one lifecycle state machine.  Every unit of work runs in its own
//! save-point: a failing transaction rolls back only itself, a failing
//! blob leaves no trace at all, and nothing is visible outside the
//! orchestrator until the slot's single top-level commit.

use vstd::prelude::*;

use crate::codec::Blob;
use crate::codec::Transaction;
use crate::codec::decode_batch;
use crate::codec::spec_decode_batch;
use crate::errors::Error;
use crate::runtime::GenesisConfig;
use crate::runtime::Runtime;
use crate::state::Event;
use crate::state::StorageKey;
use crate::state::WorkingSet;
use crate::storage::Storage;
use crate::storage::spec_root_step;

verus! {

/// The lifecycle phase of the orchestrator.
#[derive(Clone, Copy, PartialEq, Eq, Structural, Debug)]
pub enum Phase {
    Uninitialized,
    Ready,
    SlotOpen,
}

/// The tagged result of applying one blob.
#[derive(Clone, Copy, PartialEq, Eq, Structural, Debug)]
pub enum SequencerOutcome {
    /// The blob was bonded and its whole batch ran; the payload counts
    /// the transactions that executed.
    Rewarded(u64),
    /// The blob was rejected as a whole: malformed, from the wrong
    /// sequencer, or with insufficient stake.
    Ignored,
}

/// The outcome of one blob together with the events its committed
/// transactions emitted, in emission order.
pub struct BlobReceipt {
    pub inner: SequencerOutcome,
    pub events: Vec<Event>,
}

/// Applies one authenticated transaction inside its own save-point:
/// authentication, dispatch and the nonce bump either all land or none
/// of them do.  Returns whether the transaction executed.
pub fn apply_tx(runtime: &Runtime, tx: &Transaction, ws: &mut WorkingSet) -> (executed: bool)
    requires
        old(ws).wf(),
        runtime.wf(),
    ensures
        final(ws).wf(),
        WorkingSet::ws_effect(*old(ws), *final(ws), Set::new(|k: StorageKey| true)),
        !executed ==> final(ws).top().writes@ == old(ws).top().writes@ && final(ws).top().events@
            == old(ws).top().events@ && WorkingSet::ws_effect(*old(ws), *final(ws), Set::empty()),
        executed ==> runtime.accounts.spec_nonce0(*old(ws), tx.pub_key) == tx.nonce && tx.nonce
            < u64::MAX,
        runtime.accounts.spec_nonce0(*old(ws), tx.pub_key) != tx.nonce ==> !executed,
        executed ==> runtime.accounts.spec_nonce0(*final(ws), tx.pub_key) == tx.nonce + 1,
        !executed ==> runtime.accounts.spec_nonce0(*final(ws), tx.pub_key)
            == runtime.accounts.spec_nonce0(*old(ws), tx.pub_key),
        runtime.spec_dispatch_exact(
            *old(ws),
            tx.call,
            runtime.accounts.spec_signer_addr(*old(ws), tx.pub_key),
        ) ==> (executed <==> (runtime.accounts.spec_nonce0(*old(ws), tx.pub_key) == tx.nonce
            && tx.nonce < u64::MAX && runtime.spec_dispatch_ok(
            *old(ws),
            tx.call,
            runtime.accounts.spec_signer_addr(*old(ws), tx.pub_key),
        ))),
        executed ==> runtime.spec_dispatch_effects(
            *old(ws),
            *final(ws),
            tx.call,
            runtime.accounts.spec_signer_addr(*old(ws), tx.pub_key),
        ),
    {
    let ghost pre = *ws;
    ws.open_scope();
    let signer = match runtime.accounts.pre_dispatch_tx_hook(&tx.pub_key, tx.nonce, ws) {
        Ok(a) => a,
        Err(_) => {
            ws.discard_scope();
            proof {
                assert(WorkingSet::ws_effect(pre, *ws, Set::empty()));
            }
            return false;
        },
    };
    let ghost after_pre = *ws;
    proof {
        runtime.lemma_dispatch_conditions_frame(after_pre, pre, tx.call, signer);
    }
    match runtime.dispatch(tx.call, &signer, ws) {
        Ok(_) => {},
        Err(_) => {
            ws.discard_scope();
            proof {
                assert(WorkingSet::ws_effect(pre, *ws, Set::empty()));
            }
            return false;
        },
    }
    let ghost after_call = *ws;
    proof {
        assert(!runtime.business_keys().contains(
            runtime.accounts.account_key(tx.pub_key),
        ));
        assert(runtime.accounts.spec_account(after_call, tx.pub_key)
            == runtime.accounts.spec_account(after_pre, tx.pub_key));
    }
    match runtime.accounts.post_dispatch_tx_hook(&tx.pub_key, ws) {
        Ok(_) => {},
        Err(_) => {
            ws.discard_scope();
            proof {
                assert(WorkingSet::ws_effect(pre, *ws, Set::empty()));
            }
            return false;
        },
    }
    let ghost after_post = *ws;
    ws.commit_scope();
    proof {
        let post = *ws;
        assert(post.top().writes@ == pre.top().writes@ + after_post.top().writes@);
        assert(pre.top().writes@.is_prefix_of(post.top().writes@));
        assert(post.top().events@ == pre.top().events@ + after_post.top().events@);
        assert(pre.top().events@.is_prefix_of(post.top().events@));
        assert(WorkingSet::ws_effect(pre, post, Set::new(|k: StorageKey| true)));
        assert(runtime.accounts.spec_account(post, tx.pub_key) == runtime.accounts.spec_account(
            after_post,
            tx.pub_key,
        ));
        assert forall|k: StorageKey| k.module != runtime.accounts.address implies pre.val(k)
            == after_pre.val(k) by {
            assert(k != runtime.accounts.account_key(tx.pub_key));
        }
        assert forall|k: StorageKey| k.module != runtime.accounts.address implies post.val(k)
            == after_call.val(k) by {
            assert(k != runtime.accounts.account_key(tx.pub_key));
        }
        assert(after_pre.top().events@ =~= Seq::<crate::state::Event>::empty());
        assert(after_call.top().events@ =~= runtime.spec_dispatch_events(
            after_pre,
            tx.call,
            signer,
        ));
        assert(post.top().events@ =~= pre.top().events@ + runtime.spec_dispatch_events(
            after_pre,
            tx.call,
            signer,
        ));
        runtime.lemma_dispatch_effects_frame(after_pre, after_call, pre, post, tx.call, signer);
    }
    true
}

/// Replay protection: once a transaction executed, the signer's nonce
/// moved past it, so applying the very same transaction again can only
/// be rejected.  [`apply_tx`] guarantees that a successful execution
/// leaves the nonce at `tx.nonce + 1`, and that it rejects any
/// transaction whose nonce differs from the account's; this law closes
/// the loop between the two.
pub proof fn lemma_replay_after_success_is_rejected(
    runtime: Runtime,
    after: WorkingSet,
    tx: Transaction,
)
    requires
        runtime.wf(),
        runtime.accounts.spec_nonce0(after, tx.pub_key) == tx.nonce + 1,
    ensures
        runtime.accounts.spec_nonce0(after, tx.pub_key) != tx.nonce,
{
}

/// Every transaction of the batch fails authentication on `ws`: its
/// nonce differs from its signer's account nonce.  Since failed
/// transactions change nothing, the whole batch then executes nothing.
pub open spec fn spec_all_auth_fail(
    runtime: Runtime,
    ws: WorkingSet,
    txs: Seq<Transaction>,
) -> bool {
    forall|j: int|
        0 <= j < txs.len() ==> #[trigger] runtime.accounts.spec_nonce0(ws, txs[j].pub_key)
            != txs[j].nonce
}

/// The orchestrator: the runtime, the persistent store, and the slot's
/// working set when one is open.
pub struct Stf {
    pub runtime: Runtime,
    pub storage: Storage,
    pub ws: WorkingSet,
    pub phase: Phase,
}

impl Stf {
    /// Well-formed: the runtime's modules are distinct, the version
    /// counter can still grow, and an open slot's working set sits at
    /// depth one over the committed entries.
    pub open spec fn wf(self) -> bool {
        &&& self.runtime.wf()
        &&& self.phase == Phase::SlotOpen ==> (self.ws.wf() && self.ws.depth() == 1
            && self.ws.base@ == self.storage.entries@)
    }

    /// A fresh orchestrator over an empty store.
    pub fn new(runtime: Runtime) -> (r: Stf)
        requires
            runtime.wf(),
        ensures
            r.wf(),
            r.phase == Phase::Uninitialized,
            r.runtime == runtime,
            r.storage.entries@ == Seq::<crate::state::WriteEntry>::empty(),
            forall|k: StorageKey| r.storage.store_val(k) == None::<crate::state::Value>,
    {
        Stf {
            runtime,
            storage: Storage::new(),
            ws: WorkingSet::new(Vec::new()),
            phase: Phase::Uninitialized,
        }
    }

    /// Opens a read-only working set over the latest committed version:
    /// what a fresh storage handle shows.  Uncommitted slot work is
    /// never visible here.
    pub fn open_query(&self) -> (q: WorkingSet)
        ensures
            q.wf(),
            q.depth() == 1,
            forall|k: StorageKey| q.val(k) == self.storage.store_val(k),
            q.top().events@ == Seq::<Event>::empty(),
    {
        WorkingSet::new(self.storage.snapshot())
    }

    /// Initializes the chain: every module's genesis runs in registry
    /// order against a fresh working set, and one top-level commit
    /// produces the genesis root.  A genesis failure is fatal: nothing
    /// at all is committed, and the chain stays uninitialized.
    pub fn init_chain(&mut self, config: &GenesisConfig) -> (r: Result<u64, Error>)
        requires
            old(self).wf(),
            old(self).phase == Phase::Uninitialized,
            old(self).storage.version < 0xffff_ffff_ffff_ffff,
            config.election.candidates@.len() <= 0xffff_ffff,
        ensures
            final(self).wf(),
            final(self).runtime == old(self).runtime,
            r is Ok <==> crate::bank::spec_genesis_ok(config.bank.tokens@),
            r is Err ==> r == Err::<u64, Error>(Error::TotalSupplyOverflow) && final(self).phase
                == Phase::Uninitialized && final(self).storage.entries@
                == old(self).storage.entries@ && final(self).storage.root
                == old(self).storage.root,
            r is Ok ==> final(self).phase == Phase::Ready && final(self).storage.version == old(
                self,
            ).storage.version + 1,
            r is Ok ==> {
                let rt = old(self).runtime;
                let st = *final(self);
                &&& st.storage.store_val(rt.sequencer.da_key()) == Some(
                    crate::state::Value::Name(config.sequencer.seq_da_address),
                )
                &&& st.storage.store_val(rt.sequencer.rollup_key()) == Some(
                    crate::state::Value::Addr(config.sequencer.seq_rollup_address),
                )
                &&& st.storage.store_val(rt.sequencer.coins_key()) == Some(
                    crate::state::Value::CoinsVal(config.sequencer.coins_to_lock),
                )
                &&& st.storage.store_val(rt.value_setter.admin_key()) == Some(
                    crate::state::Value::Addr(config.value_setter.admin),
                )
                &&& st.storage.store_val(rt.election.admin_key()) == Some(
                    crate::state::Value::Addr(config.election.admin),
                )
                &&& st.storage.store_val(rt.election.frozen_key()) == Some(
                    crate::state::Value::Flag(false),
                )
                &&& st.storage.store_val(rt.election.count_key()) == Some(
                    crate::state::Value::U64(config.election.candidates@.len() as u64),
                )
                &&& forall|i: int|
                    0 <= i < config.election.candidates@.len()
                        ==> #[trigger] st.storage.store_val(rt.election.cand_key(i as u64))
                        == Some(
                        crate::state::Value::Candidate(
                            crate::state::CandidateRecord {
                                name: config.election.candidates@[i],
                                count: 0,
                            },
                        ),
                    )
            },
            r is Ok && old(self).runtime.bank.spec_bank_cfg_wf(config.bank.tokens@) ==> forall|
                i: int,
            |
                0 <= i < config.bank.tokens@.len()
                    ==> #[trigger] final(self).storage.store_val(
                    old(self).runtime.bank.token_key(
                        old(self).runtime.bank.spec_cfg_addr(config.bank.tokens@, i),
                    ),
                ) == Some(
                    crate::state::Value::Token(
                        crate::state::TokenRecord {
                            total_supply: crate::bank::spec_sum_at(config.bank.tokens@, i) as u64,
                        },
                    ),
                ),
    {
        let mut ws = WorkingSet::new(self.storage.snapshot());
        match self.runtime.genesis(config, &mut ws) {
            Ok(_) => {},
            Err(e) => {
                return Err(e);
            },
        }
        let root = self.storage.commit(&ws);
        self.phase = Phase::Ready;
        proof {
            let rt = self.runtime;
            let names = config.election.candidates@;
            assert forall|i: int| 0 <= i < names.len() implies #[trigger] self.storage.store_val(
                rt.election.cand_key(i as u64),
            ) == Some(
                crate::state::Value::Candidate(
                    crate::state::CandidateRecord { name: names[i], count: 0 },
                ),
            ) by {
                assert(rt.election.spec_candidate(ws, i as u64) == Some(
                    crate::state::CandidateRecord { name: names[i], count: 0 },
                ));
                assert(self.storage.store_val(rt.election.cand_key(i as u64)) == ws.val(
                    rt.election.cand_key(i as u64),
                ));
            }
            let tokens = config.bank.tokens@;
            if rt.bank.spec_bank_cfg_wf(tokens) {
                assert forall|i: int| 0 <= i < tokens.len() implies #[trigger] self.storage
                    .store_val(rt.bank.token_key(rt.bank.spec_cfg_addr(tokens, i))) == Some(
                    crate::state::Value::Token(
                        crate::state::TokenRecord {
                            total_supply: crate::bank::spec_sum_at(tokens, i) as u64,
                        },
                    ),
                ) by {
                    assert(rt.bank.spec_installed_at(ws, tokens, i));
                    let addr_i = rt.bank.spec_cfg_addr(tokens, i);
                    assert(self.storage.store_val(rt.bank.token_key(addr_i)) == ws.val(
                        rt.bank.token_key(addr_i),
                    ));
                    assert(rt.bank.spec_token(ws, addr_i) == Some(
                        crate::state::TokenRecord {
                            total_supply: crate::bank::spec_sum_at(tokens, i) as u64,
                        },
                    ));
                }
            }
        }
        Ok(root)
    }

    /// Opens a new slot: a fresh top-level working set bound to the
    /// latest committed version.  The store itself does not change.
    pub fn begin_slot(&mut self)
        requires
            old(self).wf(),
            old(self).phase == Phase::Ready,
        ensures
            final(self).wf(),
            final(self).phase == Phase::SlotOpen,
            final(self).runtime == old(self).runtime,
            final(self).storage.entries@ == old(self).storage.entries@,
            final(self).storage.root == old(self).storage.root,
            final(self).storage.version == old(self).storage.version,
            forall|k: StorageKey| final(self).ws.val(k) == old(self).storage.store_val(k),
            final(self).ws.top().events@ == Seq::<Event>::empty(),
            final(self).ws.top().writes@ == Seq::<crate::state::WriteEntry>::empty(),
    {
        self.ws = WorkingSet::new(self.storage.snapshot());
        self.phase = Phase::SlotOpen;
    }

    /// Applies one blob inside its own save-point.  A blob that does
    /// not decode, or whose sequencer cannot be bonded, is `Ignored`
    /// with an empty event list and no state effect at all; a bonded
    /// blob runs its whole batch, each transaction in its own
    /// save-point, and is `Rewarded` with the count of transactions
    /// that executed.  Bonding is reversible, so a bonded batch that
    /// executes nothing — empty, or every transaction failing
    /// authentication — is owed `Rewarded(0)`.  The persistent store
    /// never changes here.
    pub fn apply_blob(&mut self, blob: &Blob) -> (r: BlobReceipt)
        requires
            old(self).wf(),
            old(self).phase == Phase::SlotOpen,
            blob.raw@.len() <= usize::MAX - 1000,
        ensures
            final(self).wf(),
            final(self).phase == Phase::SlotOpen,
            final(self).runtime == old(self).runtime,
            final(self).storage.entries@ == old(self).storage.entries@,
            final(self).storage.root == old(self).storage.root,
            final(self).storage.version == old(self).storage.version,
            WorkingSet::ws_effect(
                old(self).ws,
                final(self).ws,
                Set::new(|k: StorageKey| true),
            ),
            spec_decode_batch(blob.raw@) is None ==> r.inner == SequencerOutcome::Ignored,
            (spec_decode_batch(blob.raw@) is Some && !old(self).runtime.sequencer.spec_begin_ok(
                old(self).runtime.bank,
                old(self).ws,
                blob.sender,
            )) ==> r.inner == SequencerOutcome::Ignored,
            r.inner == SequencerOutcome::Ignored ==> r.events@ == Seq::<Event>::empty()
                && final(self).ws.top().writes@ == old(self).ws.top().writes@
                && final(self).ws.top().events@ == old(self).ws.top().events@
                && WorkingSet::ws_effect(old(self).ws, final(self).ws, Set::empty()),
            r.inner is Rewarded ==> spec_decode_batch(blob.raw@) is Some
                && old(self).runtime.sequencer.spec_begin_ok(
                old(self).runtime.bank,
                old(self).ws,
                blob.sender,
            ),
            (spec_decode_batch(blob.raw@) is Some && old(self).runtime.sequencer.spec_begin_ok(
                old(self).runtime.bank,
                old(self).ws,
                blob.sender,
            ) && spec_all_auth_fail(
                old(self).runtime,
                old(self).ws,
                spec_decode_batch(blob.raw@).unwrap(),
            )) ==> r.inner == SequencerOutcome::Rewarded(0) && r.events@ == Seq::<Event>::empty(),
            (spec_decode_batch(blob.raw@) is Some && old(self).runtime.sequencer.spec_begin_ok(
                old(self).runtime.bank,
                old(self).ws,
                blob.sender,
            ) && spec_decode_batch(blob.raw@).unwrap().len() == 0) ==> r.inner
                == SequencerOutcome::Rewarded(0),
            r.inner is Rewarded ==> final(self).ws.top().events@ == old(self).ws.top().events@
                + r.events@,
            r.inner matches SequencerOutcome::Rewarded(n) ==> n <= spec_decode_batch(
                blob.raw@,
            ).unwrap().len(),
    {
        let ghost pre = *old(self);
        let batch = match decode_batch(blob.raw.as_slice()) {
            Option::Some(b) => b,
            Option::None => {
                proof {
                    WorkingSet::lemma_ws_effect_refl(pre.ws);
                    WorkingSet::lemma_ws_effect_widen(
                        pre.ws,
                        self.ws,
                        Set::empty(),
                        Set::new(|k: StorageKey| true),
                    );
                }
                return BlobReceipt { inner: SequencerOutcome::Ignored, events: Vec::new() };
            },
        };
        self.ws.open_scope();
        let ghost opened = self.ws;
        match self.runtime.sequencer.begin_blob_hook(&self.runtime.bank, &blob.sender, &mut self.ws)
            {
            Ok(_) => {},
            Err(_) => {
                self.ws.discard_scope();
                proof {
                    assert(WorkingSet::ws_effect(pre.ws, self.ws, Set::empty()));
                    WorkingSet::lemma_ws_effect_widen(
                        pre.ws,
                        self.ws,
                        Set::empty(),
                        Set::new(|k: StorageKey| true),
                    );
                }
                return BlobReceipt { inner: SequencerOutcome::Ignored, events: Vec::new() };
            },
        }
        let ghost bonded = self.ws;
        let mut count: u64 = 0;
        let mut i: usize = 0;
        while i < batch.txs.len()
            invariant
                self.runtime.wf(),
                self.phase == Phase::SlotOpen,
                pre == *old(self),
                self.runtime == pre.runtime,
                self.storage.entries@ == pre.storage.entries@,
                self.storage.root == pre.storage.root,
                self.storage.version == pre.storage.version,
                i <= batch.txs.len(),
                count <= i,
                self.ws.wf(),
                self.ws.depth() == 2,
                bonded.wf(),
                bonded.depth() == 2,
                batch.txs@ == spec_decode_batch(blob.raw@).unwrap(),
                WorkingSet::ws_effect(bonded, self.ws, Set::new(|k: StorageKey| true)),
                forall|k: StorageKey|
                    k.module == pre.runtime.accounts.address ==> bonded.val(k) == pre.ws.val(k),
                spec_all_auth_fail(pre.runtime, pre.ws, batch.txs@) ==> (count == 0 && (forall|
                    k: StorageKey,
                | self.ws.val(k) == bonded.val(k)) && self.ws.top().writes@
                    == bonded.top().writes@ && self.ws.top().events@ == bonded.top().events@),
            decreases batch.txs.len() - i,
        {
            let ghost before = self.ws;
            let executed = apply_tx(&self.runtime, &batch.txs[i], &mut self.ws);
            if executed {
                count = count + 1;
            }
            proof {
                WorkingSet::lemma_ws_effect_trans(
                    bonded,
                    before,
                    self.ws,
                    Set::new(|k: StorageKey| true),
                    Set::new(|k: StorageKey| true),
                );
                assert(Set::new(|k: StorageKey| true).union(Set::new(|k: StorageKey| true))
                    =~= Set::new(|k: StorageKey| true));
                if spec_all_auth_fail(pre.runtime, pre.ws, batch.txs@) {
                    assert(pre.runtime.accounts.spec_nonce0(pre.ws, batch.txs@[i as int].pub_key)
                        != batch.txs@[i as int].nonce);
                    assert(pre.runtime.accounts.spec_nonce0(before, batch.txs@[i as int].pub_key)
                        == pre.runtime.accounts.spec_nonce0(
                        pre.ws,
                        batch.txs@[i as int].pub_key,
                    ));
                    assert(!executed);
                }
            }
            i = i + 1;
        }
        proof {
            if spec_all_auth_fail(pre.runtime, pre.ws, batch.txs@) {
                self.runtime.sequencer.lemma_begin_then_end(
                    self.runtime.bank,
                    opened,
                    bonded,
                    blob.sender,
                );
                assert(self.runtime.sequencer.spec_end_ok(self.runtime.bank, self.ws)
                    == self.runtime.sequencer.spec_end_ok(self.runtime.bank, bonded));
            }
        }
        match self.runtime.sequencer.end_blob_hook(&self.runtime.bank, &mut self.ws) {
            Ok(_) => {},
            Err(_) => {
                self.ws.discard_scope();
                proof {
                    assert(WorkingSet::ws_effect(pre.ws, self.ws, Set::empty()));
                    WorkingSet::lemma_ws_effect_widen(
                        pre.ws,
                        self.ws,
                        Set::empty(),
                        Set::new(|k: StorageKey| true),
                    );
                }
                return BlobReceipt { inner: SequencerOutcome::Ignored, events: Vec::new() };
            },
        }
        let events = self.ws.top_events();
        let ghost before_commit = self.ws;
        self.ws.commit_scope();
        proof {
            assert(self.ws.top().writes@ == pre.ws.top().writes@ + before_commit.top().writes@);
            assert(pre.ws.top().writes@.is_prefix_of(self.ws.top().writes@));
            assert(self.ws.top().events@ == pre.ws.top().events@ + before_commit.top().events@);
            assert(pre.ws.top().events@.is_prefix_of(self.ws.top().events@));
            assert(WorkingSet::ws_effect(pre.ws, self.ws, Set::new(|k: StorageKey| true)));
        }
        BlobReceipt { inner: SequencerOutcome::Rewarded(count), events }
    }

    /// Closes the slot with its single top-level commit: every value
    /// the slot's working set showed is now what the store shows, under
    /// a new version whose root is a deterministic function of the
    /// previous root and the slot's writes.
    pub fn end_slot(&mut self) -> (root: u64)
        requires
            old(self).wf(),
            old(self).phase == Phase::SlotOpen,
            old(self).storage.version < 0xffff_ffff_ffff_ffff,
        ensures
            final(self).wf(),
            final(self).phase == Phase::Ready,
            final(self).runtime == old(self).runtime,
            forall|k: StorageKey|
                final(self).storage.store_val(k) == old(self).ws.val(k),
            final(self).storage.root == spec_root_step(
                old(self).storage.root,
                old(self).ws.top().writes@,
            ),
            final(self).storage.version == old(self).storage.version + 1,
            root == final(self).storage.root,
    {
        let root = self.storage.commit(&self.ws);
        self.phase = Phase::Ready;
        root
    }
}

} // verus!
