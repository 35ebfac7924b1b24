//! The versioned working set and its persistent storage backend.
//!
//! A [`WorkingSet`] is a scoped, revertible overlay over a snapshot of
//! the persistent store.  Writes are buffered in the innermost scope;
//! scopes nest arbitrarily and are either committed into their parent or
//! discarded as if they never ran.  A [`Storage`] holds the committed
//! entries and a deterministic root that changes with every commit.
//!
//! The model of a scope's buffer is a write log: later entries win, and
//! [`log_find`] reads the log from its end.  The value a working set
//! shows for a key at scope depth `d` is [`WorkingSet::val_upto`]; the
//! value the whole set shows is [`WorkingSet::val`].

use vstd::prelude::*;

use crate::address::Address;
use crate::address::ShortName;

verus! {

/// A storage key: the owning module's address, a field identifier inside
/// that module's namespace, and up to two item slots.  Unused slots hold
/// the zero address, so no two fields of one module and no two modules
/// ever alias the same key.
#[derive(Clone, Copy, PartialEq, Eq, Structural, Debug)]
pub struct StorageKey {
    pub module: Address,
    pub field: u64,
    pub k1: Address,
    pub k2: Address,
}

/// An account record: the signer's resolved address and its nonce.
#[derive(Clone, Copy, PartialEq, Eq, Structural, Debug)]
pub struct AccountRecord {
    pub addr: Address,
    pub nonce: u64,
}

/// A token record: the circulating total supply.
#[derive(Clone, Copy, PartialEq, Eq, Structural, Debug)]
pub struct TokenRecord {
    pub total_supply: u64,
}

/// An amount of one token, used by every module doing value transfer.
#[derive(Clone, Copy, PartialEq, Eq, Structural, Debug)]
pub struct Coins {
    pub token_address: Address,
    pub amount: u64,
}

/// A candidate of the election module: its name and its vote count.
#[derive(Clone, Copy, PartialEq, Eq, Structural, Debug)]
pub struct CandidateRecord {
    pub name: ShortName,
    pub count: u64,
}

/// A liquidity pool of the swap module.
#[derive(Clone, Copy, PartialEq, Eq, Structural, Debug)]
pub struct Pool {
    pub token_a: Address,
    pub token_a_liquidity: u64,
    pub token_b: Address,
    pub token_b_liquidity: u64,
    pub liquidity_token: Address,
}

/// A stored value: the module-chosen shape of one field's type.
#[derive(Clone, Copy, PartialEq, Eq, Structural, Debug)]
pub enum Value {
    U64(u64),
    U32(u32),
    Flag(bool),
    Addr(Address),
    Account(AccountRecord),
    Token(TokenRecord),
    CoinsVal(Coins),
    PoolVal(Pool),
    Candidate(CandidateRecord),
    Name(ShortName),
}

/// The payload of an event: up to four addresses and two numbers, unused
/// slots zeroed.  Events are ordered by emission order and never mutated
/// once added.
#[derive(Clone, Copy, PartialEq, Eq, Structural, Debug)]
pub struct EventData {
    pub a0: Address,
    pub a1: Address,
    pub a2: Address,
    pub a3: Address,
    pub n0: u64,
    pub n1: u64,
}

/// An event appended to the working set during execution and exposed in
/// per-blob receipts.
#[derive(Clone, Copy, PartialEq, Eq, Structural, Debug)]
pub struct Event {
    pub key: ShortName,
    pub value: EventData,
}

/// One buffered write: the key, and `Some` value or a `None` tombstone.
pub type WriteEntry = (StorageKey, Option<Value>);

/// Reads a write log from its end: `Some(w)` if the log holds a write
/// for `k` (the latest one), `None` if it holds none.
pub open spec fn log_find(log: Seq<WriteEntry>, k: StorageKey) -> Option<Option<Value>>
    decreases log.len(),
{
    if log.len() == 0 {
        None
    } else if log.last().0 == k {
        Some(log.last().1)
    } else {
        log_find(log.drop_last(), k)
    }
}

/// Appending one write changes the log's answer only for that key.
pub proof fn lemma_log_find_push(log: Seq<WriteEntry>, e: WriteEntry, k: StorageKey)
    ensures
        log_find(log.push(e), k) == if e.0 == k {
            Some(e.1)
        } else {
            log_find(log, k)
        },
{
    assert(log.push(e).drop_last() =~= log);
}

/// Reading a concatenated log tries the later half first.
pub proof fn lemma_log_find_append(a: Seq<WriteEntry>, b: Seq<WriteEntry>, k: StorageKey)
    ensures
        log_find(a + b, k) == match log_find(b, k) {
            Some(w) => Some(w),
            None => log_find(a, k),
        },
    decreases b.len(),
{
    if b.len() == 0 {
        assert(a + b =~= a);
    } else {
        assert((a + b).drop_last() =~= a + b.drop_last());
        assert((a + b).last() == b.last());
        lemma_log_find_append(a, b.drop_last(), k);
    }
}

/// Executable log read, equal to [`log_find`].
pub fn find_in_log(log: &Vec<WriteEntry>, k: StorageKey) -> (r: Option<Option<Value>>)
    ensures
        r == log_find(log@, k),
{
    let mut i: usize = log.len();
    proof {
        assert(log@.subrange(0, log@.len() as int) =~= log@);
    }
    while i > 0
        invariant
            i <= log.len(),
            log_find(log@, k) == log_find(log@.subrange(0, i as int), k),
        decreases i,
    {
        i = i - 1;
        proof {
            assert(log@.subrange(0, i + 1).drop_last() =~= log@.subrange(0, i as int));
            assert(log@.subrange(0, i + 1).last() == log@[i as int]);
        }
        if log[i].0 == k {
            return Some(log[i].1);
        }
    }
    proof {
        assert(log@.subrange(0, 0) =~= Seq::<WriteEntry>::empty());
    }
    None
}

/// One save-point: the writes and events buffered since it was opened.
pub struct Scope {
    pub writes: Vec<WriteEntry>,
    pub events: Vec<Event>,
}

/// A scoped, revertible overlay over a snapshot of the persistent store.
pub struct WorkingSet {
    /// The snapshot of the committed entries this set was opened over.
    pub base: Vec<WriteEntry>,
    /// The stack of open scopes; `scopes[0]` is the top-level scope and
    /// always exists, the last scope is the innermost.
    pub scopes: Vec<Scope>,
}

impl WorkingSet {
    /// Well-formed: the top-level scope exists.
    pub open spec fn wf(self) -> bool {
        self.scopes.len() >= 1
    }

    /// The number of open scopes.
    pub open spec fn depth(self) -> int {
        self.scopes.len() as int
    }

    /// The innermost scope.
    pub open spec fn top(self) -> Scope {
        self.scopes@.last()
    }

    /// The value the base snapshot shows for `k`.
    pub open spec fn base_val(self, k: StorageKey) -> Option<Value> {
        match log_find(self.base@, k) {
            Some(w) => w,
            None => None,
        }
    }

    /// The value visible for `k` when only the outermost `d` scopes are
    /// considered: read-your-writes from the innermost of them outward,
    /// then the base snapshot.
    pub open spec fn val_upto(self, d: int, k: StorageKey) -> Option<Value>
        decreases d,
    {
        if d <= 0 {
            self.base_val(k)
        } else {
            match log_find(self.scopes@[d - 1].writes@, k) {
                Some(w) => w,
                None => self.val_upto(d - 1, k),
            }
        }
    }

    /// The value visible for `k` through every open scope.
    pub open spec fn val(self, k: StorageKey) -> Option<Value> {
        self.val_upto(self.depth(), k)
    }
}

/// Two working sets over the same base whose outermost `d` scopes agree
/// show the same values up to depth `d`.
pub proof fn lemma_val_upto_agrees(w1: WorkingSet, w2: WorkingSet, d: int, k: StorageKey)
    requires
        w1.base@ == w2.base@,
        0 <= d <= w1.scopes.len(),
        d <= w2.scopes.len(),
        forall|i: int| 0 <= i < d ==> w1.scopes@[i].writes@ == w2.scopes@[i].writes@,
    ensures
        w1.val_upto(d, k) == w2.val_upto(d, k),
    decreases d,
{
    if d > 0 {
        lemma_val_upto_agrees(w1, w2, d - 1, k);
    }
}

impl WorkingSet {
    /// Opens a working set over a snapshot of committed entries, with
    /// only the top-level scope open.
    pub fn new(base: Vec<WriteEntry>) -> (r: WorkingSet)
        ensures
            r.wf(),
            r.depth() == 1,
            r.base@ == base@,
            r.top().writes@ == Seq::<WriteEntry>::empty(),
            r.top().events@ == Seq::<Event>::empty(),
            forall|k: StorageKey| r.val(k) == r.base_val(k),
    {
        let scope = Scope { writes: Vec::new(), events: Vec::new() };
        let r = WorkingSet { base, scopes: vec![scope] };
        proof {
            assert(r.scopes@[0].writes@ =~= Seq::<WriteEntry>::empty());
            assert forall|k: StorageKey| r.val(k) == r.base_val(k) by {
                assert(log_find(r.scopes@[0].writes@, k) == None::<Option<Value>>);
                assert(r.val_upto(0, k) == r.base_val(k));
                assert(r.val_upto(1, k) == r.base_val(k));
            }
        }
        r
    }

    /// Reads `k`: pending writes of the current and enclosing scopes
    /// first, then the base snapshot.
    pub fn get(&self, k: StorageKey) -> (r: Option<Value>)
        requires
            self.wf(),
        ensures
            r == self.val(k),
    {
        let mut d: usize = self.scopes.len();
        while d > 0
            invariant
                d <= self.scopes.len(),
                self.val(k) == self.val_upto(d as int, k),
            decreases d,
        {
            match find_in_log(&self.scopes[d - 1].writes, k) {
                Some(w) => {
                    return w;
                },
                None => {
                    d = d - 1;
                },
            }
        }
        match find_in_log(&self.base, k) {
            Some(w) => w,
            None => None,
        }
    }

    /// Reads `k`, a missing value reported as an error.
    pub fn get_or_err(&self, k: StorageKey) -> (r: Result<Value, crate::errors::Error>)
        requires
            self.wf(),
        ensures
            r == match self.val(k) {
                Option::Some(v) => Ok::<Value, crate::errors::Error>(v),
                Option::None => Err::<Value, crate::errors::Error>(crate::errors::Error::NotFound),
            },
    {
        match self.get(k) {
            Option::Some(v) => Ok(v),
            Option::None => Err(crate::errors::Error::NotFound),
        }
    }

    /// Buffers a write of `v` to `k` in the innermost scope.
    pub fn set(&mut self, k: StorageKey, v: Value)
        requires
            old(self).wf(),
        ensures
            final(self).wf(),
            final(self).depth() == old(self).depth(),
            final(self).base@ == old(self).base@,
            forall|i: int|
                0 <= i < old(self).depth() - 1 ==> final(self).scopes@[i].writes@
                    == old(self).scopes@[i].writes@ && final(self).scopes@[i].events@
                    == old(self).scopes@[i].events@,
            final(self).top().writes@ == old(self).top().writes@.push((k, Some(v))),
            final(self).top().events@ == old(self).top().events@,
            forall|k2: StorageKey|
                final(self).val(k2) == if k2 == k {
                    Some(v)
                } else {
                    old(self).val(k2)
                },
            forall|d: int, k2: StorageKey|
                0 <= d < old(self).depth() ==> final(self).val_upto(d, k2) == old(self).val_upto(
                    d,
                    k2,
                ),
    {
        self.write_entry(k, Some(v));
    }

    /// Buffers a delete of `k` in the innermost scope.
    pub fn delete(&mut self, k: StorageKey)
        requires
            old(self).wf(),
        ensures
            final(self).wf(),
            final(self).depth() == old(self).depth(),
            final(self).base@ == old(self).base@,
            forall|i: int|
                0 <= i < old(self).depth() - 1 ==> final(self).scopes@[i].writes@
                    == old(self).scopes@[i].writes@ && final(self).scopes@[i].events@
                    == old(self).scopes@[i].events@,
            final(self).top().writes@ == old(self).top().writes@.push((k, None)),
            final(self).top().events@ == old(self).top().events@,
            forall|k2: StorageKey|
                final(self).val(k2) == if k2 == k {
                    None::<Value>
                } else {
                    old(self).val(k2)
                },
            forall|d: int, k2: StorageKey|
                0 <= d < old(self).depth() ==> final(self).val_upto(d, k2) == old(self).val_upto(
                    d,
                    k2,
                ),
    {
        self.write_entry(k, None);
    }

    /// Shared body of [`Self::set`] and [`Self::del`].
    fn write_entry(&mut self, k: StorageKey, w: Option<Value>)
        requires
            old(self).wf(),
        ensures
            final(self).wf(),
            final(self).depth() == old(self).depth(),
            final(self).base@ == old(self).base@,
            forall|i: int|
                0 <= i < old(self).depth() - 1 ==> final(self).scopes@[i].writes@
                    == old(self).scopes@[i].writes@ && final(self).scopes@[i].events@
                    == old(self).scopes@[i].events@,
            final(self).top().writes@ == old(self).top().writes@.push((k, w)),
            final(self).top().events@ == old(self).top().events@,
            forall|k2: StorageKey|
                final(self).val(k2) == if k2 == k {
                    w
                } else {
                    old(self).val(k2)
                },
            forall|d: int, k2: StorageKey|
                0 <= d < old(self).depth() ==> final(self).val_upto(d, k2) == old(self).val_upto(
                    d,
                    k2,
                ),
    {
        let ghost pre = *self;
        let last = self.scopes.len() - 1;
        let top = &mut self.scopes[last];
        top.writes.push((k, w));
        proof {
            let post = *self;
            assert(post.scopes@.last().writes@ =~= pre.scopes@.last().writes@.push((k, w)));
            assert forall|d: int, k2: StorageKey|
                0 <= d < pre.depth() implies post.val_upto(d, k2) == pre.val_upto(d, k2) by {
                lemma_val_upto_agrees(post, pre, d, k2);
            }
            assert forall|k2: StorageKey|
                post.val(k2) == if k2 == k {
                    w
                } else {
                    pre.val(k2)
                } by {
                lemma_log_find_push(pre.top().writes@, (k, w), k2);
                assert(post.val_upto(post.depth() - 1, k2) == pre.val_upto(pre.depth() - 1, k2))
                    by {
                    lemma_val_upto_agrees(post, pre, pre.depth() - 1, k2);
                }
            }
        }
    }

    /// Appends an event to the innermost scope's log.
    pub fn add_event(&mut self, e: Event)
        requires
            old(self).wf(),
        ensures
            final(self).wf(),
            final(self).depth() == old(self).depth(),
            final(self).base@ == old(self).base@,
            forall|i: int|
                0 <= i < old(self).depth() - 1 ==> final(self).scopes@[i].writes@
                    == old(self).scopes@[i].writes@ && final(self).scopes@[i].events@
                    == old(self).scopes@[i].events@,
            final(self).top().writes@ == old(self).top().writes@,
            final(self).top().events@ == old(self).top().events@.push(e),
            forall|k2: StorageKey| final(self).val(k2) == old(self).val(k2),
            forall|d: int, k2: StorageKey|
                0 <= d <= old(self).depth() ==> final(self).val_upto(d, k2) == old(self).val_upto(
                    d,
                    k2,
                ),
    {
        let ghost pre = *self;
        let last = self.scopes.len() - 1;
        let top = &mut self.scopes[last];
        top.events.push(e);
        proof {
            let post = *self;
            assert forall|d: int, k2: StorageKey|
                0 <= d <= pre.depth() implies post.val_upto(d, k2) == pre.val_upto(d, k2) by {
                lemma_val_upto_agrees(post, pre, d, k2);
            }
        }
    }

    /// Begins a save-point: a fresh innermost scope with no writes and
    /// no events.
    pub fn open_scope(&mut self)
        requires
            old(self).wf(),
        ensures
            final(self).wf(),
            final(self).depth() == old(self).depth() + 1,
            final(self).base@ == old(self).base@,
            forall|i: int|
                0 <= i < old(self).depth() ==> final(self).scopes@[i].writes@
                    == old(self).scopes@[i].writes@ && final(self).scopes@[i].events@
                    == old(self).scopes@[i].events@,
            final(self).top().writes@ == Seq::<WriteEntry>::empty(),
            final(self).top().events@ == Seq::<Event>::empty(),
            forall|k2: StorageKey| final(self).val(k2) == old(self).val(k2),
            forall|d: int, k2: StorageKey|
                0 <= d <= old(self).depth() ==> final(self).val_upto(d, k2) == old(self).val_upto(
                    d,
                    k2,
                ),
    {
        let ghost pre = *self;
        self.scopes.push(Scope { writes: Vec::new(), events: Vec::new() });
        proof {
            let post = *self;
            assert forall|d: int, k2: StorageKey|
                0 <= d <= pre.depth() implies post.val_upto(d, k2) == pre.val_upto(d, k2) by {
                lemma_val_upto_agrees(post, pre, d, k2);
            }
            assert forall|k2: StorageKey| post.val(k2) == pre.val(k2) by {
                assert(log_find(post.top().writes@, k2) == None::<Option<Value>>);
            }
        }
    }

    /// Commits the innermost save-point: its buffered writes and events
    /// merge into the parent scope, and every visible value stays as it
    /// was.
    pub fn commit_scope(&mut self)
        requires
            old(self).wf(),
            old(self).depth() >= 2,
        ensures
            final(self).wf(),
            final(self).depth() == old(self).depth() - 1,
            final(self).base@ == old(self).base@,
            forall|i: int|
                0 <= i < old(self).depth() - 2 ==> final(self).scopes@[i].writes@
                    == old(self).scopes@[i].writes@ && final(self).scopes@[i].events@
                    == old(self).scopes@[i].events@,
            final(self).top().writes@ == old(self).scopes@[old(self).depth() - 2].writes@
                + old(self).top().writes@,
            final(self).top().events@ == old(self).scopes@[old(self).depth() - 2].events@
                + old(self).top().events@,
            forall|k2: StorageKey| final(self).val(k2) == old(self).val(k2),
            forall|d: int, k2: StorageKey|
                0 <= d < old(self).depth() - 1 ==> final(self).val_upto(d, k2) == old(
                    self,
                ).val_upto(d, k2),
    {
        let ghost pre = *self;
        let child = self.scopes.pop().unwrap();
        let last = self.scopes.len() - 1;
        let parent = &mut self.scopes[last];
        let mut i: usize = 0;
        while i < child.writes.len()
            invariant
                i <= child.writes.len(),
                parent.writes@ == pre.scopes@[pre.depth() - 2].writes@ + child.writes@.subrange(
                    0,
                    i as int,
                ),
                parent.events@ == pre.scopes@[pre.depth() - 2].events@,
            decreases child.writes.len() - i,
        {
            parent.writes.push(child.writes[i]);
            proof {
                assert(child.writes@.subrange(0, i + 1) =~= child.writes@.subrange(
                    0,
                    i as int,
                ).push(child.writes@[i as int]));
                assert(pre.scopes@[pre.depth() - 2].writes@ + child.writes@.subrange(0, i + 1)
                    =~= (pre.scopes@[pre.depth() - 2].writes@ + child.writes@.subrange(
                    0,
                    i as int,
                )).push(child.writes@[i as int]));
            }
            i = i + 1;
        }
        let mut j: usize = 0;
        while j < child.events.len()
            invariant
                j <= child.events.len(),
                parent.writes@ == pre.scopes@[pre.depth() - 2].writes@ + child.writes@,
                parent.events@ == pre.scopes@[pre.depth() - 2].events@ + child.events@.subrange(
                    0,
                    j as int,
                ),
            decreases child.events.len() - j,
        {
            parent.events.push(child.events[j]);
            proof {
                assert(child.events@.subrange(0, j + 1) =~= child.events@.subrange(
                    0,
                    j as int,
                ).push(child.events@[j as int]));
                assert(pre.scopes@[pre.depth() - 2].events@ + child.events@.subrange(0, j + 1)
                    =~= (pre.scopes@[pre.depth() - 2].events@ + child.events@.subrange(
                    0,
                    j as int,
                )).push(child.events@[j as int]));
            }
            j = j + 1;
        }
        proof {
            assert(child.writes@.subrange(0, child.writes@.len() as int) =~= child.writes@);
            assert(child.events@.subrange(0, child.events@.len() as int) =~= child.events@);
            let post = *self;
            assert(child.writes@ == pre.top().writes@);
            assert forall|d: int, k2: StorageKey|
                0 <= d < pre.depth() - 1 implies post.val_upto(d, k2) == pre.val_upto(d, k2) by {
                lemma_val_upto_agrees(post, pre, d, k2);
            }
            assert forall|k2: StorageKey| post.val(k2) == pre.val(k2) by {
                lemma_log_find_append(
                    pre.scopes@[pre.depth() - 2].writes@,
                    pre.top().writes@,
                    k2,
                );
                assert(post.val_upto(post.depth() - 1, k2) == pre.val_upto(pre.depth() - 2, k2))
                    by {
                    lemma_val_upto_agrees(post, pre, pre.depth() - 2, k2);
                }
            }
        }
    }

    /// Discards the innermost save-point: its buffered writes and events
    /// are dropped entirely, as if they never ran.
    pub fn discard_scope(&mut self)
        requires
            old(self).wf(),
            old(self).depth() >= 2,
        ensures
            final(self).wf(),
            final(self).depth() == old(self).depth() - 1,
            final(self).base@ == old(self).base@,
            forall|i: int|
                0 <= i < old(self).depth() - 1 ==> final(self).scopes@[i].writes@
                    == old(self).scopes@[i].writes@ && final(self).scopes@[i].events@
                    == old(self).scopes@[i].events@,
            forall|k2: StorageKey|
                final(self).val(k2) == old(self).val_upto(old(self).depth() - 1, k2),
            forall|d: int, k2: StorageKey|
                0 <= d < old(self).depth() ==> final(self).val_upto(d, k2) == old(self).val_upto(
                    d,
                    k2,
                ),
    {
        let ghost pre = *self;
        let _dropped = self.scopes.pop();
        proof {
            let post = *self;
            assert forall|d: int, k2: StorageKey|
                0 <= d < pre.depth() implies post.val_upto(d, k2) == pre.val_upto(d, k2) by {
                lemma_val_upto_agrees(post, pre, d, k2);
            }
        }
    }

    /// What one step of module logic may do to a working set: grow the
    /// innermost scope only, and change no value outside `touched`.
    /// Values visible at every enclosing depth stay as they were, so a
    /// later discard of any enclosing scope still rolls everything back.
    pub open spec fn ws_effect(pre: WorkingSet, post: WorkingSet, touched: Set<StorageKey>) -> bool {
        &&& pre.wf()
        &&& post.wf()
        &&& post.depth() == pre.depth()
        &&& post.base@ == pre.base@
        &&& forall|i: int|
            0 <= i < pre.depth() - 1 ==> post.scopes@[i].writes@ == pre.scopes@[i].writes@
                && post.scopes@[i].events@ == pre.scopes@[i].events@
        &&& pre.top().writes@.is_prefix_of(post.top().writes@)
        &&& pre.top().events@.is_prefix_of(post.top().events@)
        &&& forall|k: StorageKey| !touched.contains(k) ==> post.val(k) == pre.val(k)
        &&& forall|d: int, k: StorageKey|
            0 <= d < pre.depth() ==> post.val_upto(d, k) == pre.val_upto(d, k)
    }

    /// [`Self::ws_effect`] composes, with the touched sets joined.
    pub proof fn lemma_ws_effect_trans(
        pre: WorkingSet,
        mid: WorkingSet,
        post: WorkingSet,
        t1: Set<StorageKey>,
        t2: Set<StorageKey>,
    )
        requires
            WorkingSet::ws_effect(pre, mid, t1),
            WorkingSet::ws_effect(mid, post, t2),
        ensures
            WorkingSet::ws_effect(pre, post, t1.union(t2)),
    {
        assert(pre.top().writes@.is_prefix_of(post.top().writes@));
        assert(pre.top().events@.is_prefix_of(post.top().events@));
    }

    /// A smaller touched set refines a larger one.
    pub proof fn lemma_ws_effect_widen(
        pre: WorkingSet,
        post: WorkingSet,
        t1: Set<StorageKey>,
        t2: Set<StorageKey>,
    )
        requires
            WorkingSet::ws_effect(pre, post, t1),
            t1.subset_of(t2),
        ensures
            WorkingSet::ws_effect(pre, post, t2),
    {
    }

    /// Nothing changed: the empty effect.
    pub proof fn lemma_ws_effect_refl(w: WorkingSet)
        requires
            w.wf(),
        ensures
            WorkingSet::ws_effect(w, w, Set::<StorageKey>::empty()),
    {
        assert(w.top().writes@.is_prefix_of(w.top().writes@));
        assert(w.top().events@.is_prefix_of(w.top().events@));
    }

    /// A copy of the innermost scope's event log, in emission order.
    pub fn top_events(&self) -> (r: Vec<Event>)
        requires
            self.wf(),
        ensures
            r@ == self.top().events@,
    {
        let last = self.scopes.len() - 1;
        let evs = &self.scopes[last].events;
        let mut r: Vec<Event> = Vec::new();
        let mut i: usize = 0;
        while i < evs.len()
            invariant
                i <= evs.len(),
                r@ == evs@.subrange(0, i as int),
            decreases evs.len() - i,
        {
            r.push(evs[i]);
            proof {
                assert(evs@.subrange(0, i + 1) =~= evs@.subrange(0, i as int).push(
                    evs@[i as int],
                ));
            }
            i = i + 1;
        }
        proof {
            assert(evs@.subrange(0, evs@.len() as int) =~= evs@);
        }
        r
    }
}

} // verus!
