//! The persistent, versioned key-value store behind the working set.
//!
//! Each top-level commit appends the slot's buffered writes to the
//! committed entry log and folds them into a running root, so that a
//! given history of commits always yields the same root.  Nothing a
//! working set buffers is visible here until that commit.

use vstd::prelude::*;

use crate::address::Address;
use crate::address::spec_fold_words;
use crate::address::fold_words;
use crate::state::StorageKey;
use crate::state::Value;
use crate::state::WorkingSet;
use crate::state::WriteEntry;
use crate::state::log_find;
use crate::state::lemma_log_find_append;

verus! {

/// The words a storage key contributes to the root.
pub open spec fn spec_key_words(k: StorageKey) -> Seq<u64> {
    k.module.spec_words() + seq![k.field] + k.k1.spec_words() + k.k2.spec_words()
}

/// The words a buffered write's value contributes to the root: a tag
/// word, then the payload.
pub open spec fn spec_value_words(w: Option<Value>) -> Seq<u64> {
    match w {
        Option::None => seq![0u64],
        Option::Some(v) => match v {
            Value::U64(x) => seq![1u64, x],
            Value::U32(x) => seq![2u64, x as u64],
            Value::Flag(b) => seq![
                3u64,
                if b {
                    1u64
                } else {
                    0u64
                },
            ],
            Value::Addr(a) => seq![4u64] + a.spec_words(),
            Value::Account(ar) => seq![5u64] + ar.addr.spec_words() + seq![ar.nonce],
            Value::Token(t) => seq![6u64, t.total_supply],
            Value::CoinsVal(c) => seq![7u64] + c.token_address.spec_words() + seq![c.amount],
            Value::PoolVal(p) => seq![8u64] + p.token_a.spec_words() + seq![p.token_a_liquidity]
                + p.token_b.spec_words() + seq![p.token_b_liquidity]
                + p.liquidity_token.spec_words(),
            Value::Candidate(c) => seq![9u64, c.name.w0, c.name.w1, c.name.w2, c.name.w3, c.count],
            Value::Name(n) => seq![10u64, n.w0, n.w1, n.w2, n.w3],
        },
    }
}

/// The words one buffered write contributes to the root.
pub open spec fn spec_entry_words(e: WriteEntry) -> Seq<u64> {
    spec_key_words(e.0) + spec_value_words(e.1)
}

/// The root after folding a log of writes into `root`, entry by entry,
/// in log order.  Byte-identical histories give identical roots.
pub open spec fn spec_root_step(root: u64, log: Seq<WriteEntry>) -> u64
    decreases log.len(),
{
    if log.len() == 0 {
        root
    } else {
        spec_fold_words(spec_root_step(root, log.drop_last()), spec_entry_words(log.last()))
    }
}

/// Pushes an address's words.
fn push_address_words(out: &mut Vec<u64>, a: &Address)
    ensures
        final(out)@ == old(out)@ + a.spec_words(),
{
    out.push(a.w0);
    out.push(a.w1);
    out.push(a.w2);
    out.push(a.w3);
    proof {
        assert(out@ =~= old(out)@ + a.spec_words());
    }
}

/// The words of one buffered write, equal to [`spec_entry_words`].
fn entry_words(e: &WriteEntry) -> (r: Vec<u64>)
    ensures
        r@ == spec_entry_words(*e),
{
    let mut out: Vec<u64> = Vec::new();
    push_address_words(&mut out, &e.0.module);
    out.push(e.0.field);
    push_address_words(&mut out, &e.0.k1);
    push_address_words(&mut out, &e.0.k2);
    proof {
        assert(out@ =~= spec_key_words(e.0));
    }
    match &e.1 {
        Option::None => {
            out.push(0);
        },
        Option::Some(v) => {
            match v {
                Value::U64(x) => {
                    out.push(1);
                    out.push(*x);
                },
                Value::U32(x) => {
                    out.push(2);
                    out.push(*x as u64);
                },
                Value::Flag(b) => {
                    out.push(3);
                    out.push(if *b {
                        1
                    } else {
                        0
                    });
                },
                Value::Addr(a) => {
                    out.push(4);
                    push_address_words(&mut out, a);
                },
                Value::Account(ar) => {
                    out.push(5);
                    push_address_words(&mut out, &ar.addr);
                    out.push(ar.nonce);
                },
                Value::Token(t) => {
                    out.push(6);
                    out.push(t.total_supply);
                },
                Value::CoinsVal(c) => {
                    out.push(7);
                    push_address_words(&mut out, &c.token_address);
                    out.push(c.amount);
                },
                Value::PoolVal(p) => {
                    out.push(8);
                    push_address_words(&mut out, &p.token_a);
                    out.push(p.token_a_liquidity);
                    push_address_words(&mut out, &p.token_b);
                    out.push(p.token_b_liquidity);
                    push_address_words(&mut out, &p.liquidity_token);
                },
                Value::Candidate(c) => {
                    out.push(9);
                    out.push(c.name.w0);
                    out.push(c.name.w1);
                    out.push(c.name.w2);
                    out.push(c.name.w3);
                    out.push(c.count);
                },
                Value::Name(n) => {
                    out.push(10);
                    out.push(n.w0);
                    out.push(n.w1);
                    out.push(n.w2);
                    out.push(n.w3);
                },
            }
        },
    }
    proof {
        assert(out@ =~= spec_entry_words(*e));
    }
    out
}

/// The content-addressed, versioned store: the committed entry log, the
/// root it determines, and the count of commits made so far.
pub struct Storage {
    /// The committed write log; later entries win on a read.
    pub entries: Vec<WriteEntry>,
    /// The deterministic root over the commit history.
    pub root: u64,
    /// The number of top-level commits performed (the current version).
    pub version: u64,
}

impl Storage {
    /// The value the latest committed version shows for `k`.
    pub open spec fn store_val(self, k: StorageKey) -> Option<Value> {
        match log_find(self.entries@, k) {
            Option::Some(w) => w,
            Option::None => None,
        }
    }

    /// An empty store at version zero.
    pub fn new() -> (r: Storage)
        ensures
            r.entries@ == Seq::<WriteEntry>::empty(),
            r.root == crate::address::HASH_BASIS,
            r.version == 0,
            forall|k: StorageKey| r.store_val(k) == None::<Value>,
    {
        let r = Storage { entries: Vec::new(), root: crate::address::HASH_BASIS, version: 0 };
        proof {
            assert(r.entries@ =~= Seq::<WriteEntry>::empty());
            assert forall|k: StorageKey| r.store_val(k) == None::<Value> by {
                assert(log_find(r.entries@, k) == None::<Option<Value>>);
            }
        }
        r
    }

    /// A copy of the committed entries, the snapshot a fresh working set
    /// is opened over.  Uncommitted state is never visible through it.
    pub fn snapshot(&self) -> (r: Vec<WriteEntry>)
        ensures
            r@ == self.entries@,
    {
        let mut r: Vec<WriteEntry> = Vec::new();
        let mut i: usize = 0;
        while i < self.entries.len()
            invariant
                i <= self.entries.len(),
                r@ == self.entries@.subrange(0, i as int),
            decreases self.entries.len() - i,
        {
            r.push(self.entries[i]);
            proof {
                assert(self.entries@.subrange(0, i + 1) =~= self.entries@.subrange(
                    0,
                    i as int,
                ).push(self.entries@[i as int]));
            }
            i = i + 1;
        }
        proof {
            assert(self.entries@.subrange(0, self.entries@.len() as int) =~= self.entries@);
        }
        r
    }

    /// The single top-level commit for a slot: flushes the outermost
    /// scope's buffered writes, producing a new version whose root is a
    /// deterministic function of the previous root and those writes.
    /// Every value the working set showed is what the store now shows.
    pub fn commit(&mut self, ws: &WorkingSet) -> (r: u64)
        requires
            old(self).version < 0xffff_ffff_ffff_ffff,
            ws.wf(),
            ws.depth() == 1,
            ws.base@ == old(self).entries@,
        ensures
            final(self).entries@ == old(self).entries@ + ws.top().writes@,
            final(self).root == spec_root_step(old(self).root, ws.top().writes@),
            final(self).version == old(self).version + 1,
            forall|k: StorageKey| final(self).store_val(k) == ws.val(k),
            r == final(self).root,
    {
        let ghost pre = *self;
        let last = ws.scopes.len() - 1;
        let writes = &ws.scopes[last].writes;
        let mut i: usize = 0;
        while i < writes.len()
            invariant
                i <= writes.len(),
                writes == &ws.scopes@.last().writes,
                self.entries@ == pre.entries@ + writes@.subrange(0, i as int),
                self.root == spec_root_step(pre.root, writes@.subrange(0, i as int)),
                self.version == pre.version,
            decreases writes.len() - i,
        {
            let words = entry_words(&writes[i]);
            self.entries.push(writes[i]);
            self.root = fold_words(self.root, words.as_slice());
            proof {
                assert(writes@.subrange(0, i + 1).drop_last() =~= writes@.subrange(0, i as int));
                assert(writes@.subrange(0, i + 1).last() == writes@[i as int]);
                assert(pre.entries@ + writes@.subrange(0, i + 1) =~= (pre.entries@
                    + writes@.subrange(0, i as int)).push(writes@[i as int]));
            }
            i = i + 1;
        }
        self.version = self.version + 1;
        proof {
            assert(writes@.subrange(0, writes@.len() as int) =~= writes@);
            let post = *self;
            assert(ws.scopes@.last() == ws.scopes@[0]);
            assert forall|k: StorageKey| post.store_val(k) == ws.val(k) by {
                lemma_log_find_append(pre.entries@, ws.top().writes@, k);
                assert(ws.val_upto(0, k) == ws.base_val(k));
                assert(ws.val(k) == ws.val_upto(1, k));
                assert(ws.val_upto(1, k) == match log_find(ws.scopes@[0].writes@, k) {
                    Option::Some(w) => w,
                    Option::None => ws.base_val(k),
                });
            }
        }
        self.root
    }
}

} // verus!
