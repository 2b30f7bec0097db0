//! Transaction engine bookkeeping.
//!
//! A STUN request is retransmitted on a doubling interval (base 500 ms,
//! capped) until an answer with the same transaction id arrives or the
//! transmissions run out.  This module keeps the per-transaction timing
//! state and the at-most-one-live-transaction-per-id invariant; the
//! runtime supplies the clock readings and performs the socket writes.

use vstd::prelude::*;

verus! {

/// The base retransmission interval, in milliseconds.
pub const RTO_MS: u64 = 500;

/// The cap on the doubling retransmission interval, in milliseconds.
pub const RTO_CAP_MS: u64 = 8000;

/// How many transmissions (the first send included) a request gets.
pub const MAX_TRANSMISSIONS: u16 = 7;

/// One in-flight request.
pub struct Transaction {
    /// The 96-bit transaction id.
    pub tid: Vec<u8>,
    /// The encoded request, retransmitted as-is.
    pub raw: Vec<u8>,
    /// Remaining retransmissions after the initial send.
    pub attempts_left: u16,
    /// The current retransmission interval.
    pub interval_ms: u64,
    /// When the next retransmission (or the timeout) is due.
    pub next_at_ms: u64,
}

/// What one clock tick means for one transaction.
#[derive(Clone, Copy, Debug, PartialEq, Eq, Structural)]
pub enum TickAction {
    /// Nothing is due yet.
    NotDue,
    /// Send `raw` again; the interval has doubled.
    Retransmit,
    /// The transaction gave up; retire it with `Timeout`.
    TimedOut,
}

impl Transaction {
    /// Starts tracking a request that was just sent for the first time.
    pub fn start(tid: Vec<u8>, raw: Vec<u8>, now_ms: u64) -> (r: Transaction)
        requires
            now_ms + RTO_MS <= u64::MAX,
        ensures
            r.tid == tid,
            r.raw == raw,
            r.attempts_left == MAX_TRANSMISSIONS - 1,
            r.interval_ms == RTO_MS,
            r.next_at_ms == now_ms + RTO_MS,
    {
        Transaction {
            tid,
            raw,
            attempts_left: MAX_TRANSMISSIONS - 1,
            interval_ms: RTO_MS,
            next_at_ms: now_ms + RTO_MS,
        }
    }

    /// Advances this transaction to `now_ms`: not due, due for one more
    /// retransmission on a doubled (capped) interval, or out of attempts.
    pub fn tick(&mut self, now_ms: u64) -> (r: TickAction)
        requires
            old(self).interval_ms <= RTO_CAP_MS,
            now_ms + 2 * RTO_CAP_MS <= u64::MAX,
        ensures
            final(self).tid == old(self).tid,
            final(self).raw == old(self).raw,
            final(self).interval_ms <= RTO_CAP_MS,
            now_ms < old(self).next_at_ms ==> r == TickAction::NotDue && *final(self)
                == *old(self),
            now_ms >= old(self).next_at_ms && old(self).attempts_left == 0 ==> r
                == TickAction::TimedOut && *final(self) == *old(self),
            now_ms >= old(self).next_at_ms && old(self).attempts_left > 0 ==> {
                &&& r == TickAction::Retransmit
                &&& final(self).attempts_left == old(self).attempts_left - 1
                &&& (2 * old(self).interval_ms <= RTO_CAP_MS ==> final(self).interval_ms == 2
                    * old(self).interval_ms)
                &&& (2 * old(self).interval_ms > RTO_CAP_MS ==> final(self).interval_ms
                    == RTO_CAP_MS)
                &&& final(self).next_at_ms == now_ms + final(self).interval_ms
            },
    {
        if now_ms < self.next_at_ms {
            return TickAction::NotDue;
        }
        if self.attempts_left == 0 {
            return TickAction::TimedOut;
        }
        self.attempts_left = self.attempts_left - 1;
        let doubled = 2 * self.interval_ms;
        self.interval_ms = if doubled <= RTO_CAP_MS {
            doubled
        } else {
            RTO_CAP_MS
        };
        self.next_at_ms = now_ms + self.interval_ms;
        TickAction::Retransmit
    }
}

/// The id of the first transaction with `tid`, if any.
pub open spec fn spec_find_tx(s: Seq<Transaction>, tid: Seq<u8>) -> Option<int>
    decreases s.len(),
{
    if s.len() == 0 {
        None
    } else if s[0].tid@ == tid {
        Some(0)
    } else {
        match spec_find_tx(s.drop_first(), tid) {
            Option::Some(i) => Some(i + 1),
            Option::None => None,
        }
    }
}

/// A lookup misses exactly when no transaction has the id.
pub proof fn lemma_find_tx_absent(s: Seq<Transaction>, tid: Seq<u8>)
    ensures
        spec_find_tx(s, tid) is None <==> (forall|k: int|
            0 <= k < s.len() ==> (#[trigger] s[k]).tid@ != tid),
    decreases s.len(),
{
    if s.len() > 0 {
        lemma_find_tx_absent(s.drop_first(), tid);
        assert(forall|k: int|
            0 <= k < s.drop_first().len() ==> #[trigger] s.drop_first()[k] == s[k + 1]);
        if s[0].tid@ != tid && spec_find_tx(s.drop_first(), tid) is None {
            assert forall|k: int| 0 <= k < s.len() implies (#[trigger] s[k]).tid@ != tid by {
                if k > 0 {
                    assert(s.drop_first()[k - 1] == s[k]);
                }
            }
        }
        if forall|k: int| 0 <= k < s.len() ==> (#[trigger] s[k]).tid@ != tid {
            assert(s[0].tid@ != tid);
            assert forall|k: int|
                0 <= k < s.drop_first().len() implies (#[trigger] s.drop_first()[k]).tid@
                    != tid by {
                assert(s[k + 1].tid@ != tid);
            }
        }
    }
}

/// A lookup returns the first index holding the id.
pub proof fn lemma_find_tx_at(s: Seq<Transaction>, tid: Seq<u8>, i: int)
    requires
        0 <= i < s.len(),
        s[i].tid@ == tid,
        forall|j: int| 0 <= j < i ==> (#[trigger] s[j]).tid@ != tid,
    ensures
        spec_find_tx(s, tid) == Some(i),
    decreases i,
{
    if i > 0 {
        lemma_find_tx_at(s.drop_first(), tid, i - 1);
    }
}

/// Removing a transaction with another id keeps every other lookup.
pub proof fn lemma_find_tx_remove(s: Seq<Transaction>, idx: int, k: Seq<u8>)
    requires
        0 <= idx < s.len(),
        s[idx].tid@ != k,
    ensures
        spec_find_tx(s.remove(idx), k) is Some <==> spec_find_tx(s, k) is Some,
    decreases idx,
{
    if idx == 0 {
        assert(s.remove(0) =~= s.drop_first());
    } else {
        lemma_find_tx_remove(s.drop_first(), idx - 1, k);
        assert(s.remove(idx).drop_first() =~= s.drop_first().remove(idx - 1));
        assert(s.remove(idx)[0] == s[0]);
    }
}

/// The live transactions, at most one per id.
pub struct TransactionMap {
    pub txs: Vec<Transaction>,
}

impl TransactionMap {
    /// Ids are unique across live transactions.
    pub open spec fn wf(&self) -> bool {
        forall|i: int, j: int|
            0 <= i < j < self.txs@.len() ==> (#[trigger] self.txs@[i]).tid@ != (
            #[trigger] self.txs@[j]).tid@
    }

    /// Whether a transaction with `tid` is live.
    pub open spec fn has_spec(&self, tid: Seq<u8>) -> bool {
        spec_find_tx(self.txs@, tid) is Some
    }

    /// An empty map.
    pub fn new() -> (r: TransactionMap)
        ensures
            r.wf(),
            r.txs@.len() == 0,
    {
        TransactionMap { txs: Vec::new() }
    }

    /// The index of the live transaction with `tid`, if any.
    fn index_of(&self, tid: &Vec<u8>) -> (r: Option<usize>)
        ensures
            r matches Some(i) ==> {
                &&& i < self.txs@.len()
                &&& self.txs@[i as int].tid@ == tid@
                &&& spec_find_tx(self.txs@, tid@) == Some(i as int)
            },
            r is None ==> spec_find_tx(self.txs@, tid@) is None,
    {
        let n = self.txs.len();
        for i in 0..n
            invariant
                n == self.txs@.len(),
                forall|k: int| 0 <= k < i ==> (#[trigger] self.txs@[k]).tid@ != tid@,
        {
            if crate::wire::bytes_eq(self.txs[i].tid.as_slice(), tid.as_slice()) {
                proof {
                    lemma_find_tx_at(self.txs@, tid@, i as int);
                }
                return Some(i);
            }
        }
        proof {
            lemma_find_tx_absent(self.txs@, tid@);
        }
        None
    }

    /// Registers a transaction.  Refuses a second live transaction with
    /// the same id.
    pub fn insert(&mut self, tx: Transaction) -> (r: bool)
        requires
            old(self).wf(),
        ensures
            final(self).wf(),
            !r ==> *final(self) == *old(self) && old(self).has_spec(tx.tid@),
            r ==> {
                &&& !old(self).has_spec(tx.tid@)
                &&& final(self).txs@ == old(self).txs@.push(tx)
                &&& final(self).has_spec(tx.tid@)
            },
    {
        match self.index_of(&tx.tid) {
            Option::Some(_) => false,
            Option::None => {
                proof {
                    lemma_find_tx_absent(self.txs@, tx.tid@);
                }
                let ghost pre = self.txs@;
                self.txs.push(tx);
                proof {
                    assert(forall|a: int|
                        0 <= a < pre.len() ==> #[trigger] self.txs@[a] == pre[a]);
                    lemma_find_tx_at(self.txs@, self.txs@[pre.len() as int].tid@,
                        pre.len() as int);
                }
                true
            },
        }
    }

    /// Retires and returns the transaction answering to `tid`, if any;
    /// used both to deliver a response and to drop one that timed out.
    pub fn remove(&mut self, tid: &Vec<u8>) -> (r: Option<Transaction>)
        requires
            old(self).wf(),
        ensures
            final(self).wf(),
            r is None ==> *final(self) == *old(self) && !old(self).has_spec(tid@),
            r matches Some(tx) ==> {
                &&& old(self).has_spec(tid@)
                &&& tx.tid@ == tid@
                &&& !final(self).has_spec(tid@)
                &&& final(self).txs@.len() == old(self).txs@.len() - 1
            },
            forall|k: Seq<u8>|
                k != tid@ ==> (final(self).has_spec(k) <==> old(self).has_spec(k)),
    {
        match self.index_of(tid) {
            Option::Some(idx) => {
                let ghost s = self.txs@;
                let tx = self.txs.remove(idx);
                proof {
                    assert(forall|a: int| 0 <= a < idx ==> #[trigger] self.txs@[a] == s[a]);
                    assert(forall|a: int|
                        idx <= a < self.txs@.len() ==> #[trigger] self.txs@[a] == s[a + 1]);
                    lemma_find_tx_absent(self.txs@, tid@);
                    assert forall|k: Seq<u8>| k != tid@ implies (spec_find_tx(self.txs@, k)
                        is Some <==> spec_find_tx(s, k) is Some) by {
                        lemma_find_tx_remove(s, idx as int, k);
                        assert(self.txs@ =~= s.remove(idx as int));
                    }
                }
                Some(tx)
            },
            Option::None => None,
        }
    }

    /// How many transactions are live.
    pub fn len(&self) -> (r: usize)
        ensures
            r == self.txs@.len(),
    {
        self.txs.len()
    }

    /// Aborts every live transaction at close, returning their ids so the
    /// runtime can fail their waiters with `AlreadyClosed`.
    pub fn abort_all(&mut self) -> (r: Vec<Vec<u8>>)
        ensures
            final(self).wf(),
            final(self).txs@.len() == 0,
            r@.len() == old(self).txs@.len(),
            forall|i: int| 0 <= i < r@.len() ==> (#[trigger] r@[i])@ == old(self).txs@[i].tid@,
    {
        let mut r: Vec<Vec<u8>> = Vec::new();
        let n = self.txs.len();
        for i in 0..n
            invariant
                n == self.txs@.len(),
                self.txs@ == old(self).txs@,
                r@.len() == i,
                forall|k: int| 0 <= k < i ==> (#[trigger] r@[k])@ == self.txs@[k].tid@,
        {
            r.push(crate::wire::bytes_of(self.txs[i].tid.as_slice()));
        }
        self.txs = Vec::new();
        r
    }
}

} // verus!
