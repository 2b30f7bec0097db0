//! Channel binding manager.
//!
//! A binding maps a peer address to a channel number in
//! `[CHANNEL_MIN, CHANNEL_MAX]`.  Addresses and numbers are both unique
//! across live bindings; `create` hands out the lowest free number and
//! fails only when every number is taken.  State transitions themselves
//! are driven by the relay connection; the manager only guards the
//! uniqueness invariants.

use vstd::prelude::*;

use crate::addr::PeerAddr;
use crate::chandata::{CHANNEL_MAX, CHANNEL_MIN};

verus! {

/// The lifecycle state of one channel binding.
#[derive(Clone, Copy, Debug, PartialEq, Eq, Structural)]
pub enum BindingState {
    /// Created on first use; no ChannelBind issued yet.
    Idle,
    /// The initial ChannelBind is in flight.
    Request,
    /// The channel is bound; ChannelData may be used.
    Ready,
    /// A periodic re-bind is in flight; ChannelData still flows.
    Refresh,
    /// The server answered the ChannelBind with an unexpected response.
    Failed,
}

/// One channel binding.
#[derive(Clone, Copy, Debug, PartialEq, Eq, Structural)]
pub struct Binding {
    pub number: u16,
    pub addr: PeerAddr,
    pub state: BindingState,
    pub refreshed_at: u64,
}

/// The first binding for `addr`, if any.
pub open spec fn spec_find_binding(s: Seq<Binding>, addr: PeerAddr) -> Option<Binding>
    decreases s.len(),
{
    if s.len() == 0 {
        None
    } else if s[0].addr == addr {
        Some(s[0])
    } else {
        spec_find_binding(s.drop_first(), addr)
    }
}

/// The first binding with channel number `num`, if any.
pub open spec fn spec_find_by_number(s: Seq<Binding>, num: u16) -> Option<Binding>
    decreases s.len(),
{
    if s.len() == 0 {
        None
    } else if s[0].number == num {
        Some(s[0])
    } else {
        spec_find_by_number(s.drop_first(), num)
    }
}

/// Whether some live binding already uses channel number `num`.
pub open spec fn number_used(s: Seq<Binding>, num: u16) -> bool {
    exists|i: int| 0 <= i < s.len() && (#[trigger] s[i]).number == num
}

/// An address lookup misses exactly when no binding has the address.
pub proof fn lemma_find_binding_absent(s: Seq<Binding>, addr: PeerAddr)
    ensures
        spec_find_binding(s, addr) is None <==> (forall|k: int|
            0 <= k < s.len() ==> (#[trigger] s[k]).addr != addr),
    decreases s.len(),
{
    if s.len() > 0 {
        lemma_find_binding_absent(s.drop_first(), addr);
        assert(forall|k: int|
            0 <= k < s.drop_first().len() ==> #[trigger] s.drop_first()[k] == s[k + 1]);
        if s[0].addr != addr && spec_find_binding(s.drop_first(), addr) is None {
            assert forall|k: int| 0 <= k < s.len() implies (#[trigger] s[k]).addr != addr by {
                if k > 0 {
                    assert(s.drop_first()[k - 1] == s[k]);
                }
            }
        }
        if forall|k: int| 0 <= k < s.len() ==> (#[trigger] s[k]).addr != addr {
            assert(s[0].addr != addr);
            assert forall|k: int|
                0 <= k < s.drop_first().len() implies (#[trigger] s.drop_first()[k]).addr
                    != addr by {
                assert(s[k + 1].addr != addr);
            }
        }
    }
}

/// An address lookup returns the entry at the first index holding it.
pub proof fn lemma_find_binding_at(s: Seq<Binding>, addr: PeerAddr, i: int)
    requires
        0 <= i < s.len(),
        s[i].addr == addr,
        forall|j: int| 0 <= j < i ==> (#[trigger] s[j]).addr != addr,
    ensures
        spec_find_binding(s, addr) == Some(s[i]),
    decreases i,
{
    if i > 0 {
        lemma_find_binding_at(s.drop_first(), addr, i - 1);
    }
}

/// A number lookup returns the entry at the first index holding it.
pub proof fn lemma_find_by_number_at(s: Seq<Binding>, num: u16, i: int)
    requires
        0 <= i < s.len(),
        s[i].number == num,
        forall|j: int| 0 <= j < i ==> (#[trigger] s[j]).number != num,
    ensures
        spec_find_by_number(s, num) == Some(s[i]),
    decreases i,
{
    if i > 0 {
        lemma_find_by_number_at(s.drop_first(), num, i - 1);
    }
}

/// A number lookup misses exactly when no binding has the number.
pub proof fn lemma_find_by_number_absent(s: Seq<Binding>, num: u16)
    ensures
        spec_find_by_number(s, num) is None <==> (forall|k: int|
            0 <= k < s.len() ==> (#[trigger] s[k]).number != num),
    decreases s.len(),
{
    if s.len() > 0 {
        lemma_find_by_number_absent(s.drop_first(), num);
        assert(forall|k: int|
            0 <= k < s.drop_first().len() ==> #[trigger] s.drop_first()[k] == s[k + 1]);
        if s[0].number != num && spec_find_by_number(s.drop_first(), num) is None {
            assert forall|k: int| 0 <= k < s.len() implies (#[trigger] s[k]).number != num by {
                if k > 0 {
                    assert(s.drop_first()[k - 1] == s[k]);
                }
            }
        }
        if forall|k: int| 0 <= k < s.len() ==> (#[trigger] s[k]).number != num {
            assert(s[0].number != num);
            assert forall|k: int|
                0 <= k < s.drop_first().len() implies (#[trigger] s.drop_first()[k]).number
                    != num by {
                assert(s[k + 1].number != num);
            }
        }
    }
}

/// How an address lookup sees one appended binding.
pub proof fn lemma_find_binding_push(s: Seq<Binding>, e: Binding, addr: PeerAddr)
    ensures
        spec_find_binding(s.push(e), addr) == if spec_find_binding(s, addr) is Some {
            spec_find_binding(s, addr)
        } else if e.addr == addr {
            Some(e)
        } else {
            None
        },
    decreases s.len(),
{
    if s.len() == 0 {
        assert(s.push(e)[0] == e);
        assert(s.push(e).drop_first() =~= Seq::<Binding>::empty());
        assert(spec_find_binding(Seq::<Binding>::empty(), addr) is None);
        assert(spec_find_binding(s, addr) is None);
    } else {
        lemma_find_binding_push(s.drop_first(), e, addr);
        assert(s.push(e).drop_first() =~= s.drop_first().push(e));
        assert(s.push(e)[0] == s[0]);
    }
}

/// Removing a binding with another address leaves a lookup unchanged.
pub proof fn lemma_find_binding_remove(s: Seq<Binding>, idx: int, addr: PeerAddr)
    requires
        0 <= idx < s.len(),
        s[idx].addr != addr,
    ensures
        spec_find_binding(s.remove(idx), addr) == spec_find_binding(s, addr),
    decreases idx,
{
    if idx == 0 {
        assert(s.remove(0) =~= s.drop_first());
    } else {
        lemma_find_binding_remove(s.drop_first(), idx - 1, addr);
        assert(s.remove(idx).drop_first() =~= s.drop_first().remove(idx - 1));
        assert(s.remove(idx)[0] == s[0]);
    }
}

/// Every live binding's channel number lies in the channel range, and no
/// two live bindings share a number: the well-formedness every
/// `BindingManager` operation preserves, stated on its own.
pub proof fn lemma_channel_numbers(m: &BindingManager, i: int, j: int)
    requires
        m.wf(),
        0 <= i < m.bindings@.len(),
        0 <= j < m.bindings@.len(),
        i != j,
    ensures
        CHANNEL_MIN <= m.bindings@[i].number <= CHANNEL_MAX,
        m.bindings@[i].number != m.bindings@[j].number,
        m.bindings@[i].addr != m.bindings@[j].addr,
{
}

/// The binding manager: the set of live bindings.
pub struct BindingManager {
    pub bindings: Vec<Binding>,
}

impl BindingManager {
    /// Channel numbers stay in range; addresses and numbers are unique.
    pub open spec fn wf(&self) -> bool {
        &&& forall|i: int|
            0 <= i < self.bindings@.len() ==> CHANNEL_MIN <= (
            #[trigger] self.bindings@[i]).number <= CHANNEL_MAX
        &&& forall|i: int, j: int|
            0 <= i < j < self.bindings@.len() ==> (#[trigger] self.bindings@[i]).addr != (
            #[trigger] self.bindings@[j]).addr
        &&& forall|i: int, j: int|
            0 <= i < j < self.bindings@.len() ==> (#[trigger] self.bindings@[i]).number != (
            #[trigger] self.bindings@[j]).number
    }

    /// The binding recorded for `addr`, if any.
    pub open spec fn find_addr_spec(&self, addr: PeerAddr) -> Option<Binding> {
        spec_find_binding(self.bindings@, addr)
    }

    /// The binding using channel `num`, if any.
    pub open spec fn find_number_spec(&self, num: u16) -> Option<Binding> {
        spec_find_by_number(self.bindings@, num)
    }

    /// An empty manager.
    pub fn new() -> (r: BindingManager)
        ensures
            r.wf(),
            r.bindings@.len() == 0,
            forall|a: PeerAddr| r.find_addr_spec(a) is None,
    {
        let r = BindingManager { bindings: Vec::new() };
        proof {
            assert forall|a: PeerAddr| r.find_addr_spec(a) is None by {
                assert(r.bindings@ =~= Seq::<Binding>::empty());
                assert(spec_find_binding(Seq::<Binding>::empty(), a) is None);
            }
        }
        r
    }

    /// How many bindings are live.
    pub fn size(&self) -> (r: usize)
        ensures
            r == self.bindings@.len(),
    {
        self.bindings.len()
    }

    /// The index of the binding for `addr`, if any.
    fn index_of_addr(&self, addr: PeerAddr) -> (r: Option<usize>)
        ensures
            r matches Some(i) ==> {
                &&& i < self.bindings@.len()
                &&& self.bindings@[i as int].addr == addr
                &&& forall|j: int| 0 <= j < i ==> (#[trigger] self.bindings@[j]).addr != addr
                &&& self.find_addr_spec(addr) == Some(self.bindings@[i as int])
            },
            r is None ==> self.find_addr_spec(addr) is None,
    {
        let n = self.bindings.len();
        for i in 0..n
            invariant
                n == self.bindings@.len(),
                forall|k: int| 0 <= k < i ==> (#[trigger] self.bindings@[k]).addr != addr,
        {
            if self.bindings[i].addr.ip == addr.ip && self.bindings[i].addr.port == addr.port {
                proof {
                    lemma_find_binding_at(self.bindings@, addr, i as int);
                }
                return Some(i);
            }
        }
        proof {
            lemma_find_binding_absent(self.bindings@, addr);
        }
        None
    }

    /// Looks up the binding for `addr`.
    pub fn find_by_addr(&self, addr: PeerAddr) -> (r: Option<Binding>)
        requires
            self.wf(),
        ensures
            r == self.find_addr_spec(addr),
            r matches Some(b) ==> CHANNEL_MIN <= b.number <= CHANNEL_MAX && b.addr == addr,
    {
        match self.index_of_addr(addr) {
            Option::Some(i) => Some(self.bindings[i]),
            Option::None => None,
        }
    }

    /// Looks up the binding using channel `num`.
    pub fn find_by_number(&self, num: u16) -> (r: Option<Binding>)
        requires
            self.wf(),
        ensures
            r == self.find_number_spec(num),
            r matches Some(b) ==> {
                &&& b.number == num
                &&& CHANNEL_MIN <= b.number <= CHANNEL_MAX
                &&& self.find_addr_spec(b.addr) == Some(b)
            },
    {
        let n = self.bindings.len();
        for i in 0..n
            invariant
                n == self.bindings@.len(),
                self.wf(),
                forall|k: int| 0 <= k < i ==> (#[trigger] self.bindings@[k]).number != num,
        {
            if self.bindings[i].number == num {
                proof {
                    lemma_find_by_number_at(self.bindings@, num, i as int);
                    lemma_find_binding_at(self.bindings@, self.bindings@[i as int].addr, i as int);
                }
                return Some(self.bindings[i]);
            }
        }
        proof {
            lemma_find_by_number_absent(self.bindings@, num);
        }
        None
    }

    /// Whether channel `num` is taken.
    fn contains_number(&self, num: u16) -> (r: bool)
        ensures
            r == number_used(self.bindings@, num),
    {
        let n = self.bindings.len();
        for i in 0..n
            invariant
                n == self.bindings@.len(),
                forall|k: int| 0 <= k < i ==> (#[trigger] self.bindings@[k]).number != num,
        {
            if self.bindings[i].number == num {
                return true;
            }
        }
        false
    }

    /// Creates an Idle binding for `addr` on the lowest free channel
    /// number, or returns None when every number is taken.
    pub fn create(&mut self, addr: PeerAddr, now_ms: u64) -> (r: Option<u16>)
        requires
            old(self).wf(),
            old(self).find_addr_spec(addr) is None,
        ensures
            final(self).wf(),
            r matches Some(num) ==> {
                &&& CHANNEL_MIN <= num <= CHANNEL_MAX
                &&& !number_used(old(self).bindings@, num)
                &&& forall|m: u16| CHANNEL_MIN <= m < num ==> number_used(old(self).bindings@, m)
                &&& final(self).find_addr_spec(addr) == Some(Binding {
                    number: num,
                    addr,
                    state: BindingState::Idle,
                    refreshed_at: now_ms,
                })
                &&& forall|k: PeerAddr|
                    k != addr ==> final(self).find_addr_spec(k) == old(self).find_addr_spec(k)
            },
            r is None ==> {
                &&& (forall|m: u16|
                    CHANNEL_MIN <= m <= CHANNEL_MAX ==> number_used(old(self).bindings@, m))
                &&& *final(self) == *old(self)
            },
    {
        let mut x: usize = CHANNEL_MIN as usize;
        while x <= CHANNEL_MAX as usize
            invariant
                CHANNEL_MIN as usize <= x <= CHANNEL_MAX as usize + 1,
                self == old(self),
                old(self).wf(),
                old(self).find_addr_spec(addr) is None,
                forall|m: u16|
                    CHANNEL_MIN <= m < x ==> number_used(old(self).bindings@, m),
            decreases CHANNEL_MAX as usize + 1 - x,
        {
            let num = x as u16;
            if !self.contains_number(num) {
                let b = Binding {
                    number: num,
                    addr,
                    state: BindingState::Idle,
                    refreshed_at: now_ms,
                };
                let ghost pre = self.bindings@;
                self.bindings.push(b);
                proof {
                    lemma_find_binding_absent(pre, addr);
                    assert(forall|a: int|
                        0 <= a < pre.len() ==> #[trigger] self.bindings@[a] == pre[a]);
                    assert(self.bindings@[pre.len() as int] == b);
                    lemma_find_binding_push(pre, b, addr);
                    assert forall|k: PeerAddr| k != addr implies #[trigger] spec_find_binding(
                        self.bindings@, k) == spec_find_binding(pre, k) by {
                        lemma_find_binding_push(pre, b, k);
                        assert(self.bindings@ =~= pre.push(b));
                    }
                    assert(spec_find_binding(self.bindings@, addr) == spec_find_binding(
                        pre.push(b), addr)) by {
                        assert(self.bindings@ =~= pre.push(b));
                    }
                }
                return Some(num);
            }
            x += 1;
        }
        None
    }

    /// Replaces the binding at `idx` with `nb`, which keeps its address
    /// and number.
    fn put(&mut self, idx: usize, nb: Binding)
        requires
            old(self).wf(),
            idx < old(self).bindings@.len(),
            nb.addr == old(self).bindings@[idx as int].addr,
            nb.number == old(self).bindings@[idx as int].number,
        ensures
            final(self).wf(),
            final(self).find_addr_spec(nb.addr) == Some(nb),
            forall|k: PeerAddr|
                k != nb.addr ==> final(self).find_addr_spec(k) == old(self).find_addr_spec(k),
    {
        let ghost s = self.bindings@;
        self.bindings.remove(idx);
        let ghost mid = self.bindings@;
        self.bindings.push(nb);
        proof {
            assert(forall|a: int| 0 <= a < idx ==> #[trigger] mid[a] == s[a]);
            assert(forall|a: int| idx <= a < mid.len() ==> #[trigger] mid[a] == s[a + 1]);
            assert(forall|a: int| 0 <= a < mid.len() ==> #[trigger] self.bindings@[a] == mid[a]);
            assert(self.bindings@[mid.len() as int] == nb);
            lemma_find_binding_absent(mid, nb.addr);
            lemma_find_binding_push(mid, nb, nb.addr);
            assert(spec_find_binding(self.bindings@, nb.addr) == spec_find_binding(mid.push(nb),
                nb.addr)) by {
                assert(self.bindings@ =~= mid.push(nb));
            }
            assert forall|k: PeerAddr| k != nb.addr implies #[trigger] spec_find_binding(
                self.bindings@, k) == spec_find_binding(s, k) by {
                lemma_find_binding_push(mid, nb, k);
                assert(self.bindings@ =~= mid.push(nb));
                lemma_find_binding_remove(s, idx as int, k);
                assert(mid =~= s.remove(idx as int));
            }
        }
    }

    /// Sets the state of the binding for `addr`, if it exists.
    pub fn set_state(&mut self, addr: PeerAddr, st: BindingState)
        requires
            old(self).wf(),
        ensures
            final(self).wf(),
            old(self).find_addr_spec(addr) is None ==> *final(self) == *old(self),
            old(self).find_addr_spec(addr) matches Some(b) ==> final(self).find_addr_spec(addr)
                == Some(Binding { number: b.number, addr: b.addr, state: st, refreshed_at: b.refreshed_at }),
            forall|k: PeerAddr|
                k != addr ==> final(self).find_addr_spec(k) == old(self).find_addr_spec(k),
    {
        match self.index_of_addr(addr) {
            Option::Some(idx) => {
                let b = self.bindings[idx];
                let nb = Binding {
                    number: b.number,
                    addr: b.addr,
                    state: st,
                    refreshed_at: b.refreshed_at,
                };
                self.put(idx, nb);
            },
            Option::None => {},
        }
    }

    /// Sets the refresh stamp of the binding for `addr`, if it exists.
    pub fn set_refreshed_at(&mut self, addr: PeerAddr, now_ms: u64)
        requires
            old(self).wf(),
        ensures
            final(self).wf(),
            old(self).find_addr_spec(addr) is None ==> *final(self) == *old(self),
            old(self).find_addr_spec(addr) matches Some(b) ==> final(self).find_addr_spec(addr)
                == Some(Binding { number: b.number, addr: b.addr, state: b.state, refreshed_at: now_ms }),
            forall|k: PeerAddr|
                k != addr ==> final(self).find_addr_spec(k) == old(self).find_addr_spec(k),
    {
        match self.index_of_addr(addr) {
            Option::Some(idx) => {
                let b = self.bindings[idx];
                let nb = Binding {
                    number: b.number,
                    addr: b.addr,
                    state: b.state,
                    refreshed_at: now_ms,
                };
                self.put(idx, nb);
            },
            Option::None => {},
        }
    }

    /// Removes the binding for `addr`, if any.
    pub fn delete_by_addr(&mut self, addr: PeerAddr) -> (r: bool)
        requires
            old(self).wf(),
        ensures
            final(self).wf(),
            final(self).find_addr_spec(addr) is None,
            r == (old(self).find_addr_spec(addr) is Some),
            forall|k: PeerAddr|
                k != addr ==> final(self).find_addr_spec(k) == old(self).find_addr_spec(k),
    {
        match self.index_of_addr(addr) {
            Option::Some(idx) => {
                let ghost s = self.bindings@;
                self.bindings.remove(idx);
                proof {
                    assert(forall|a: int|
                        0 <= a < idx ==> #[trigger] self.bindings@[a] == s[a]);
                    assert(forall|a: int|
                        idx <= a < self.bindings@.len() ==> #[trigger] self.bindings@[a] == s[a
                            + 1]);
                    lemma_find_binding_absent(self.bindings@, addr);
                    assert forall|k: PeerAddr| k != addr implies #[trigger] spec_find_binding(
                        self.bindings@, k) == spec_find_binding(s, k) by {
                        lemma_find_binding_remove(s, idx as int, k);
                        assert(self.bindings@ =~= s.remove(idx as int));
                    }
                }
                true
            },
            Option::None => {
                proof {
                    lemma_find_binding_absent(self.bindings@, addr);
                }
                false
            },
        }
    }
}

} // verus!
