//! Permission cache.
//!
//! A TURN permission installs for a peer's IP across all ports, so the
//! cache is keyed by IP alone.  Each entry is Idle while the first
//! CreatePermission for that IP is in flight and Permitted afterwards.
//! Keys are unique; lookups behave like a map.

use vstd::prelude::*;

verus! {

/// The state of one permission entry.
#[derive(Clone, Copy, Debug, PartialEq, Eq, Structural)]
pub enum PermState {
    /// Created on first use; the CreatePermission has not been issued yet.
    Idle,
    /// The CreatePermission request has been issued (optimistically).
    Permitted,
}

/// The first entry for `ip`, if any.
pub open spec fn spec_find_perm(s: Seq<(u32, PermState)>, ip: u32) -> Option<PermState>
    decreases s.len(),
{
    if s.len() == 0 {
        None
    } else if s[0].0 == ip {
        Some(s[0].1)
    } else {
        spec_find_perm(s.drop_first(), ip)
    }
}

/// A lookup misses exactly when no entry has the key.
pub proof fn lemma_find_perm_absent(s: Seq<(u32, PermState)>, ip: u32)
    ensures
        spec_find_perm(s, ip) is None <==> (forall|k: int|
            0 <= k < s.len() ==> (#[trigger] s[k]).0 != ip),
    decreases s.len(),
{
    if s.len() > 0 {
        lemma_find_perm_absent(s.drop_first(), ip);
        assert(forall|k: int|
            0 <= k < s.drop_first().len() ==> #[trigger] s.drop_first()[k] == s[k + 1]);
        if s[0].0 != ip && spec_find_perm(s.drop_first(), ip) is None {
            assert forall|k: int| 0 <= k < s.len() implies (#[trigger] s[k]).0 != ip by {
                if k > 0 {
                    assert(s.drop_first()[k - 1] == s[k]);
                }
            }
        }
        if forall|k: int| 0 <= k < s.len() ==> (#[trigger] s[k]).0 != ip {
            assert(s[0].0 != ip);
            assert forall|k: int|
                0 <= k < s.drop_first().len() implies (#[trigger] s.drop_first()[k]).0 != ip by {
                assert(s[k + 1].0 != ip);
            }
        }
    }
}

/// A lookup returns the entry at the first index holding the key.
pub proof fn lemma_find_perm_at(s: Seq<(u32, PermState)>, ip: u32, i: int)
    requires
        0 <= i < s.len(),
        s[i].0 == ip,
        forall|j: int| 0 <= j < i ==> (#[trigger] s[j]).0 != ip,
    ensures
        spec_find_perm(s, ip) == Some(s[i].1),
    decreases i,
{
    if i > 0 {
        lemma_find_perm_at(s.drop_first(), ip, i - 1);
    }
}

/// A hit names an entry that is really there.
pub proof fn lemma_find_perm_some_index(s: Seq<(u32, PermState)>, ip: u32)
    requires
        spec_find_perm(s, ip) is Some,
    ensures
        exists|a: int|
            0 <= a < s.len() && (#[trigger] s[a]).0 == ip && s[a].1 == spec_find_perm(
                s, ip)->Some_0,
    decreases s.len(),
{
    if s.len() > 0 && s[0].0 == ip {
        assert(0 <= 0 < s.len() && (s[0]).0 == ip && s[0].1 == spec_find_perm(s, ip)->Some_0);
    }
    if s.len() > 0 && s[0].0 != ip {
        lemma_find_perm_some_index(s.drop_first(), ip);
        let a = choose|a: int|
            0 <= a < s.drop_first().len() && (#[trigger] s.drop_first()[a]).0 == ip
                && s.drop_first()[a].1 == spec_find_perm(s.drop_first(), ip)->Some_0;
        assert(s[a + 1].0 == ip && s[a + 1].1 == spec_find_perm(s, ip)->Some_0);
    }
}

/// How a lookup sees one appended entry.
pub proof fn lemma_find_perm_push(s: Seq<(u32, PermState)>, e: (u32, PermState), ip: u32)
    ensures
        spec_find_perm(s.push(e), ip) == if spec_find_perm(s, ip) is Some {
            spec_find_perm(s, ip)
        } else if e.0 == ip {
            Some(e.1)
        } else {
            None
        },
    decreases s.len(),
{
    if s.len() == 0 {
        assert(s.push(e)[0] == e);
        assert(s.push(e).drop_first() =~= Seq::<(u32, PermState)>::empty());
        assert(spec_find_perm(Seq::<(u32, PermState)>::empty(), ip) is None);
        assert(spec_find_perm(s, ip) is None);
        assert(spec_find_perm(s.push(e), ip) == if e.0 == ip {
            Some(e.1)
        } else {
            None
        });
    } else {
        lemma_find_perm_push(s.drop_first(), e, ip);
        assert(s.push(e).drop_first() =~= s.drop_first().push(e));
        assert(s.push(e)[0] == s[0]);
    }
}

/// Removing an entry with another key leaves a lookup unchanged.
pub proof fn lemma_find_perm_remove(s: Seq<(u32, PermState)>, idx: int, k: u32)
    requires
        0 <= idx < s.len(),
        s[idx].0 != k,
    ensures
        spec_find_perm(s.remove(idx), k) == spec_find_perm(s, k),
    decreases idx,
{
    if idx == 0 {
        assert(s.remove(0) =~= s.drop_first());
    } else {
        lemma_find_perm_remove(s.drop_first(), idx - 1, k);
        assert(s.remove(idx).drop_first() =~= s.drop_first().remove(idx - 1));
        assert(s.remove(idx)[0] == s[0]);
    }
}

/// Permission cache: one entry per remote IP, whatever the port.
pub struct PermissionMap {
    pub entries: Vec<(u32, PermState)>,
}

impl PermissionMap {
    /// Keys are unique.
    pub open spec fn wf(&self) -> bool {
        forall|i: int, j: int|
            0 <= i < j < self.entries@.len() ==> (#[trigger] self.entries@[i]).0 != (
            #[trigger] self.entries@[j]).0
    }

    /// The state recorded for `ip`, if any.
    pub open spec fn find_spec(&self, ip: u32) -> Option<PermState> {
        spec_find_perm(self.entries@, ip)
    }

    /// An empty cache.
    pub fn new() -> (r: PermissionMap)
        ensures
            r.wf(),
            forall|ip: u32| r.find_spec(ip) is None,
    {
        let r = PermissionMap { entries: Vec::new() };
        proof {
            assert(forall|ip: u32| #[trigger] spec_find_perm(r.entries@, ip) is None) by {
                assert(forall|ip: u32| #[trigger] spec_find_perm(Seq::<(u32,
                    PermState)>::empty(), ip) is None);
                assert(r.entries@ =~= Seq::<(u32, PermState)>::empty());
            }
        }
        r
    }

    /// Looks up the permission state for `ip`.
    pub fn find(&self, ip: u32) -> (r: Option<PermState>)
        requires
            self.wf(),
        ensures
            r == self.find_spec(ip),
    {
        let n = self.entries.len();
        for i in 0..n
            invariant
                n == self.entries@.len(),
                forall|k: int| 0 <= k < i ==> (#[trigger] self.entries@[k]).0 != ip,
        {
            let e = self.entries[i];
            if e.0 == ip {
                proof {
                    lemma_find_perm_at(self.entries@, ip, i as int);
                }
                return Some(e.1);
            }
        }
        proof {
            lemma_find_perm_absent(self.entries@, ip);
        }
        None
    }

    /// Removes the entry for `ip`, if any; every other entry keeps its
    /// state.
    pub fn delete(&mut self, ip: u32)
        requires
            old(self).wf(),
        ensures
            final(self).wf(),
            final(self).find_spec(ip) is None,
            forall|k: u32| k != ip ==> final(self).find_spec(k) == old(self).find_spec(k),
            forall|a: int|
                0 <= a < final(self).entries@.len() ==> (#[trigger] final(self).entries@[a]).0
                    != ip,
    {
        match self.index_of(ip) {
            Option::Some(idx) => {
                let ghost s = self.entries@;
                self.entries.remove(idx);
                proof {
                    assert(forall|a: int|
                        0 <= a < idx ==> #[trigger] self.entries@[a] == s[a]);
                    assert(forall|a: int|
                        idx <= a < self.entries@.len() ==> #[trigger] self.entries@[a] == s[a
                            + 1]);
                    lemma_find_perm_absent(self.entries@, ip);
                    assert forall|k: u32| k != ip implies #[trigger] spec_find_perm(
                        self.entries@, k) == spec_find_perm(s, k) by {
                        lemma_find_perm_remove(s, idx as int, k);
                        assert(self.entries@ =~= s.remove(idx as int));
                    }
                }
            },
            Option::None => {
                proof {
                    lemma_find_perm_absent(self.entries@, ip);
                }
            },
        }
    }

    /// The index of the entry for `ip`, if any.
    fn index_of(&self, ip: u32) -> (r: Option<usize>)
        ensures
            r matches Some(i) ==> i < self.entries@.len() && self.entries@[i as int].0 == ip,
            r is None ==> forall|k: int| 0 <= k < self.entries@.len() ==> (
            #[trigger] self.entries@[k]).0 != ip,
    {
        let n = self.entries.len();
        for i in 0..n
            invariant
                n == self.entries@.len(),
                forall|k: int| 0 <= k < i ==> (#[trigger] self.entries@[k]).0 != ip,
        {
            if self.entries[i].0 == ip {
                return Some(i);
            }
        }
        None
    }

    /// Inserts or replaces the entry for `ip`; every other entry keeps its
    /// state.
    pub fn insert(&mut self, ip: u32, st: PermState)
        requires
            old(self).wf(),
        ensures
            final(self).wf(),
            final(self).find_spec(ip) == Some(st),
            forall|k: u32| k != ip ==> final(self).find_spec(k) == old(self).find_spec(k),
    {
        self.delete(ip);
        let ghost pre = self.entries@;
        self.entries.push((ip, st));
        proof {
            assert(forall|a: int| 0 <= a < pre.len() ==> #[trigger] self.entries@[a] == pre[a]);
            assert forall|k: u32| true implies #[trigger] spec_find_perm(self.entries@, k)
                == spec_find_perm(pre.push((ip, st)), k) by {
                assert(self.entries@ =~= pre.push((ip, st)));
            }
            lemma_find_perm_push(pre, (ip, st), ip);
            assert forall|k: u32| k != ip implies #[trigger] spec_find_perm(self.entries@, k)
                == spec_find_perm(pre, k) by {
                lemma_find_perm_push(pre, (ip, st), k);
            }
        }
    }

    /// Every IP whose permission is currently Permitted, each exactly
    /// once.
    pub fn permitted_ips(&self) -> (r: Vec<u32>)
        requires
            self.wf(),
        ensures
            forall|a: int|
                0 <= a < r@.len() ==> self.find_spec(#[trigger] r@[a]) == Some(
                    PermState::Permitted),
            forall|ip: u32|
                self.find_spec(ip) == Some(PermState::Permitted) ==> r@.contains(ip),
            forall|a: int, b: int| 0 <= a < b < r@.len() ==> r@[a] != r@[b],
    {
        let n = self.entries.len();
        let mut r: Vec<u32> = Vec::new();
        for i in 0..n
            invariant
                n == self.entries@.len(),
                self.wf(),
                forall|a: int|
                    0 <= a < r@.len() ==> self.find_spec(#[trigger] r@[a]) == Some(
                        PermState::Permitted),
                forall|j: int|
                    0 <= j < i && (#[trigger] self.entries@[j]).1 == PermState::Permitted
                        ==> r@.contains(self.entries@[j].0),
                forall|a: int, b: int| 0 <= a < b < r@.len() ==> r@[a] != r@[b],
                forall|a: int|
                    0 <= a < r@.len() ==> spec_find_perm(self.entries@.take(i as int),
                        #[trigger] r@[a]) is Some,
        {
            let e = self.entries[i];
            let ghost pre = r@;
            proof {
                assert(self.entries@.take(i + 1) =~= self.entries@.take(i as int).push(
                    self.entries@[i as int]));
            }
            if e.1 == PermState::Permitted {
                r.push(e.0);
                proof {
                    lemma_find_perm_at(self.entries@, e.0, i as int);
                    assert(forall|a: int| 0 <= a < pre.len() ==> #[trigger] r@[a] == pre[a]);
                    assert(r@[pre.len() as int] == e.0);
                    assert forall|j: int|
                        0 <= j < i + 1 && (#[trigger] self.entries@[j]).1
                            == PermState::Permitted implies r@.contains(self.entries@[j].0) by {
                        if j < i {
                            assert(pre.contains(self.entries@[j].0));
                            let a = choose|a: int|
                                0 <= a < pre.len() && pre[a] == self.entries@[j].0;
                            assert(r@[a] == self.entries@[j].0);
                        } else {
                            assert(r@[pre.len() as int] == self.entries@[j].0);
                        }
                    }
                    // the new IP is fresh: no earlier entry holds it, so no
                    // collected IP equals it
                    assert(forall|j: int|
                        0 <= j < i ==> (#[trigger] self.entries@.take(i as int)[j]).0 != e.0);
                    lemma_find_perm_absent(self.entries@.take(i as int), e.0);
                    assert forall|a: int| 0 <= a < r@.len() implies spec_find_perm(
                        self.entries@.take(i + 1), #[trigger] r@[a]) is Some by {
                        lemma_find_perm_push(self.entries@.take(i as int),
                            self.entries@[i as int], r@[a]);
                    }
                    assert forall|a: int, b: int|
                        0 <= a < b < r@.len() implies r@[a] != r@[b] by {
                        if b == r@.len() - 1 {
                            assert(spec_find_perm(self.entries@.take(i as int), pre[a]) is Some);
                        }
                    }
                }
            } else {
                proof {
                    assert forall|a: int| 0 <= a < r@.len() implies spec_find_perm(
                        self.entries@.take(i + 1), #[trigger] r@[a]) is Some by {
                        lemma_find_perm_push(self.entries@.take(i as int),
                            self.entries@[i as int], r@[a]);
                    }
                }
            }
        }
        proof {
            assert forall|ip: u32|
                self.find_spec(ip) == Some(PermState::Permitted) implies r@.contains(ip) by {
                lemma_find_perm_some_index(self.entries@, ip);
            }
        }
        r
    }
}

} // verus!
