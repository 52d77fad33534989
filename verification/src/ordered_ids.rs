//! Ordered sets of cell-local identities.
//!
//! Waiter and participant identities are allocated in increasing order, so
//! the smallest member of a set is its oldest. The set keeps its members in a
//! strictly increasing vector; its view is the mathematical set of members.

use vstd::prelude::*;

verus! {

/// Whether a sequence of identities is strictly increasing.
pub open spec fn strictly_increasing(s: Seq<u64>) -> bool {
    forall|i: int, j: int| 0 <= i < j < s.len() ==> s[i] < s[j]
}

/// A set of identities kept in increasing order.
#[derive(Debug)]
pub struct IdSet {
    ids: Vec<u64>,
}

impl View for IdSet {
    type V = Set<u64>;

    closed spec fn view(&self) -> Set<u64> {
        self.ids@.to_set()
    }
}

impl IdSet {
    /// The members are kept strictly increasing.
    pub closed spec fn wf(&self) -> bool {
        strictly_increasing(self.ids@)
    }

    /// Members in increasing order.
    pub closed spec fn ordered(&self) -> Seq<u64> {
        self.ids@
    }

    /// The ordered members list exactly the set's members, without repetition.
    pub proof fn lemma_ordered(&self)
        requires
            self.wf(),
        ensures
            self.ordered().to_set() == self@,
            strictly_increasing(self.ordered()),
            self.ordered().len() == self@.len(),
            self@.finite(),
    {
        self.ids@.unique_seq_to_set();
    }

    /// Creates an empty set.
    pub fn new() -> (set: Self)
        ensures
            set.wf(),
            set@ == Set::<u64>::empty(),
    {
        let set = IdSet { ids: Vec::new() };
        assert(set@ =~= Set::<u64>::empty());
        set
    }

    /// Creates a set of one member.
    pub fn singleton(id: u64) -> (set: Self)
        ensures
            set.wf(),
            set@ == Set::<u64>::empty().insert(id),
    {
        let mut ids = Vec::new();
        ids.push(id);
        let set = IdSet { ids };
        assert(set.ids@ =~= seq![id]);
        assert(set@ =~= Set::<u64>::empty().insert(id)) by {
            assert forall|x: u64| set@.contains(x) <==> x == id by {
                if set@.contains(x) {
                    assert(set.ids@.contains(x));
                }
                if x == id {
                    assert(set.ids@[0] == x);
                }
            }
        }
        set
    }

    /// Returns whether the set has no members.
    pub fn is_empty(&self) -> (empty: bool)
        requires
            self.wf(),
        ensures
            empty == (self@ == Set::<u64>::empty()),
    {
        let empty = self.ids.len() == 0;
        proof {
            if empty {
                assert(self@ =~= Set::<u64>::empty());
            } else {
                assert(self@.contains(self.ids@[0]));
            }
        }
        empty
    }

    /// Returns the number of members.
    pub fn len(&self) -> (len: usize)
        requires
            self.wf(),
        ensures
            len == self@.len(),
    {
        proof {
            self.lemma_ordered();
        }
        self.ids.len()
    }

    /// Returns whether `id` is a member.
    pub fn contains(&self, id: u64) -> (found: bool)
        requires
            self.wf(),
        ensures
            found == self@.contains(id),
    {
        let mut i: usize = 0;
        while i < self.ids.len()
            invariant
                i <= self.ids@.len(),
                forall|k: int| 0 <= k < i ==> self.ids@[k] != id,
            decreases self.ids@.len() - i,
        {
            if self.ids[i] == id {
                assert(self.ids@.contains(id));
                return true;
            }
            i = i + 1;
        }
        false
    }

    /// Returns the smallest member, if any.
    pub fn first(&self) -> (first: Option<u64>)
        requires
            self.wf(),
        ensures
            match first {
                Some(id) => self@.contains(id) && forall|x: u64| self@.contains(x) ==> id <= x,
                None => self@ == Set::<u64>::empty(),
            },
    {
        if self.ids.len() == 0 {
            assert(self@ =~= Set::<u64>::empty());
            None
        } else {
            let id = self.ids[0];
            assert(self.ids@.contains(id));
            assert forall|x: u64| self@.contains(x) implies id <= x by {
                let k = choose|k: int| 0 <= k < self.ids@.len() && self.ids@[k] == x;
                assert(k == 0 || self.ids@[0] < self.ids@[k]);
            }
            Some(id)
        }
    }

    /// Adds `id` and reports whether it was absent.
    pub fn insert(&mut self, id: u64) -> (inserted: bool)
        requires
            old(self).wf(),
        ensures
            final(self).wf(),
            final(self)@ == old(self)@.insert(id),
            inserted == !old(self)@.contains(id),
    {
        let mut i: usize = 0;
        while i < self.ids.len() && self.ids[i] < id
            invariant
                i <= self.ids@.len(),
                self.ids@ == old(self).ids@,
                strictly_increasing(self.ids@),
                forall|k: int| 0 <= k < i ==> self.ids@[k] < id,
            decreases self.ids@.len() - i,
        {
            i = i + 1;
        }
        if i < self.ids.len() && self.ids[i] == id {
            assert(self.ids@.contains(id));
            assert(self@ =~= old(self)@.insert(id));
            return false;
        }
        let ghost before = self.ids@;
        self.ids.insert(i, id);
        proof {
            let after = self.ids@;
            assert(after =~= before.subrange(0, i as int).push(id) + before.subrange(i as int, before.len() as int));
            assert forall|a: int, b: int| 0 <= a < b < after.len() implies after[a] < after[b] by {
                if a < i && b > i {
                    assert(after[b] == before[b - 1]);
                    assert(before[b - 1] > id || b - 1 >= i) ;
                    if (b - 1) as int > i as int {
                        assert(before[i as int] < before[b - 1]);
                    }
                }
                if a == i && b > i {
                    assert(after[b] == before[b - 1]);
                    if (b - 1) as int > i as int {
                        assert(before[i as int] < before[b - 1]);
                    }
                }
                if a > i {
                    assert(after[a] == before[a - 1]);
                    assert(after[b] == before[b - 1]);
                }
            }
            assert forall|x: u64| self@.contains(x) <==> old(self)@.insert(id).contains(x) by {
                if self@.contains(x) {
                    let k = choose|k: int| 0 <= k < after.len() && after[k] == x;
                    if k < i {
                        assert(before[k] == x);
                    } else if k > i {
                        assert(before[k - 1] == x);
                    }
                }
                if old(self)@.contains(x) {
                    let k = choose|k: int| 0 <= k < before.len() && before[k] == x;
                    if k < i {
                        assert(after[k] == x);
                    } else {
                        assert(after[k + 1] == x);
                    }
                }
                if x == id {
                    assert(after[i as int] == x);
                }
            }
            assert(self@ =~= old(self)@.insert(id));
            if old(self)@.contains(id) {
                let k = choose|k: int| 0 <= k < before.len() && before[k] == id;
                if k < i {
                } else {
                    if i < before.len() {
                        assert(before[i as int] > id);
                        if k > i {
                            assert(before[i as int] < before[k]);
                        }
                    }
                }
            }
        }
        true
    }

    /// Removes `id` and reports whether it was present.
    pub fn remove(&mut self, id: u64) -> (removed: bool)
        requires
            old(self).wf(),
        ensures
            final(self).wf(),
            final(self)@ == old(self)@.remove(id),
            removed == old(self)@.contains(id),
    {
        let mut i: usize = 0;
        while i < self.ids.len()
            invariant
                i <= self.ids@.len(),
                self.ids@ == old(self).ids@,
                strictly_increasing(self.ids@),
                forall|k: int| 0 <= k < i ==> self.ids@[k] != id,
            decreases self.ids@.len() - i,
        {
            if self.ids[i] == id {
                let ghost before = self.ids@;
                self.ids.remove(i);
                proof {
                    let after = self.ids@;
                    assert(after =~= before.remove(i as int));
                    assert forall|a: int, b: int| 0 <= a < b < after.len() implies after[a] < after[b] by {
                        if a < i && b >= i {
                            assert(after[b] == before[b + 1]);
                        }
                        if a >= i {
                            assert(after[a] == before[a + 1]);
                            assert(after[b] == before[b + 1]);
                        }
                    }
                    assert forall|x: u64| self@.contains(x) <==> old(self)@.remove(id).contains(x) by {
                        if self@.contains(x) {
                            let k = choose|k: int| 0 <= k < after.len() && after[k] == x;
                            if k < i {
                                assert(before[k] == x);
                                assert(before[k] < before[i as int]);
                            } else {
                                assert(before[k + 1] == x);
                                assert(before[i as int] < before[k + 1]);
                            }
                        }
                        if old(self)@.contains(x) && x != id {
                            let k = choose|k: int| 0 <= k < before.len() && before[k] == x;
                            if k < i {
                                assert(after[k] == x);
                            } else {
                                assert(k != i);
                                assert(after[k - 1] == x);
                            }
                        }
                    }
                    assert(self@ =~= old(self)@.remove(id));
                }
                return true;
            }
            i = i + 1;
        }
        assert(!self.ids@.contains(id));
        assert(self@ =~= old(self)@.remove(id));
        false
    }

    /// Removes every member and returns them in increasing order.
    pub fn take_all(&mut self) -> (members: Vec<u64>)
        requires
            old(self).wf(),
        ensures
            final(self).wf(),
            final(self)@ == Set::<u64>::empty(),
            members@ == old(self).ordered(),
            members@.to_set() == old(self)@,
    {
        let mut taken = Vec::new();
        std::mem::swap(&mut taken, &mut self.ids);
        assert(self@ =~= Set::<u64>::empty());
        taken
    }
}

} // verus!
