//! Sorted sets of integer ids, the crate's deterministic stand-in for a
//! hash set: walks and encodings never depend on a hasher's seed.
use vstd::prelude::*;

verus! {

/// A set of non-negative integer ids — server ids, generator ids — kept
/// strictly sorted, so that every walk over it is deterministic and its
/// textual encoding is canonical.
#[derive(Debug, PartialEq, Eq)]
pub struct IdSet {
    ids: Vec<u64>,
}

impl View for IdSet {
    type V = Seq<u64>;

    closed spec fn view(&self) -> Seq<u64> {
        self.ids@
    }
}

impl IdSet {
    /// The ids are strictly increasing, hence unique.
    pub open spec fn wf(self) -> bool {
        forall|i: int, j: int| 0 <= i < j < self@.len() ==> self@[i] < self@[j]
    }

    /// The mathematical set of ids held.
    pub open spec fn as_set(self) -> Set<u64> {
        self@.to_set()
    }

    pub fn new() -> (s: Self)
        ensures
            s@ == Seq::<u64>::empty(),
            s.wf(),
    {
        IdSet { ids: Vec::new() }
    }

    pub fn len(&self) -> (n: usize)
        ensures
            n == self@.len(),
    {
        self.ids.len()
    }

    pub fn index(&self, i: usize) -> (id: u64)
        requires
            i < self@.len(),
        ensures
            id == self@[i as int],
    {
        self.ids[i]
    }

    pub fn contains(&self, id: u64) -> (present: bool)
        requires
            self.wf(),
        ensures
            present == self@.contains(id),
    {
        let mut i: usize = 0;
        while i < self.ids.len()
            invariant
                i <= self.ids.len(),
                forall|j: int| 0 <= j < i ==> self@[j] != id,
            decreases self.ids.len() - i,
        {
            if self.ids[i] == id {
                return true;
            }
            i += 1;
        }
        false
    }

    /// Check well-formedness: the ids must be strictly increasing.
    pub fn check_wf(&self) -> (r: bool)
        ensures
            r == self.wf(),
    {
        let mut i: usize = 1;
        while i < self.ids.len()
            invariant
                1 <= i || self.ids.len() == 0,
                i <= self.ids.len() || i == 1,
                forall|a: int, b: int| 0 <= a < b < i ==> self@[a] < self@[b],
            decreases self.ids.len() - i,
        {
            if self.ids[i - 1] >= self.ids[i] {
                proof {
                    assert(!self.wf()) by {
                        if self.wf() {
                            assert(self@[i - 1] < self@[i as int]);
                        }
                    }
                }
                return false;
            }
            proof {
                assert forall|a: int, b: int| 0 <= a < b < i + 1 implies self@[a] < self@[b] by {
                    if b == i && a < i - 1 {
                        assert(self@[a] < self@[i - 1]);
                    }
                }
            }
            i += 1;
        }
        true
    }

    /// Insert `id`, keeping the ids strictly sorted; a present id is kept once.
    pub fn insert(&mut self, id: u64)
        requires
            old(self).wf(),
        ensures
            final(self).wf(),
            final(self).as_set() == old(self).as_set().insert(id),
    {
        let ghost pre = self@;
        let mut i: usize = 0;
        while i < self.ids.len() && self.ids[i] < id
            invariant
                i <= self@.len(),
                self@ == pre,
                forall|j: int| 0 <= j < i ==> self@[j] < id,
            decreases self.ids.len() - i,
        {
            i += 1;
        }
        if i < self.ids.len() && self.ids[i] == id {
            proof {
                assert(self.as_set() =~= old(self).as_set().insert(id));
            }
            return;
        }
        self.ids.insert(i, id);
        proof {
            let post = self@;
            assert forall|a: int, b: int| 0 <= a < b < post.len() implies post[a] < post[b] by {
                if a < i {
                    assert(post[a] == pre[a]);
                    assert(pre[a] < id);
                }
                if a == i {
                    assert(post[a] == id);
                }
                if a > i {
                    assert(post[a] == pre[a - 1]);
                }
                if b > i {
                    assert(post[b] == pre[b - 1]);
                    if i < pre.len() && b - 1 > i {
                        assert(pre[i as int] < pre[b - 1]);
                    }
                }
                if b == i {
                    assert(post[b] == id);
                }
            }
            assert(self.wf());
            assert(self@.to_set() =~= pre.to_set().insert(id)) by {
                assert forall|x: u64| self@.to_set().contains(x) implies pre.to_set().insert(
                    id,
                ).contains(x) by {
                    let j = choose|j: int| 0 <= j < self@.len() && self@[j] == x;
                    if j < i {
                        assert(pre[j] == x);
                    } else if j > i {
                        assert(pre[j - 1] == x);
                    }
                }
                assert forall|x: u64| pre.to_set().insert(id).contains(x) implies
                    self@.to_set().contains(x) by {
                    if x == id {
                        assert(self@[i as int] == x);
                    } else {
                        let j = choose|j: int| 0 <= j < pre.len() && pre[j] == x;
                        if j < i {
                            assert(self@[j] == x);
                        } else {
                            assert(self@[j + 1] == x);
                        }
                    }
                }
            }
        }
    }
}


impl IdSet {
    /// Remove `id` if present.
    pub fn remove(&mut self, id: u64)
        requires
            old(self).wf(),
        ensures
            final(self).wf(),
            final(self).as_set() == old(self).as_set().remove(id),
    {
        let ghost pre = self@;
        let mut i: usize = 0;
        while i < self.ids.len() && self.ids[i] < id
            invariant
                i <= self@.len(),
                self@ == pre,
                forall|j: int| 0 <= j < i ==> self@[j] < id,
            decreases self.ids.len() - i,
        {
            i += 1;
        }
        if i < self.ids.len() && self.ids[i] == id {
            self.ids.remove(i);
            proof {
                let post = self@;
                assert forall|a: int, b: int| 0 <= a < b < post.len() implies post[a]
                    < post[b] by {
                    if a < i {
                        assert(post[a] == pre[a]);
                    } else {
                        assert(post[a] == pre[a + 1]);
                    }
                    if b < i {
                        assert(post[b] == pre[b]);
                    } else {
                        assert(post[b] == pre[b + 1]);
                    }
                }
                assert(self.wf());
                assert(post.to_set() =~= pre.to_set().remove(id)) by {
                    assert forall|x: u64| post.to_set().contains(x) implies pre.to_set().remove(
                        id,
                    ).contains(x) by {
                        let j = choose|j: int| 0 <= j < post.len() && post[j] == x;
                        if j < i {
                            assert(pre[j] == x);
                            assert(pre[j] < id);
                        } else {
                            assert(pre[j + 1] == x);
                            assert(pre[i as int] < pre[j + 1]);
                        }
                    }
                    assert forall|x: u64| pre.to_set().remove(id).contains(x) implies
                        post.to_set().contains(x) by {
                        let j = choose|j: int| 0 <= j < pre.len() && pre[j] == x;
                        if j < i {
                            assert(post[j] == x);
                        } else {
                            assert(j != i);
                            assert(post[j - 1] == x);
                        }
                    }
                }
            }
        } else {
            proof {
                assert(!pre.to_set().contains(id)) by {
                    if pre.to_set().contains(id) {
                        let j = choose|j: int| 0 <= j < pre.len() && pre[j] == id;
                        if j < i {
                            assert(pre[j] < id);
                        } else if j > i && i < pre.len() {
                            assert(pre[i as int] < pre[j]);
                        }
                    }
                }
                assert(self.as_set() =~= old(self).as_set().remove(id));
            }
        }
    }
}

impl Clone for IdSet {
    /// A clone has the same ids.
    fn clone(&self) -> (r: Self)
        ensures
            r@ == self@,
    {
        let mut ids: Vec<u64> = Vec::new();
        let mut i: usize = 0;
        while i < self.ids.len()
            invariant
                i <= self.ids.len(),
                ids@.len() == i,
                forall|j: int| 0 <= j < i ==> ids@[j] == self.ids@[j],
            decreases self.ids.len() - i,
        {
            ids.push(self.ids[i]);
            i += 1;
        }
        let r = IdSet { ids };
        proof {
            assert(r@ =~= self@);
        }
        r
    }
}

} // verus!
