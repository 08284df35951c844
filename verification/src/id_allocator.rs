//! An ID allocator allows to allocate IDs in a fixed range: allocation hands
//! out an unused id of the range, and freeing returns it to the pool.

use vstd::prelude::*;

verus! {

/// An ID allocator over a fixed range of 32-bit ids.
pub struct IDAllocator {
    /// The list of free IDs.
    free: Vec<u32>,
    /// The list of used IDs, sorted ascending.
    used: Vec<u32>,
}

/// The ids of `s`, as a set.
pub open spec fn id_set(s: Seq<u32>) -> Set<u32> {
    s.to_set()
}

/// The elements of `s` are sorted strictly ascending — in particular they
/// are pairwise distinct.
pub open spec fn sorted_distinct(s: Seq<u32>) -> bool {
    forall|i: int, j: int| 0 <= i < j < s.len() ==> s[i] < s[j]
}

impl IDAllocator {
    /// The ids currently allocated.
    pub closed spec fn spec_used(&self) -> Set<u32> {
        id_set(self.used@)
    }

    /// The ids available for allocation.
    pub closed spec fn spec_free(&self) -> Set<u32> {
        id_set(self.free@)
    }

    /// No id is both free and used, free ids are distinct, and the used list
    /// is sorted.
    pub closed spec fn wf(&self) -> bool {
        &&& self.spec_free().disjoint(self.spec_used())
        &&& sorted_distinct(self.used@)
        &&& forall|i: int, j: int| 0 <= i < j < self.free@.len() ==> self.free@[i] != self.free@[j]
    }

    /// Creates a new instance from the given half-open range: the ids from
    /// `lo` up to, and excluding, `hi` are free.
    pub fn from_range(lo: u32, hi: u32) -> (r: Self)
        ensures
            r.wf(),
            r.spec_used() == Set::<u32>::empty(),
            forall|id: u32| r.spec_free().contains(id) <==> lo <= id < hi,
    {
        let mut free: Vec<u32> = Vec::new();
        if lo >= hi {
            let r = IDAllocator { free, used: Vec::new() };
            proof {
                assert(r.used@.to_set() =~= Set::<u32>::empty());
                assert forall|id: u32| !r.spec_free().contains(id) by {
                    if r.spec_free().contains(id) {
                        let k = choose|k: int| 0 <= k < r.free@.len() && r.free@[k] == id;
                    }
                }
            }
            return r;
        }
        let mut next = lo;
        while next < hi
            invariant
                lo <= next <= hi,
                forall|i: int| 0 <= i < free@.len() ==> lo <= #[trigger] free@[i] < next,
                forall|id: u32| lo <= id < next ==> free@.contains(id),
                forall|i: int, j: int| 0 <= i < j < free@.len() ==> free@[i] != free@[j],
                forall|i: int, j: int| 0 <= i < j < free@.len() ==> free@[i] < free@[j],
            decreases hi - next,
        {
            let ghost f0 = free@;
            free.push(next);
            proof {
                assert(free@.last() == next);
                assert forall|id: u32| lo <= id < next + 1 implies free@.contains(id) by {
                    if id < next {
                        assert(f0.contains(id));
                        let k = choose|k: int| 0 <= k < f0.len() && f0[k] == id;
                        assert(f0[k] == id);
                        assert(free@[k] == id);
                    } else {
                        assert(free@[free@.len() - 1] == id);
                    }
                }
            }
            next = next + 1;
        }
        let r = IDAllocator { free, used: Vec::new() };
        proof {
            assert(r.used@.to_set() =~= Set::<u32>::empty());
            assert forall|id: u32| r.spec_free().contains(id) <==> lo <= id < hi by {
                if r.spec_free().contains(id) {
                    let k = choose|k: int| 0 <= k < r.free@.len() && r.free@[k] == id;
                }
                if lo <= id < hi {
                    assert(r.free@.contains(id));
                }
            }
        }
        r
    }

    /// Creates a new instance from the given inclusive range: the ids from
    /// `lo` up to, and including, `hi` are free.
    pub fn from_range_inclusive(lo: u32, hi: u32) -> (r: Self)
        requires
            hi < 0xFFFFFFFF,
        ensures
            r.wf(),
            r.spec_used() == Set::<u32>::empty(),
            forall|id: u32| r.spec_free().contains(id) <==> lo <= id <= hi,
    {
        Self::from_range(lo, hi + 1)
    }

    /// Allocates a new ID. If no ID is available, the function returns None.
    pub fn allocate(&mut self) -> (r: Option<u32>)
        requires
            old(self).wf(),
        ensures
            final(self).wf(),
            match r {
                Some(id) => {
                    &&& old(self).spec_free().contains(id)
                    &&& !old(self).spec_used().contains(id)
                    &&& final(self).spec_used() == old(self).spec_used().insert(id)
                    &&& final(self).spec_free() == old(self).spec_free().remove(id)
                },
                None => final(self).spec_free() == old(self).spec_free() && final(self).spec_used() == old(self).spec_used() && old(self).spec_free()
                    == Set::<u32>::empty(),
            },
    {
        let id = match self.free.pop() {
            Some(id) => id,
            None => {
                proof {
                    assert(self.free@.to_set() =~= Set::<u32>::empty());
                }
                return None;
            }
        };
        let ghost f0 = old(self).free@;
        proof {
            assert(f0.contains(f0.last()));
            assert(old(self).spec_free().contains(id));
            assert forall|x: u32| self.free@.to_set().contains(x) implies old(
                self,
            ).spec_free().remove(id).contains(x) by {
                let k = choose|k: int| 0 <= k < self.free@.len() && self.free@[k] == x;
                assert(f0[k] == x);
                if x == id {
                    assert(f0[k] == f0[f0.len() - 1]);
                    assert(false);
                }
            }
            assert forall|x: u32| old(self).spec_free().remove(id).contains(x) implies self.free@.to_set().contains(x) by {
                let k = choose|k: int| 0 <= k < f0.len() && f0[k] == x;
                assert(k < f0.len() - 1);
                assert(self.free@[k] == x);
            }
            assert(self.free@.to_set() =~= old(self).spec_free().remove(id));
        }
        self.insert_used(id);
        Some(id)
    }

    /// Inserts an id into the sorted used list.
    fn insert_used(&mut self, id: u32)
        requires
            sorted_distinct(old(self).used@),
            !old(self).spec_used().contains(id),
            old(self).spec_free().disjoint(old(self).spec_used()),
            !old(self).spec_free().contains(id),
            forall|i: int, j: int|
                0 <= i < j < old(self).free@.len() ==> old(self).free@[i] != old(self).free@[j],
        ensures
            final(self).wf(),
            final(self).spec_used() == old(self).spec_used().insert(id),
            final(self).spec_free() == old(self).spec_free(),
    {
        let mut i: usize = 0;
        while i < self.used.len() && self.used[i] < id
            invariant
                i <= self.used@.len(),
                *self == *old(self),
                forall|j: int| 0 <= j < i ==> self.used@[j] < id,
            decreases self.used@.len() - i,
        {
            i = i + 1;
        }
        let ghost u0 = self.used@;
        proof {
            if i < u0.len() {
                assert(u0[i as int] >= id);
                if u0[i as int] == id {
                    assert(u0.contains(u0[i as int]));
                    assert(false);
                }
            }
        }
        self.used.insert(i, id);
        proof {
            let u1 = self.used@;
            assert forall|a: int, b: int| 0 <= a < b < u1.len() implies u1[a] < u1[b] by {
                let ia = if a < i { a } else { a - 1 };
                let ib = if b < i { b } else { b - 1 };
                if a == i as int {
                    assert(u1[a] == id);
                    assert(u1[b] == u0[b - 1]);
                    assert(u0[b - 1] >= id);
                } else if b == i as int {
                    assert(u1[b] == id);
                    assert(u1[a] == u0[a]);
                } else {
                    assert(u1[a] == u0[ia]);
                    assert(u1[b] == u0[ib]);
                }
            }
            assert forall|x: u32| u1.to_set().contains(x) implies u0.to_set().insert(id).contains(
                x,
            ) by {
                let k = choose|k: int| 0 <= k < u1.len() && u1[k] == x;
                if k != i as int {
                    let ko: int = if k < i { k } else { k - 1 };
                    assert(u0[ko] == x);
                }
            }
            assert forall|x: u32| u0.to_set().insert(id).contains(x) implies u1.to_set().contains(
                x,
            ) by {
                if x == id {
                    assert(u1[i as int] == x);
                } else {
                    let k = choose|k: int| 0 <= k < u0.len() && u0[k] == x;
                    let kn: int = if k < i { k } else { k + 1 };
                    assert(u1[kn] == x);
                }
            }
            assert(u1.to_set() =~= u0.to_set().insert(id));
        }
    }

    /// Frees the given ID. If the ID is not allocated, the function does
    /// nothing.
    pub fn free(&mut self, id: u32)
        requires
            old(self).wf(),
        ensures
            final(self).wf(),
            final(self).spec_used() == old(self).spec_used().remove(id),
            final(self).spec_free() == (if old(self).spec_used().contains(id) {
                old(self).spec_free().insert(id)
            } else {
                old(self).spec_free()
            }),
    {
        let ghost u0 = self.used@;
        let mut i: usize = 0;
        while i < self.used.len()
            invariant
                i <= u0.len(),
                u0 == self.used@,
                *self == *old(self),
                old(self).wf(),
                forall|j: int| 0 <= j < i ==> u0[j] != id,
            decreases u0.len() - i,
        {
            if self.used[i] == id {
                self.used.remove(i);
                self.free.push(id);
                proof {
                    let u1 = self.used@;
                    assert(u0.contains(id));
                    assert(old(self).spec_used().contains(id));
                    assert forall|a: int, b: int| 0 <= a < b < u1.len() implies u1[a] < u1[b] by {
                        let ia: int = if a < i { a } else { a + 1 };
                        let ib: int = if b < i { b } else { b + 1 };
                        assert(u1[a] == u0[ia]);
                        assert(u1[b] == u0[ib]);
                    }
                    assert forall|x: u32| u1.to_set().contains(x) implies u0.to_set().remove(
                        id,
                    ).contains(x) by {
                        let k = choose|k: int| 0 <= k < u1.len() && u1[k] == x;
                        let ko: int = if k < i { k } else { k + 1 };
                        assert(u0[ko] == x);
                        if x == id {
                            if ko < i as int {
                                assert(u0[ko] != id);
                            } else {
                                assert(u0[ko] > u0[i as int]);
                            }
                            assert(false);
                        }
                    }
                    assert forall|x: u32| u0.to_set().remove(id).contains(x) implies u1.to_set().contains(x) by {
                        let k = choose|k: int| 0 <= k < u0.len() && u0[k] == x;
                        if k == i as int {
                            assert(false);
                        }
                        let kn: int = if k < i { k } else { k - 1 };
                        assert(u1[kn] == x);
                    }
                    assert(u1.to_set() =~= u0.to_set().remove(id));
                    let f0 = old(self).free@;
                    let f1 = self.free@;
                    assert(f1 =~= f0.push(id));
                    assert forall|x: u32| f1.to_set().contains(x) implies f0.to_set().insert(
                        id,
                    ).contains(x) by {
                        let k = choose|k: int| 0 <= k < f1.len() && f1[k] == x;
                        if k < f0.len() {
                            assert(f0[k] == x);
                        }
                    }
                    assert forall|x: u32| f0.to_set().insert(id).contains(x) implies f1.to_set().contains(x) by {
                        if x == id {
                            assert(f1[f1.len() - 1] == x);
                        } else {
                            let k = choose|k: int| 0 <= k < f0.len() && f0[k] == x;
                            assert(f1[k] == x);
                        }
                    }
                    assert(f1.to_set() =~= f0.to_set().insert(id));
                    assert forall|a: int, b: int| 0 <= a < b < f1.len() implies f1[a] != f1[b] by {
                        if b == f0.len() {
                            assert(f1[a] == f0[a]);
                            assert(f0.to_set().contains(f0[a]));
                        } else {
                            assert(f1[a] == f0[a] && f1[b] == f0[b]);
                        }
                    }
                }
                return ;
            }
            i = i + 1;
        }
        proof {
            if old(self).spec_used().contains(id) {
                let k = choose|k: int| 0 <= k < u0.len() && u0[k] == id;
                assert(false);
            }
            assert(self.used@.to_set() =~= old(self).spec_used().remove(id));
        }
    }
}

} // verus!
