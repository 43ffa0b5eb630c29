use vstd::prelude::*;

use crate::charge::RangeSurfaceCharge;
use crate::object_request::ObjectRequestKey;
use crate::request::PageRequestKey;

verus! {

/// A request key that can be recorded as dispatched: copied freely and compared exactly.
pub trait DispatchKey: Copy + Sized {
    /// Whether two keys name the same request.
    fn same_key(&self, other: &Self) -> (r: bool)
        ensures
            r == (*self == *other),
    ;
}

impl DispatchKey for PageRequestKey {
    fn same_key(&self, other: &Self) -> (r: bool) {
        *self == *other
    }
}

impl DispatchKey for ObjectRequestKey {
    fn same_key(&self, other: &Self) -> (r: bool) {
        *self == *other
    }
}

/// The number of elements a vector can hold without reallocating, as std's `Vec::capacity`
/// reports it. Std documents that it is never below the length and that a vector never
/// allocates more than `isize::MAX` bytes; the exact value is up to the allocator.
#[verifier::external_body]
fn vec_capacity<K>(v: &Vec<K>) -> (r: usize)
    ensures
        r >= v.len(),
        r * vstd::layout::size_of::<K>() <= isize::MAX,
{
    v.capacity()
}

/// Set of request keys that were handed to the host and still await a response.
pub struct DispatchedKeys<K: DispatchKey> {
    keys: Vec<K>,
}

impl<K: DispatchKey> DispatchedKeys<K> {
    #[verifier::type_invariant]
    spec fn distinct(self) -> bool {
        self.keys@.no_duplicates()
    }

    /// The keys held.
    pub closed spec fn held(self) -> Set<K> {
        self.keys@.to_set()
    }

    /// The keys held, in the order iteration yields them.
    pub closed spec fn order(self) -> Seq<K> {
        self.keys@
    }

    /// Creates an empty set with room for `capacity` keys.
    pub fn with_capacity(capacity: usize) -> (r: Self)
        requires
            capacity * vstd::layout::size_of::<K>() <= isize::MAX,
        ensures
            r.held() == Set::<K>::empty(),
            r.order() == Seq::<K>::empty(),
    {
        let r = DispatchedKeys { keys: Vec::with_capacity(capacity) };
        assert(r.keys@.to_set() =~= Set::<K>::empty());
        r
    }

    fn position(&self, key: &K) -> (r: Option<usize>)
        ensures
            match r {
                Some(i) => i < self.keys@.len() && self.keys@[i as int] == *key,
                None => !self.keys@.contains(*key),
            },
    {
        let mut i: usize = 0;
        while i < self.keys.len()
            invariant
                i <= self.keys@.len(),
                forall|j: int| 0 <= j < i ==> self.keys@[j] != *key,
            decreases self.keys@.len() - i,
        {
            if self.keys[i].same_key(key) {
                return Some(i);
            }
            i = i + 1;
        }
        None
    }

    /// Records `key`; returns whether it was not yet recorded.
    pub fn insert(&mut self, key: K) -> (r: bool)
        ensures
            r == !old(self).held().contains(key),
            final(self).held() == old(self).held().insert(key),
            r ==> final(self).order() == old(self).order().push(key),
            !r ==> final(self).order() == old(self).order(),
    {
        if self.position(&key).is_some() {
            proof {
                assert(self.keys@.to_set().insert(key) =~= self.keys@.to_set());
            }
            return false;
        }
        proof {
            use_type_invariant(&*self);
        }
        let mut keys = Vec::new();
        std::mem::swap(&mut keys, &mut self.keys);
        let ghost before = keys@;
        keys.push(key);
        proof {
            assert(keys@.no_duplicates()) by {
                assert forall|i: int, j: int|
                    0 <= i < keys@.len() && 0 <= j < keys@.len() && i != j implies keys@[i]
                    != keys@[j] by {
                    if i < before.len() && j < before.len() {
                        assert(before[i] != before[j]);
                    } else if i == before.len() {
                        assert(before.contains(before[j]));
                    } else if j == before.len() {
                        assert(before.contains(before[i]));
                    }
                }
            }
            assert(keys@.to_set() =~= before.to_set().insert(key)) by {
                assert forall|x: K| keys@.to_set().contains(x) implies before.to_set().insert(
                    key,
                ).contains(x) by {
                    let i = choose|i: int| 0 <= i < keys@.len() && keys@[i] == x;
                    if i < before.len() {
                        assert(before.contains(x));
                    }
                }
                assert forall|x: K| before.to_set().insert(key).contains(x) implies keys@.to_set().contains(
                    x,
                ) by {
                    if x == key {
                        assert(keys@[before.len() as int] == key);
                    } else {
                        let i = choose|i: int| 0 <= i < before.len() && before[i] == x;
                        assert(keys@[i] == x);
                    }
                }
            }
        }
        self.keys = keys;
        true
    }

    /// Whether `key` is recorded.
    pub fn contains(&self, key: &K) -> (r: bool)
        ensures
            r == self.held().contains(*key),
    {
        self.position(key).is_some()
    }

    /// Forgets `key`; returns whether it was recorded.
    pub fn remove(&mut self, key: &K) -> (r: bool)
        ensures
            r == old(self).held().contains(*key),
            final(self).held() == old(self).held().remove(*key),
            !r ==> final(self).order() == old(self).order(),
            r ==> final(self).order() == old(self).order().update(
                old(self).order().index_of(*key),
                old(self).order().last(),
            ).drop_last(),
    {
        let found = self.position(key);
        match found {
            None => {
                proof {
                    assert(self.keys@.to_set().remove(*key) =~= self.keys@.to_set());
                }
                false
            },
            Some(index) => {
                proof {
                    use_type_invariant(&*self);
                }
                let mut keys = Vec::new();
                std::mem::swap(&mut keys, &mut self.keys);
                let ghost before = keys@;
                let ghost last = before.last();
                keys.swap_remove(index);
                proof {
                    let after = keys@;
                    assert(after =~= before.update(index as int, last).drop_last());
                    assert(before[index as int] == *key);
                    assert forall|i: int| 0 <= i < after.len() implies #[trigger] after[i]
                        == if i == index {
                        last
                    } else {
                        before[i]
                    } by {}
                    assert(after.no_duplicates()) by {
                        assert forall|i: int, j: int|
                            0 <= i < after.len() && 0 <= j < after.len() && i != j implies after[i]
                            != after[j] by {
                            let bi = if i == index {
                                before.len() - 1
                            } else {
                                i
                            };
                            let bj = if j == index {
                                before.len() - 1
                            } else {
                                j
                            };
                            assert(after[i] == before[bi]);
                            assert(after[j] == before[bj]);
                        }
                    }
                    assert(after.to_set() =~= before.to_set().remove(*key)) by {
                        assert forall|x: K| after.to_set().contains(x) implies before.to_set().remove(
                            *key,
                        ).contains(x) by {
                            let i = choose|i: int| 0 <= i < after.len() && after[i] == x;
                            let bi = if i == index {
                                before.len() - 1
                            } else {
                                i
                            };
                            assert(before[bi] == x);
                            assert(bi != index);
                        }
                        assert forall|x: K| before.to_set().remove(*key).contains(x) implies after.to_set().contains(
                            x,
                        ) by {
                            let i = choose|i: int| 0 <= i < before.len() && before[i] == x;
                            assert(i != index);
                            if i == before.len() - 1 {
                                assert(after[index as int] == x);
                            } else {
                                assert(after[i] == x);
                            }
                        }
                    }
                }
                self.keys = keys;
                proof {
                    let j = before.index_of(*key);
                    assert(0 <= index < before.len() && before[index as int] == *key);
                    assert(0 <= j < before.len() && before[j] == *key);
                    assert(j == index);
                }
                true
            },
        }
    }

    /// The recorded keys, each once, in iteration order.
    pub fn keys(&self) -> (r: Vec<K>)
        ensures
            r@ == self.order(),
            r@.to_set() == self.held(),
            r@.no_duplicates(),
    {
        proof {
            use_type_invariant(self);
        }
        let mut out: Vec<K> = Vec::new();
        let mut i: usize = 0;
        while i < self.keys.len()
            invariant
                i <= self.keys@.len(),
                out@ == self.keys@.subrange(0, i as int),
            decreases self.keys@.len() - i,
        {
            out.push(self.keys[i]);
            i = i + 1;
        }
        proof {
            assert(out@ =~= self.keys@);
        }
        out
    }

    /// Number of recorded keys.
    pub fn len(&self) -> (r: usize)
        ensures
            r == self.held().len(),
    {
        proof {
            use_type_invariant(self);
            self.keys@.unique_seq_to_set();
        }
        self.keys.len()
    }

    /// Bytes and records of the backing allocation: one record per slot it holds, each of the
    /// key's size.
    pub fn allocation_charge(&self) -> (r: RangeSurfaceCharge)
        ensures
            r.items >= self.held().len(),
            r.bytes == r.items * vstd::layout::size_of::<K>(),
    {
        proof {
            use_type_invariant(self);
            self.keys@.unique_seq_to_set();
        }
        let items = vec_capacity(&self.keys);
        RangeSurfaceCharge { bytes: items * std::mem::size_of::<K>(), items }
    }

    /// The charge of a backing allocation for `capacity` keys, or `None` when its bytes do
    /// not fit in `usize`.
    pub fn checked_allocation_charge(capacity: usize) -> (r: Option<RangeSurfaceCharge>)
        ensures
            capacity * vstd::layout::size_of::<K>() <= usize::MAX ==> r == Some(
                RangeSurfaceCharge {
                    bytes: (capacity * vstd::layout::size_of::<K>()) as usize,
                    items: capacity,
                },
            ),
            capacity * vstd::layout::size_of::<K>() > usize::MAX ==> r is None,
    {
        match capacity.checked_mul(std::mem::size_of::<K>()) {
            Some(bytes) => Some(RangeSurfaceCharge { bytes, items: capacity }),
            None => None,
        }
    }

    /// Drops the backing allocation, leaving no key recorded.
    pub fn release_backing(&mut self)
        ensures
            final(self).held() == Set::<K>::empty(),
            final(self).order() == Seq::<K>::empty(),
    {
        self.keys = Vec::new();
        proof {
            assert(self.keys@.to_set() =~= Set::<K>::empty());
        }
    }
}

/// Recording a key that was not recorded and then forgetting it leaves the recorded keys as they
/// were; right after recording, the key is found, and right after forgetting, it is not.
pub proof fn lemma_insert_then_remove<K>(held: Set<K>, key: K)
    requires
        !held.contains(key),
    ensures
        held.insert(key).contains(key),
        !held.insert(key).remove(key).contains(key),
        held.insert(key).remove(key) == held,
{
    assert(held.insert(key).remove(key) =~= held);
}

} // verus!
