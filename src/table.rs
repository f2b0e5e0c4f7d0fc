//! An insertion-ordered keyed table whose keys are compared through their views.
use vstd::prelude::*;

verus! {

/// A key that can be compared at run time exactly as its view compares.
pub trait TableKey: View + Sized {
    fn same_key(&self, other: &Self) -> (r: bool)
        ensures
            r == (self@ == other@),
    ;
}

impl TableKey for u64 {
    fn same_key(&self, other: &Self) -> (r: bool) {
        *self == *other
    }
}

impl TableKey for String {
    fn same_key(&self, other: &Self) -> (r: bool) {
        *self == *other
    }
}

/// Keys in insertion order, each present once, and the value stored under each.
pub struct Table<K: TableKey, V> {
    keys: Vec<K>,
    vals: Vec<V>,
}

impl<K: TableKey, V> Table<K, V> {
    /// Keys and values pair up, and no key occurs twice.
    pub closed spec fn wf(&self) -> bool {
        &&& self.keys@.len() == self.vals@.len()
        &&& forall|i: int, j: int|
            0 <= i < j < self.keys@.len() ==> #[trigger] self.keys@[i]@ != #[trigger] self.keys@[j]@
    }

    /// The views of the keys, in insertion order.
    pub closed spec fn key_seq(&self) -> Seq<K::V> {
        self.keys@.map_values(|k: K| k@)
    }

    /// The values, in the order of their keys.
    pub closed spec fn val_seq(&self) -> Seq<V> {
        self.vals@
    }

    pub closed spec fn has(&self, k: K::V) -> bool {
        exists|i: int| 0 <= i < self.keys@.len() && self.keys@[i]@ == k
    }

    closed spec fn index_of(&self, k: K::V) -> int {
        choose|i: int| 0 <= i < self.keys@.len() && self.keys@[i]@ == k
    }

    pub closed spec fn view(&self) -> Map<K::V, V> {
        Map::new(|k: K::V| self.has(k), |k: K::V| self.vals@[self.index_of(k)])
    }

    proof fn lemma_index(&self, i: int)
        requires
            self.wf(),
            0 <= i < self.keys@.len(),
        ensures
            self.has(self.keys@[i]@),
            self.index_of(self.keys@[i]@) == i,
            self@.contains_key(self.keys@[i]@),
            self@[self.keys@[i]@] == self.vals@[i],
    {
        let k = self.keys@[i]@;
        assert(self.has(k));
        let j = self.index_of(k);
        assert(self.keys@[j]@ == k);
        if j < i {
            assert(self.keys@[j]@ != self.keys@[i]@);
        } else if i < j {
            assert(self.keys@[i]@ != self.keys@[j]@);
        }
    }

    pub proof fn lemma_order(&self)
        requires
            self.wf(),
        ensures
            self.key_seq().len() == self.val_seq().len(),
            forall|i: int| 0 <= i < self.key_seq().len() ==> #[trigger] self@.contains_key(self.key_seq()[i])
                && self@[self.key_seq()[i]] == self.val_seq()[i],
            forall|k: K::V| #[trigger] self@.contains_key(k) ==> exists|i: int| 0 <= i < self.key_seq().len()
                && self.key_seq()[i] == k,
    {
        assert forall|i: int| 0 <= i < self.key_seq().len() implies #[trigger] self@.contains_key(self.key_seq()[i])
            && self@[self.key_seq()[i]] == self.val_seq()[i] by {
            self.lemma_index(i);
        }
        assert forall|k: K::V| #[trigger] self@.contains_key(k) implies exists|i: int| 0 <= i < self.key_seq().len()
            && self.key_seq()[i] == k by {
            let i = self.index_of(k);
            assert(self.key_seq()[i] == k);
        }
    }

    pub fn new() -> (r: Self)
        ensures
            r.wf(),
            r@ == Map::<K::V, V>::empty(),
            r.key_seq().len() == 0,
    {
        let r = Table { keys: Vec::new(), vals: Vec::new() };
        assert(r@ =~= Map::<K::V, V>::empty());
        r
    }

    pub fn len(&self) -> (r: usize)
        requires
            self.wf(),
        ensures
            r == self.key_seq().len(),
            r == self.val_seq().len(),
    {
        self.keys.len()
    }

    /// The position of `k` in insertion order, if present.
    pub fn find(&self, k: &K) -> (r: Option<usize>)
        requires
            self.wf(),
        ensures
            r is None <==> !self@.contains_key(k@),
            r matches Some(i) ==> i < self.key_seq().len() && self.key_seq()[i as int] == k@
                && self@[k@] == self.val_seq()[i as int],
    {
        let mut i: usize = 0;
        while i < self.keys.len()
            invariant
                self.wf(),
                i <= self.keys@.len(),
                forall|j: int| 0 <= j < i ==> self.keys@[j]@ != k@,
            decreases self.keys@.len() - i,
        {
            if self.keys[i].same_key(k) {
                proof { self.lemma_index(i as int); }
                return Some(i);
            }
            i = i + 1;
        }
        proof {
            if self.has(k@) {
                let j = self.index_of(k@);
                assert(self.keys@[j]@ == k@);
            }
        }
        None
    }

    pub fn key_at(&self, i: usize) -> (r: &K)
        requires
            self.wf(),
            i < self.key_seq().len(),
        ensures
            r@ == self.key_seq()[i as int],
    {
        &self.keys[i]
    }

    pub fn value_at(&self, i: usize) -> (r: &V)
        requires
            self.wf(),
            i < self.val_seq().len(),
        ensures
            *r == self.val_seq()[i as int],
    {
        &self.vals[i]
    }

    pub fn get(&self, k: &K) -> (r: Option<&V>)
        requires
            self.wf(),
        ensures
            r is Some <==> self@.contains_key(k@),
            r matches Some(v) ==> *v == self@[k@],
    {
        match self.find(k) {
            Some(i) => Some(self.value_at(i)),
            None => None,
        }
    }

    /// Stores `v` under `k`: in place where `k` is present, else at the end.
    pub fn insert(&mut self, k: K, v: V)
        requires
            old(self).wf(),
        ensures
            final(self).wf(),
            final(self)@ == old(self)@.insert(k@, v),
            old(self)@.contains_key(k@) ==> final(self).key_seq() == old(self).key_seq(),
            !old(self)@.contains_key(k@) ==> final(self).key_seq() == old(self).key_seq().push(k@),
    {
        let ghost pre = *self;
        match self.find(&k) {
            Some(i) => {
                self.vals.set(i, v);
                proof {
                    assert(self.keys == pre.keys);
                    assert forall|kk: K::V| #[trigger] self@.contains_key(kk) == pre@.insert(k@, v).contains_key(kk)
                        && (self@.contains_key(kk) ==> self@[kk] == pre@.insert(k@, v)[kk]) by {
                        if pre.has(kk) {
                            let j = pre.index_of(kk);
                            pre.lemma_index(j);
                            self.lemma_index(j);
                        }
                        if self.has(kk) {
                            let j = self.index_of(kk);
                            self.lemma_index(j);
                            pre.lemma_index(j);
                        }
                    }
                    assert(self@ =~= pre@.insert(k@, v));
                }
            },
            None => {
                let ghost kv = k@;
                self.keys.push(k);
                self.vals.push(v);
                proof {
                    let n = pre.keys@.len() as int;
                    assert(self.keys@[n]@ == kv);
                    assert forall|kk: K::V| #[trigger] self@.contains_key(kk) == pre@.insert(kv, v).contains_key(kk)
                        && (self@.contains_key(kk) ==> self@[kk] == pre@.insert(kv, v)[kk]) by {
                        if pre.has(kk) {
                            let j = pre.index_of(kk);
                            pre.lemma_index(j);
                            assert(self.keys@[j] == pre.keys@[j]);
                            self.lemma_index(j);
                        }
                        if self.has(kk) {
                            let j = self.index_of(kk);
                            self.lemma_index(j);
                            if j < n {
                                assert(self.keys@[j] == pre.keys@[j]);
                                pre.lemma_index(j);
                            }
                        }
                    }
                    assert(self@ =~= pre@.insert(kv, v));
                    assert(self.key_seq() =~= pre.key_seq().push(kv));
                }
            },
        }
    }
}

} // verus!
