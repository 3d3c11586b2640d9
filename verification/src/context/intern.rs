//! Tables that give each distinct value a number.

use crate::maps::{map_get, map_insert, map_new, map_remove};
use rustc_hash::FxHashMap;
use vstd::prelude::*;

verus! {

/// A value that a table can number.
pub trait Interned: Sized {
    /// What a value is, apart from how it is stored.
    type Model;

    /// The contents of the value.
    spec fn model(&self) -> Self::Model;

    /// A number that equal contents share.
    spec fn digest_of(model: Self::Model) -> u64;

    fn digest(&self) -> (r: u64)
        ensures
            r == Self::digest_of(self.model()),
    ;

    fn same(&self, other: &Self) -> (r: bool)
        ensures
            r == (self.model() == other.model()),
    ;
}

/// A table of distinct values. The number of a value is its position.
pub struct Interner<T: Interned> {
    items: Vec<T>,
    buckets: FxHashMap<u64, Vec<usize>>,
}

/// A table with a value added, unless it is there.
pub open spec fn table_with<M>(table: Seq<M>, value: M) -> Seq<M> {
    if table.contains(value) {
        table
    } else {
        table.push(value)
    }
}

impl<T: Interned> View for Interner<T> {
    type V = Seq<T::Model>;

    closed spec fn view(&self) -> Seq<T::Model> {
        self.items@.map_values(|i: T| i.model())
    }
}

impl<T: Interned> Interner<T> {
    /// Every position is listed under the digest of its value.
    pub closed spec fn well_formed(&self) -> bool {
        &&& forall|i: int|
            0 <= i < self.items@.len() ==> self.listed(#[trigger] self.items@[i].model(), i)
        &&& forall|d: u64, k: int|
            self.buckets@.dom().contains(d) && 0 <= k < self.buckets@[d]@.len()
                ==> (#[trigger] self.buckets@[d]@[k]) < self.items@.len()
        &&& self@.no_duplicates()
    }

    closed spec fn listed(&self, model: T::Model, i: int) -> bool {
        let d = T::digest_of(model);
        self.buckets@.dom().contains(d) && self.buckets@[d]@.contains(i as usize)
    }

    pub proof fn lemma_distinct(&self)
        requires
            self.well_formed(),
        ensures
            self@.no_duplicates(),
    {
    }

    pub fn new() -> (r: Self)
        ensures
            r.well_formed(),
            r@ == Seq::<T::Model>::empty(),
    {
        let r: Interner<T> = Interner { items: Vec::new(), buckets: map_new() };
        proof {
            assert(r@ =~= Seq::<T::Model>::empty());
        }
        r
    }

    pub fn len(&self) -> (r: usize)
        ensures
            r == self@.len(),
    {
        self.items.len()
    }

    /// The value with the given number.
    pub fn get(&self, id: usize) -> (r: Option<&T>)
        ensures
            r is Some <==> id < self@.len(),
            r matches Some(item) ==> item.model() == self@[id as int],
    {
        if id < self.items.len() {
            Some(&self.items[id])
        } else {
            None
        }
    }

    /// The number of a value, if the table has it.
    pub fn find(&self, value: &T) -> (r: Option<usize>)
        requires
            self.well_formed(),
        ensures
            r is Some <==> self@.contains(value.model()),
            r matches Some(id) ==> id < self@.len() && self@[id as int] == value.model(),
    {
        let ghost d = T::digest_of(value.model());
        match map_get(&self.buckets, value.digest()) {
            Some(bucket) => {
                let mut k: usize = 0;
                while k < bucket.len()
                    invariant
                        k <= bucket@.len(),
                        self.well_formed(),
                        self.buckets@.dom().contains(d),
                        *bucket == self.buckets@[d],
                        d == T::digest_of(value.model()),
                        forall|j: int|
                            0 <= j < k ==> self@[(#[trigger] bucket@[j]) as int] != value.model(),
                    decreases bucket@.len() - k,
                {
                    let id: usize = bucket[k];
                    proof {
                        assert(self.buckets@[d]@[k as int] < self.items@.len());
                    }
                    if self.items[id].same(value) {
                        proof {
                            assert(self@[id as int] == value.model());
                        }
                        return Some(id);
                    }
                    k += 1;
                }
                proof {
                    if self@.contains(value.model()) {
                        let i = choose|i: int| 0 <= i < self@.len() && self@[i] == value.model();
                        assert(self.listed(self.items@[i].model(), i));
                        assert(self.items.len() <= usize::MAX);
                        let j = choose|j: int| 0 <= j < bucket@.len() && bucket@[j] == i as usize;
                        assert(self@[bucket@[j] as int] != value.model());
                    }
                }
                None
            },
            None => {
                proof {
                    if self@.contains(value.model()) {
                        let i = choose|i: int| 0 <= i < self@.len() && self@[i] == value.model();
                        assert(self.listed(self.items@[i].model(), i));
                    }
                }
                None
            },
        }
    }

    /// Adds a value that the table does not have.
    pub fn add(&mut self, value: T)
        requires
            old(self).well_formed(),
            !old(self)@.contains(value.model()),
        ensures
            final(self).well_formed(),
            final(self)@ == old(self)@.push(value.model()),
    {
        let ghost before = *self;
        let ghost m = value.model();
        let key: u64 = value.digest();
        let mut bucket: Vec<usize> = match map_remove(&mut self.buckets, key) {
            Some(bucket) => bucket,
            None => Vec::new(),
        };
        let ghost rest = bucket@;
        let id: usize = self.items.len();
        bucket.push(id);
        map_insert(&mut self.buckets, key, bucket);
        self.items.push(value);
        proof {
            assert(self@ =~= before@.push(m));
            assert forall|i: int| 0 <= i < self.items@.len() implies self.listed(
                #[trigger] self.items@[i].model(),
                i,
            ) by {
                if i < before.items@.len() {
                    assert(before.listed(before.items@[i].model(), i));
                    let d = T::digest_of(before.items@[i].model());
                    let j = choose|j: int|
                        0 <= j < before.buckets@[d]@.len() && before.buckets@[d]@[j] == i as usize;
                    if d == key {
                        assert(self.buckets@[d]@[j] == i as usize);
                    }
                    assert(self.buckets@[d]@[j] == i as usize);
                } else {
                    assert(self.buckets@[key]@[rest.len() as int] == id);
                }
            }
            assert forall|d: u64, k: int|
                self.buckets@.dom().contains(d) && 0 <= k < self.buckets@[d]@.len() implies (
            #[trigger] self.buckets@[d]@[k]) < self.items@.len() by {
                if d == key {
                    if k < rest.len() {
                        assert(before.buckets@.dom().contains(d));
                        assert(before.buckets@[d]@[k] < before.items@.len());
                    }
                } else {
                    assert(before.buckets@[d]@[k] < before.items@.len());
                }
            }
            assert forall|i: int, j: int|
                0 <= i < self@.len() && 0 <= j < self@.len() && i != j implies self@[i]
                != self@[j] by {
                if i == before@.len() {
                    assert(before@.contains(before@[j]));
                } else if j == before@.len() {
                    assert(before@.contains(before@[i]));
                }
            }
        }
    }

    /// Keeps the first `len` values only.
    pub fn truncate(&mut self, len: usize)
        requires
            old(self).well_formed(),
            len <= old(self)@.len(),
        ensures
            final(self).well_formed(),
            final(self)@ == old(self)@.take(len as int),
    {
        if len == self.items.len() {
            proof {
                assert(self@.take(len as int) =~= self@);
            }
            return;
        }
        let ghost all = self@;
        let ghost items = self.items@;
        let mut kept: Vec<T> = Vec::new();
        core::mem::swap(&mut kept, &mut self.items);
        kept.truncate(len);
        self.buckets = map_new();
        proof {
            assert(self@ =~= Seq::<T::Model>::empty());
            assert(all.take(0) =~= Seq::<T::Model>::empty());
            assert(kept@ == items.take(len as int));
        }
        // Put back one by one, in the old order.
        let mut reversed: Vec<T> = Vec::new();
        while kept.len() > 0
            invariant
                kept@.len() + reversed@.len() == len,
                kept@ == items.take(kept@.len() as int),
                len <= items.len(),
                forall|k: int|
                    0 <= k < reversed@.len() ==> #[trigger] reversed@[k] == items[len - 1 - k],
            decreases kept@.len(),
        {
            let ghost n = kept@.len() as int;
            match kept.pop() {
                Some(item) => {
                    proof {
                        assert(item == items[n - 1]);
                        assert(kept@ =~= items.take(n - 1));
                    }
                    reversed.push(item);
                },
                None => {},
            }
        }
        while reversed.len() > 0
            invariant
                self.well_formed(),
                reversed@.len() <= len,
                len <= items.len(),
                all.no_duplicates(),
                all.len() == items.len(),
                forall|k: int| 0 <= k < items.len() ==> (#[trigger] items[k]).model() == all[k],
                forall|k: int|
                    0 <= k < reversed@.len() ==> #[trigger] reversed@[k] == items[len - 1 - k],
                self@ == all.take(len - reversed@.len()),
            decreases reversed@.len(),
        {
            let ghost n = reversed@.len() as int;
            match reversed.pop() {
                Some(item) => {
                    proof {
                        assert(item == items[len - 1 - (n - 1)]);
                        assert(item.model() == all[len - n]);
                        if self@.contains(item.model()) {
                            let i = choose|i: int| 0 <= i < self@.len() && self@[i] == item.model();
                            assert(all[i] == all[len - n]);
                        }
                        assert(all.take(len - n).push(all[len - n]) =~= all.take(len - n + 1));
                    }
                    self.add(item);
                },
                None => {},
            }
        }
    }
}

} // verus!
