//! Collections of records that carry a numeric id, as kept by the record
//! store: ids are assigned on insertion and records are found by id.
use vstd::prelude::*;
use crate::model::{Client, DomainList};

verus! {

/// A record with an optional numeric id.
pub trait Identifiable: Sized {
    /// The id of the record, if it has one.
    spec fn spec_id(&self) -> Option<u32>;

    /// The record with its id set to `id` and nothing else changed.
    spec fn spec_with_id(&self, id: u32) -> Self;

    fn id(&self) -> (r: Option<u32>)
        ensures
            r == self.spec_id(),
    ;

    fn set_id(&mut self, id: u32)
        ensures
            *final(self) == old(self).spec_with_id(id),
            final(self).spec_id() == Some(id),
    ;
}

impl Identifiable for Client {
    open spec fn spec_id(&self) -> Option<u32> {
        self.id
    }

    open spec fn spec_with_id(&self, id: u32) -> Client {
        Client { id: Some(id), ..*self }
    }

    fn id(&self) -> (r: Option<u32>) {
        self.id
    }

    fn set_id(&mut self, id: u32) {
        self.id = Some(id);
    }
}

impl Identifiable for DomainList {
    open spec fn spec_id(&self) -> Option<u32> {
        self.id
    }

    open spec fn spec_with_id(&self, id: u32) -> DomainList {
        DomainList { id: Some(id), ..*self }
    }

    fn id(&self) -> (r: Option<u32>) {
        self.id
    }

    fn set_id(&mut self, id: u32) {
        self.id = Some(id);
    }
}

/// Every record has an id.
pub open spec fn ids_assigned<T: Identifiable>(items: Seq<T>) -> bool {
    forall|i: int| 0 <= i < items.len() ==> (#[trigger] items[i]).spec_id() is Some
}

/// The largest id among the records, or 0 when there are none.
pub open spec fn max_id<T: Identifiable>(items: Seq<T>) -> nat
    decreases items.len(),
{
    if items.len() == 0 {
        0
    } else {
        let m = max_id(items.drop_last());
        let last = items.last().spec_id().unwrap() as nat;
        if last > m {
            last
        } else {
            m
        }
    }
}

/// No two records share an id.
pub open spec fn ids_distinct<T: Identifiable>(items: Seq<T>) -> bool {
    forall|i: int, j: int|
        0 <= i < items.len() && 0 <= j < items.len() && i != j ==> (#[trigger] items[i]).spec_id() != (
        #[trigger] items[j]).spec_id()
}

/// Every assigned id is at most `max_id`.
pub proof fn lemma_max_id_bounds<T: Identifiable>(items: Seq<T>)
    requires
        ids_assigned(items),
    ensures
        forall|i: int| 0 <= i < items.len() ==> (#[trigger] items[i]).spec_id().unwrap() <= max_id(items),
    decreases items.len(),
{
    if items.len() > 0 {
        let pre = items.drop_last();
        assert forall|i: int| 0 <= i < pre.len() implies (#[trigger] pre[i]).spec_id() is Some by {
            assert(pre[i] == items[i]);
        }
        lemma_max_id_bounds(pre);
        assert forall|i: int| 0 <= i < items.len() implies (#[trigger] items[i]).spec_id().unwrap() <= max_id(
            items,
        ) by {
            if i < pre.len() {
                assert(pre[i] == items[i]);
            }
        }
    }
}

/// `p` is the position of the first record whose id is `id`.
pub open spec fn first_with_id<T: Identifiable>(items: Seq<T>, id: u32, p: int) -> bool {
    &&& 0 <= p < items.len()
    &&& items[p].spec_id() == Some(id)
    &&& forall|q: int| 0 <= q < p ==> (#[trigger] items[q]).spec_id() != Some(id)
}

/// No record has id `id`.
pub open spec fn no_id<T: Identifiable>(items: Seq<T>, id: u32) -> bool {
    forall|q: int| 0 <= q < items.len() ==> (#[trigger] items[q]).spec_id() != Some(id)
}

/// Records in the order they were added.
pub struct IdentifiedList<T: Identifiable> {
    pub items: Vec<T>,
}

/// The same list under the name the configuration layer uses.
pub type ManagedList<T> = IdentifiedList<T>;

impl<T: Identifiable> IdentifiedList<T> {
    pub fn new(items: Vec<T>) -> (r: Self)
        ensures
            r.items == items,
    {
        Self { items }
    }

    fn position(&self, id: u32) -> (r: Option<usize>)
        ensures
            r matches Some(p) ==> first_with_id(self.items@, id, p as int),
            r is None ==> no_id(self.items@, id),
    {
        let mut i: usize = 0;
        while i < self.items.len()
            invariant
                i <= self.items.len(),
                forall|q: int| 0 <= q < i ==> (#[trigger] self.items@[q]).spec_id() != Some(id),
            decreases self.items.len() - i,
        {
            if self.items[i].id() == Some(id) {
                return Some(i);
            }
            i += 1;
        }
        None
    }

    /// Every record has an id.
    pub fn all_ids_assigned(&self) -> (r: bool)
        ensures
            r == ids_assigned(self.items@),
    {
        let mut i: usize = 0;
        while i < self.items.len()
            invariant
                i <= self.items.len(),
                forall|q: int| 0 <= q < i ==> (#[trigger] self.items@[q]).spec_id() is Some,
            decreases self.items.len() - i,
        {
            if self.items[i].id().is_none() {
                return false;
            }
            i += 1;
        }
        true
    }

    /// The largest id in the list, or 0 when it is empty.
    pub fn max_id(&self) -> (r: u32)
        requires
            ids_assigned(self.items@),
        ensures
            r == max_id(self.items@),
    {
        let mut m: u32 = 0;
        let mut i: usize = 0;
        while i < self.items.len()
            invariant
                i <= self.items.len(),
                ids_assigned(self.items@),
                m == max_id(self.items@.subrange(0, i as int)),
            decreases self.items.len() - i,
        {
            let ghost next = self.items@.subrange(0, i + 1);
            assert(next.drop_last() =~= self.items@.subrange(0, i as int));
            assert(next.last() == self.items@[i as int]);
            let v = self.items[i].id().unwrap();
            if v > m {
                m = v;
            }
            i += 1;
        }
        assert(self.items@.subrange(0, i as int) =~= self.items@);
        m
    }

    /// Appends `item` under the id one above the largest in the list and
    /// returns the stored record.
    pub fn add(&mut self, item: T) -> (r: &T)
        requires
            ids_assigned(old(self).items@),
            max_id(old(self).items@) < u32::MAX,
        ensures
            final(self).items@ == old(self).items@.push(item.spec_with_id((max_id(old(self).items@) + 1) as u32)),
            *r == item.spec_with_id((max_id(old(self).items@) + 1) as u32),
            r.spec_id() == Some((max_id(old(self).items@) + 1) as u32),
            ids_assigned(final(self).items@),
            forall|i: int|
                0 <= i < old(self).items@.len() ==> (#[trigger] old(self).items@[i]).spec_id().unwrap() < (max_id(
                    old(self).items@,
                ) + 1) as u32,
            ids_distinct(old(self).items@) ==> ids_distinct(final(self).items@),
    {
        proof {
            lemma_max_id_bounds(old(self).items@);
        }
        let mut owned = item;
        let next = self.max_id() + 1;
        owned.set_id(next);
        self.items.push(owned);
        let last = self.items.len() - 1;
        &self.items[last]
    }

    /// Replaces the first record with id `id` by `updated`, which takes that
    /// id, and returns the stored record; `None` when no record has the id.
    pub fn update(&mut self, id: u32, updated: T) -> (r: Option<&T>)
        ensures
            r is Some <==> !no_id(old(self).items@, id),
            r is None ==> final(self).items@ == old(self).items@,
            r matches Some(v) ==> v.spec_id() == Some(id),
            r matches Some(v) ==> *v == updated.spec_with_id(id) && exists|p: int|
                first_with_id(old(self).items@, id, p) && final(self).items@ == old(self).items@.update(
                    p,
                    updated.spec_with_id(id),
                ),
    {
        let mut updated = updated;
        updated.set_id(id);
        match self.position(id) {
            Some(pos) => {
                self.items.remove(pos);
                self.items.insert(pos, updated);
                assert(self.items@ =~= old(self).items@.update(pos as int, updated));
                Some(&self.items[pos])
            },
            None => None,
        }
    }

    /// Removes and returns the first record with id `id`; `None` when no
    /// record has the id.
    pub fn delete(&mut self, id: u32) -> (r: Option<T>)
        ensures
            r is Some <==> !no_id(old(self).items@, id),
            r is None ==> final(self).items@ == old(self).items@,
            r matches Some(v) ==> exists|p: int|
                first_with_id(old(self).items@, id, p) && v == old(self).items@[p] && final(self).items@
                    == old(self).items@.remove(p),
    {
        match self.position(id) {
            Some(pos) => Some(self.items.remove(pos)),
            None => None,
        }
    }

    /// The first record with id `id`, if any.
    pub fn get(&self, id: u32) -> (r: Option<&T>)
        ensures
            r is Some <==> !no_id(self.items@, id),
            r matches Some(v) ==> exists|p: int| first_with_id(self.items@, id, p) && *v == self.items@[p],
    {
        match self.position(id) {
            Some(pos) => Some(&self.items[pos]),
            None => None,
        }
    }
}

} // verus!
