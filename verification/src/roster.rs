//! The combat state store: one record per entity, found by the entity's handle.

use vstd::prelude::*;
use crate::model::EntityId;

verus! {

/// One record of the store together with the handle of its owner.
struct Entry<T> {
    id: EntityId,
    data: T,
}

/// Records keyed by entity handle. A valid store (`wf`) holds no handle twice.
pub struct Roster<T> {
    entries: Vec<Entry<T>>,
}

/// Some entry of `entries` belongs to `id`.
spec fn holds<T>(entries: Seq<Entry<T>>, id: EntityId) -> bool {
    exists|i: int| 0 <= i < entries.len() && (#[trigger] entries[i]).id == id
}

/// The place of the entry that belongs to `id`, where there is one.
spec fn index_of<T>(entries: Seq<Entry<T>>, id: EntityId) -> int {
    choose|i: int| 0 <= i < entries.len() && (#[trigger] entries[i]).id == id
}

/// No two entries share a handle.
spec fn distinct<T>(entries: Seq<Entry<T>>) -> bool {
    forall|i: int, j: int|
        0 <= i < entries.len() && 0 <= j < entries.len() && i != j ==> (#[trigger] entries[i]).id
            != (#[trigger] entries[j]).id
}

/// The entries as a map from handle to record.
spec fn as_map<T>(entries: Seq<Entry<T>>) -> Map<EntityId, T> {
    Map::new(
        |id: EntityId| holds(entries, id),
        |id: EntityId| entries[index_of(entries, id)].data,
    )
}

proof fn lemma_index_of<T>(entries: Seq<Entry<T>>, i: int)
    requires
        distinct(entries),
        0 <= i < entries.len(),
    ensures
        holds(entries, entries[i].id),
        index_of(entries, entries[i].id) == i,
{
    let id = entries[i].id;
    let j = index_of(entries, id);
    assert(0 <= j < entries.len() && entries[j].id == id);
}

proof fn lemma_update<T>(before: Seq<Entry<T>>, i: int, data: T)
    requires
        distinct(before),
        0 <= i < before.len(),
    ensures
        distinct(before.update(i, Entry { id: before[i].id, data })),
        as_map(before.update(i, Entry { id: before[i].id, data })) == as_map(before).insert(
            before[i].id,
            data,
        ),
{
    let id = before[i].id;
    let after = before.update(i, Entry { id, data });
    assert(distinct(after));
    assert forall|k: EntityId| holds(after, k) == holds(before, k) by {
        if holds(before, k) {
            let j = index_of(before, k);
            assert(after[j].id == k);
        }
        if holds(after, k) {
            let j = index_of(after, k);
            assert(before[j].id == k);
        }
    }
    assert forall|k: EntityId| holds(before, k) implies after[index_of(after, k)].data == (if k
        == id {
        data
    } else {
        before[index_of(before, k)].data
    }) by {
        let j = index_of(before, k);
        lemma_index_of(after, j);
        if k == id {
            lemma_index_of(before, i);
        }
    }
    lemma_index_of(before, i);
    assert(as_map(after) =~= as_map(before).insert(id, data));
}

proof fn lemma_push<T>(before: Seq<Entry<T>>, id: EntityId, data: T)
    requires
        distinct(before),
        !holds(before, id),
    ensures
        distinct(before.push(Entry { id, data })),
        as_map(before.push(Entry { id, data })) == as_map(before).insert(id, data),
{
    let after = before.push(Entry { id, data });
    let n = before.len() as int;
    assert forall|i: int, j: int|
        0 <= i < after.len() && 0 <= j < after.len() && i != j implies (#[trigger] after[i]).id
        != (#[trigger] after[j]).id by {
        if i < n && j < n {
            assert(before[i].id != before[j].id);
        } else if i < n {
            assert(before[i].id != id);
        } else {
            assert(before[j].id != id);
        }
    }
    lemma_index_of(after, n);
    assert forall|k: EntityId| holds(after, k) == (k == id || holds(before, k)) by {
        if holds(before, k) {
            let j = index_of(before, k);
            assert(after[j].id == k);
        }
        if holds(after, k) && k != id {
            let j = index_of(after, k);
            assert(before[j].id == k);
        }
    }
    assert forall|k: EntityId| holds(before, k) implies after[index_of(after, k)].data
        == before[index_of(before, k)].data by {
        let j = index_of(before, k);
        lemma_index_of(after, j);
    }
    assert(as_map(after) =~= as_map(before).insert(id, data));
}

proof fn lemma_remove<T>(before: Seq<Entry<T>>, i: int)
    requires
        distinct(before),
        0 <= i < before.len(),
    ensures
        distinct(before.remove(i)),
        as_map(before.remove(i)) == as_map(before).remove(before[i].id),
{
    let id = before[i].id;
    let after = before.remove(i);
    assert forall|a: int, b: int|
        0 <= a < after.len() && 0 <= b < after.len() && a != b implies (#[trigger] after[a]).id
        != (#[trigger] after[b]).id by {
        let a0 = if a < i { a } else { a + 1 };
        let b0 = if b < i { b } else { b + 1 };
        assert(after[a] == before[a0]);
        assert(after[b] == before[b0]);
    }
    assert forall|k: EntityId| holds(after, k) == (k != id && holds(before, k)) by {
        if holds(before, k) && k != id {
            let j = index_of(before, k);
            let j1 = if j < i { j } else { j - 1 };
            assert(after[j1] == before[j]);
        }
        if holds(after, k) {
            let j = index_of(after, k);
            let j0 = if j < i { j } else { j + 1 };
            assert(after[j] == before[j0]);
            assert(before[j0].id == k);
            if k == id {
                lemma_index_of(before, i);
                lemma_index_of(before, j0);
            }
        }
    }
    assert forall|k: EntityId| holds(after, k) implies after[index_of(after, k)].data
        == before[index_of(before, k)].data by {
        let j = index_of(after, k);
        let j0 = if j < i { j } else { j + 1 };
        assert(after[j] == before[j0]);
        lemma_index_of(before, j0);
    }
    assert(as_map(after) =~= as_map(before).remove(id));
}

impl<T> View for Roster<T> {
    type V = Map<EntityId, T>;

    closed spec fn view(&self) -> Map<EntityId, T> {
        as_map(self.entries@)
    }
}

impl<T> Roster<T> {
    /// The store is valid: no handle occurs twice.
    pub closed spec fn wf(&self) -> bool {
        distinct(self.entries@)
    }

    /// A store without records.
    pub fn new() -> (roster: Roster<T>)
        ensures
            roster.wf(),
            roster@ == Map::<EntityId, T>::empty(),
    {
        let roster = Roster { entries: Vec::new() };
        assert(roster@ =~= Map::<EntityId, T>::empty());
        roster
    }

    fn find(&self, id: EntityId) -> (place: Option<usize>)
        ensures
            match place {
                Some(i) => i < self.entries@.len() && self.entries@[i as int].id == id,
                None => !holds(self.entries@, id),
            },
    {
        let mut i: usize = 0;
        while i < self.entries.len()
            invariant
                0 <= i <= self.entries@.len(),
                forall|j: int| 0 <= j < i ==> (#[trigger] self.entries@[j]).id != id,
            decreases self.entries@.len() - i,
        {
            if self.entries[i].id.0 == id.0 {
                return Some(i);
            }
            i += 1;
        }
        None
    }

    /// Whether the store holds a record for `id`.
    pub fn contains(&self, id: EntityId) -> (present: bool)
        ensures
            present == self@.dom().contains(id),
    {
        self.find(id).is_some()
    }

    /// The record of `id`, or `None` for a handle the store does not know.
    pub fn get(&self, id: EntityId) -> (record: Option<&T>)
        requires
            self.wf(),
        ensures
            match record {
                Some(data) => self@.dom().contains(id) && *data == self@[id],
                None => !self@.dom().contains(id),
            },
    {
        match self.find(id) {
            Some(i) => {
                proof {
                    lemma_index_of(self.entries@, i as int);
                }
                Some(&self.entries[i].data)
            },
            None => None,
        }
    }

    /// The record of `id` for writing, or `None` for a handle the store does
    /// not know. What is written becomes the record of `id`; no other record
    /// changes.
    pub fn get_mut(&mut self, id: EntityId) -> (record: Option<&mut T>)
        requires
            old(self).wf(),
        ensures
            final(self).wf(),
            match record {
                Some(data) => {
                    &&& old(self)@.dom().contains(id)
                    &&& *data == old(self)@[id]
                    &&& final(self)@ == old(self)@.insert(id, *final(data))
                },
                None => !old(self)@.dom().contains(id) && final(self)@ == old(self)@,
            },
    {
        match self.find(id) {
            Some(i) => {
                proof {
                    lemma_index_of(self.entries@, i as int);
                    assert forall|data: T|
                        distinct(
                            #[trigger] self.entries@.update(i as int, Entry { id, data }),
                        ) && as_map(self.entries@.update(i as int, Entry { id, data }))
                            == as_map(self.entries@).insert(id, data) by {
                        lemma_update(self.entries@, i as int, data);
                    }
                }
                Some(&mut self.entries[i].data)
            },
            None => None,
        }
    }

    /// Replaces the record of `id`. A handle the store does not know is left out.
    pub fn set(&mut self, id: EntityId, data: T) -> (updated: bool)
        requires
            old(self).wf(),
        ensures
            final(self).wf(),
            updated == old(self)@.dom().contains(id),
            final(self)@ == if updated {
                old(self)@.insert(id, data)
            } else {
                old(self)@
            },
    {
        match self.find(id) {
            Some(i) => {
                proof {
                    lemma_update(self.entries@, i as int, data);
                }
                self.entries[i] = Entry { id, data };
                true
            },
            None => false,
        }
    }

    /// Adds a record for a handle the store does not know yet. A handle it
    /// knows keeps its record, and the answer is `false`.
    pub fn enroll(&mut self, id: EntityId, data: T) -> (enrolled: bool)
        requires
            old(self).wf(),
        ensures
            final(self).wf(),
            enrolled == !old(self)@.dom().contains(id),
            final(self)@ == if enrolled {
                old(self)@.insert(id, data)
            } else {
                old(self)@
            },
    {
        match self.find(id) {
            Some(_) => false,
            None => {
                proof {
                    lemma_push(self.entries@, id, data);
                }
                self.entries.push(Entry { id, data });
                true
            },
        }
    }

    /// Takes the record of `id` out of the store and hands it back, or `None`
    /// for a handle the store does not know.
    pub fn dismiss(&mut self, id: EntityId) -> (record: Option<T>)
        requires
            old(self).wf(),
        ensures
            final(self).wf(),
            final(self)@ == old(self)@.remove(id),
            record == if old(self)@.dom().contains(id) {
                Some(old(self)@[id])
            } else {
                None
            },
    {
        match self.find(id) {
            Some(i) => {
                proof {
                    lemma_index_of(self.entries@, i as int);
                    lemma_remove(self.entries@, i as int);
                }
                let entry = self.entries.remove(i);
                Some(entry.data)
            },
            None => {
                assert(self@ =~= self@.remove(id));
                None
            },
        }
    }
}

} // verus!
