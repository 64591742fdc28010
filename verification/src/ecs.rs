//! Entities and the storages that attach components to them.

use vstd::prelude::*;

verus! {

/// An identifier that groups components. It carries no data of its own.
#[derive(PartialEq, Eq, Copy, Clone, Debug, Hash, Structural)]
pub struct Entity {
    pub index: usize,
}

/// The components of one type, at most one for each entity.
#[derive(Clone, Debug)]
pub struct Storage<T> {
    pub slots: Vec<Option<T>>,
}

impl<T: Copy> Storage<T> {
    /// The component attached to `entity`, if there is one.
    pub open spec fn component(&self, entity: Entity) -> Option<T> {
        if entity.index < self.slots@.len() {
            self.slots@[entity.index as int]
        } else {
            None
        }
    }

    /// Whether `entity` has a component in this storage.
    pub open spec fn has(&self, entity: Entity) -> bool {
        self.component(entity).is_some()
    }

    /// One more than the largest index that can carry a component.
    pub open spec fn span(&self) -> int {
        self.slots@.len() as int
    }

    /// A storage that holds nothing.
    pub fn new() -> (storage: Self)
        ensures
            storage.span() == 0,
            forall|e: Entity| storage.component(e).is_none(),
    {
        Storage { slots: Vec::new() }
    }

    /// One more than the largest index that can carry a component: a bound
    /// for walking the storage.
    pub fn len(&self) -> (n: usize)
        ensures
            n as int == self.span(),
    {
        self.slots.len()
    }

    /// The component attached to `entity`, if there is one.
    pub fn get(&self, entity: Entity) -> (found: Option<T>)
        ensures
            found == self.component(entity),
    {
        if entity.index < self.slots.len() {
            self.slots[entity.index]
        } else {
            None
        }
    }

    /// Whether `entity` has a component in this storage.
    pub fn contains(&self, entity: Entity) -> (present: bool)
        ensures
            present == self.has(entity),
    {
        self.get(entity).is_some()
    }

    /// The entities that have a component in this storage, each once, in
    /// the order of their indices: what a walk over the storage visits.
    pub fn entities(&self) -> (found: Vec<Entity>)
        ensures
            forall|e: Entity| found@.contains(e) <==> self.has(e),
            forall|i: int, j: int|
                0 <= i < j < found@.len() ==> found@[i].index < found@[j].index,
    {
        let mut found: Vec<Entity> = Vec::new();
        let mut i: usize = 0;
        while i < self.slots.len()
            invariant
                i <= self.slots@.len(),
                forall|e: Entity| found@.contains(e) <==> self.has(e) && e.index < i,
                forall|k: int| 0 <= k < found@.len() ==> (#[trigger] found@[k]).index < i,
                forall|k: int, j: int|
                    0 <= k < j < found@.len() ==> found@[k].index < found@[j].index,
            decreases self.slots@.len() - i,
        {
            let entity = Entity { index: i };
            if self.slots[i].is_some() {
                let ghost before = found@;
                found.push(entity);
                proof {
                    assert(found@[before.len() as int] == entity);
                    assert forall|e: Entity| found@.contains(e) <==> self.has(e) && e.index < i
                        + 1 by {
                        if found@.contains(e) {
                            let k = choose|k: int| 0 <= k < found@.len() && found@[k] == e;
                            if k < before.len() {
                                assert(before[k] == e);
                                assert(before.contains(e));
                            }
                        }
                        if self.has(e) && e.index < i + 1 {
                            if e.index < i {
                                assert(before.contains(e));
                                let k = choose|k: int| 0 <= k < before.len() && before[k] == e;
                                assert(found@[k] == e);
                            } else {
                                assert(e == entity);
                            }
                        }
                    }
                }
            } else {
                proof {
                    assert forall|e: Entity| found@.contains(e) <==> self.has(e) && e.index < i
                        + 1 by {
                        if self.has(e) && e.index < i + 1 {
                            assert(e.index != i);
                        }
                    }
                }
            }
            i = i + 1;
        }
        found
    }

    /// Attaches `value` to `entity`, replacing and returning what was there.
    pub fn insert(&mut self, entity: Entity, value: T) -> (previous: Option<T>)
        ensures
            previous == old(self).component(entity),
            final(self).component(entity) == Some(value),
            forall|e: Entity| e != entity ==> final(self).component(e) == old(self).component(e),
            final(self).span() == if entity.index < old(self).span() {
                old(self).span()
            } else {
                entity.index + 1
            },
    {
        let previous = self.get(entity);
        while self.slots.len() <= entity.index
            invariant
                self.slots@.len() >= old(self).slots@.len(),
                forall|i: int|
                    0 <= i < self.slots@.len() ==> self.slots@[i] == if i < old(
                        self,
                    ).slots@.len() {
                        old(self).slots@[i]
                    } else {
                        None
                    },
                self.slots@.len() == old(self).slots@.len() || self.slots@.len() <= entity.index
                    + 1,
            decreases entity.index + 1 - self.slots@.len(),
        {
            self.slots.push(None);
        }
        self.slots[entity.index] = Some(value);
        assert forall|e: Entity| e != entity implies self.component(e) == old(self).component(
            e,
        ) by {
            if e.index < self.slots@.len() {
            }
        }
        previous
    }

    /// Detaches and returns the component of `entity`.
    pub fn remove(&mut self, entity: Entity) -> (previous: Option<T>)
        ensures
            previous == old(self).component(entity),
            final(self).component(entity).is_none(),
            forall|e: Entity| e != entity ==> final(self).component(e) == old(self).component(e),
            final(self).span() == old(self).span(),
    {
        let previous = self.get(entity);
        if entity.index < self.slots.len() {
            self.slots[entity.index] = None;
        }
        previous
    }

    /// Detaches every component.
    pub fn clear(&mut self)
        ensures
            final(self).span() == 0,
            forall|e: Entity| final(self).component(e).is_none(),
    {
        self.slots.clear();
    }
}

} // verus!
