//! Fixed-capacity slot storage addressed by generational identifiers.
use vstd::prelude::*;

verus! {

/// Names a resource while it lives: its slot, and how many times that slot
/// had been emptied when the resource was put there.
#[derive(Debug, Clone, Copy, PartialEq, Eq, Structural, Hash)]
pub struct ResourceId {
    pub index: usize,
    pub generation: u64,
}

/// The arena had no slot left to give.
#[derive(Debug, Clone, Copy, PartialEq, Eq, Structural)]
pub enum ArenaError {
    CapacityExceeded,
}

/// One place of the arena.
#[derive(Debug)]
pub struct Slot<T> {
    pub generation: u64,
    pub item: Option<T>,
}

/// Storage for at most a fixed number of resources. Every slot is made when
/// the arena is, and a slot that is emptied gets a new generation, so that
/// an identifier of the resource that left it never names its successor.
/// A slot whose generation can grow no more is retired.
#[derive(Debug)]
pub struct Arena<T> {
    slots: Vec<Slot<T>>,
    free: Vec<usize>,
}

impl<T> Arena<T> {
    /// The slots, in order.
    pub closed spec fn slots(&self) -> Seq<Slot<T>> {
        self.slots@
    }

    /// The number of slots, fixed at construction.
    pub open spec fn capacity(&self) -> nat {
        self.slots().len()
    }

    /// The generation of slot `i`.
    pub open spec fn generation_at(&self, i: int) -> u64 {
        self.slots()[i].generation
    }

    /// `id` names a resource that is in the arena now.
    pub open spec fn is_live(&self, id: ResourceId) -> bool {
        &&& id.index < self.capacity()
        &&& self.slots()[id.index as int].item is Some
        &&& self.slots()[id.index as int].generation == id.generation
    }

    /// Slot `i` can take a new resource.
    pub open spec fn is_open(&self, i: int) -> bool {
        &&& 0 <= i < self.capacity()
        &&& self.slots()[i].item is None
        &&& self.slots()[i].generation < u64::MAX
    }

    /// Some slot can take a new resource.
    pub open spec fn has_room(&self) -> bool {
        exists|i: int| self.is_open(i)
    }

    /// The free list holds exactly the open slots, each once.
    pub closed spec fn wf(&self) -> bool {
        &&& self.slots@.len() <= usize::MAX
        &&& forall|j: int| 0 <= j < self.free@.len() ==> self.is_open(self.free@[j] as int)
        &&& forall|j: int, k: int| 0 <= j < k < self.free@.len() ==> self.free@[j] != self.free@[k]
        &&& forall|i: int| self.is_open(i) ==> self.free@.contains(i as usize)
        &&& forall|i: int| 0 <= i < self.capacity() && self.slots()[i].item is Some
            ==> self.slots()[i].generation < u64::MAX
    }

    /// An arena of `capacity` empty slots, each at generation zero.
    pub fn new(capacity: usize) -> (r: Arena<T>)
        ensures
            r.wf(),
            r.capacity() == capacity,
            forall|i: int| 0 <= i < capacity ==> (#[trigger] r.slots()[i]).item is None && r.slots()[i].generation == 0,
    {
        let mut slots: Vec<Slot<T>> = Vec::with_capacity(capacity);
        let mut free: Vec<usize> = Vec::with_capacity(capacity);
        let mut i: usize = 0;
        while i < capacity
            invariant
                i <= capacity,
                slots@.len() == i,
                free@.len() == i,
                forall|j: int| 0 <= j < i ==> slots@[j].item is None && slots@[j].generation == 0,
                forall|j: int| 0 <= j < i ==> free@[j] == (i - 1 - j) as usize,
            decreases capacity - i,
        {
            slots.push(Slot { generation: 0, item: None });
            free.insert(0, i);
            i = i + 1;
        }
        let r = Arena { slots, free };
        assert forall|k: int| r.is_open(k) implies r.free@.contains(k as usize) by {
            assert(r.free@[i - 1 - k] == k as usize);
        }
        r
    }

    /// How many slots the arena has.
    pub fn capacity_of(&self) -> (r: usize)
        ensures
            r == self.capacity(),
    {
        self.slots.len()
    }

    /// Puts `item` in an open slot and returns its new identifier, or fails
    /// when no slot is open. Only that slot changes.
    pub fn insert(&mut self, item: T) -> (r: Result<ResourceId, ArenaError>)
        requires
            old(self).wf(),
        ensures
            final(self).wf(),
            final(self).capacity() == old(self).capacity(),
            r is Err <==> !old(self).has_room(),
            forall|i: int| 0 <= i < old(self).capacity()
                ==> final(self).generation_at(i) >= old(self).generation_at(i),
            r is Err ==> final(self).slots() == old(self).slots(),
            r matches Ok(id) ==> {
                &&& old(self).is_open(id.index as int)
                &&& id.generation == old(self).generation_at(id.index as int)
                &&& final(self).slots()[id.index as int].item == Some(item)
                &&& final(self).is_live(id)
                &&& forall|i: int| 0 <= i < old(self).capacity() && i != id.index
                    ==> final(self).slots()[i] == old(self).slots()[i]
            },
    {
        if self.free.len() == 0 {
            proof {
                assert forall|i: int| !self.is_open(i) by {
                    if self.is_open(i) {
                        assert(self.free@.contains(i as usize));
                    }
                }
            }
            return Err(ArenaError::CapacityExceeded);
        }
        let index = self.free.pop().unwrap();
        proof {
            assert(old(self).free@[old(self).free@.len() - 1] == index);
        }
        let generation = self.slots[index].generation;
        self.slots.set(index, Slot { generation, item: Some(item) });
        proof {
            let last = old(self).free@.len() - 1;
            assert(old(self).is_open(index as int));
            assert forall|j: int| 0 <= j < self.free@.len() implies self.is_open(self.free@[j] as int) by {
                assert(old(self).free@[j] == self.free@[j]);
                assert(old(self).free@[j] != old(self).free@[last]);
            }
            assert forall|i: int| self.is_open(i) implies self.free@.contains(i as usize) by {
                assert(old(self).is_open(i));
                assert(old(self).free@.contains(i as usize));
                assert(self.slots@[index as int].item is Some);
                assert(i != index as int);
                assert((i as usize) as int == i);
                let j = choose|j: int| 0 <= j < old(self).free@.len() && old(self).free@[j] == i as usize;
                assert(old(self).free@[last] == index);
                assert(old(self).free@[j] != index);
                assert(j != last);
                assert(self.free@[j] == i as usize);
            }
        }
        Ok(ResourceId { index, generation })
    }

    /// The resource that `id` names, if it still lives.
    pub fn get(&self, id: ResourceId) -> (r: Option<&T>)
        ensures
            r is Some <==> self.is_live(id),
            r matches Some(x) ==> self.slots()[id.index as int].item == Some(*x),
    {
        if id.index < self.slots.len() && self.slots[id.index].generation == id.generation {
            match &self.slots[id.index].item {
                Some(x) => Some(x),
                None => None,
            }
        } else {
            None
        }
    }

    /// The identifier of the resource in slot `index`, if one is there.
    pub fn id_at(&self, index: usize) -> (r: Option<ResourceId>)
        ensures
            r is Some <==> index < self.capacity() && self.slots()[index as int].item is Some,
            r matches Some(id) ==> id.index == index && self.is_live(id),
    {
        if index < self.slots.len() && self.slots[index].item.is_some() {
            Some(ResourceId { index, generation: self.slots[index].generation })
        } else {
            None
        }
    }

    /// Puts `item` in place of the resource that `id` names, if it still
    /// lives, and returns the resource it replaced; the generation stays, so
    /// `id` still names it.
    pub fn replace(&mut self, id: ResourceId, item: T) -> (r: Option<T>)
        requires
            old(self).wf(),
        ensures
            final(self).wf(),
            final(self).capacity() == old(self).capacity(),
            r is Some <==> old(self).is_live(id),
            r is Some ==> r == old(self).slots()[id.index as int].item,
            forall|i: int| 0 <= i < old(self).capacity()
                ==> final(self).generation_at(i) >= old(self).generation_at(i),
            r is None ==> final(self).slots() == old(self).slots(),
            r is Some ==> final(self).slots()[id.index as int].item == Some(item)
                && final(self).generation_at(id.index as int) == id.generation
                && forall|i: int| 0 <= i < old(self).capacity() && i != id.index
                    ==> final(self).slots()[i] == old(self).slots()[i],
    {
        if id.index >= self.slots.len() || self.slots[id.index].generation != id.generation
            || self.slots[id.index].item.is_none() {
            return None;
        }
        let mut slot = Slot { generation: id.generation, item: Some(item) };
        std::mem::swap(&mut slot, &mut self.slots[id.index]);
        proof {
            assert forall|j: int| 0 <= j < self.free@.len() implies self.is_open(self.free@[j] as int) by {
                assert(old(self).is_open(self.free@[j] as int));
            }
            assert forall|i: int| self.is_open(i) implies self.free@.contains(i as usize) by {
                assert(old(self).is_open(i));
            }
        }
        slot.item
    }

    /// Takes out the resource that `id` names, if it still lives. Its slot
    /// moves to the next generation; no other slot changes.
    pub fn remove(&mut self, id: ResourceId) -> (r: Option<T>)
        requires
            old(self).wf(),
        ensures
            final(self).wf(),
            final(self).capacity() == old(self).capacity(),
            r is Some <==> old(self).is_live(id),
            forall|i: int| 0 <= i < old(self).capacity()
                ==> final(self).generation_at(i) >= old(self).generation_at(i),
            r is None ==> final(self).slots() == old(self).slots(),
            r is Some ==> {
                &&& r == old(self).slots()[id.index as int].item
                &&& final(self).slots()[id.index as int].item is None
                &&& final(self).generation_at(id.index as int) == id.generation + 1
                &&& forall|i: int| 0 <= i < old(self).capacity() && i != id.index
                    ==> final(self).slots()[i] == old(self).slots()[i]
            },
    {
        if id.index >= self.slots.len() || self.slots[id.index].generation != id.generation
            || self.slots[id.index].item.is_none() {
            return None;
        }
        let index = id.index;
        let mut emptied = Slot { generation: id.generation + 1, item: None };
        std::mem::swap(&mut emptied, &mut self.slots[index]);
        proof {
            assert forall|j: int| 0 <= j < self.free@.len() implies self.is_open(self.free@[j] as int) by {
                assert(old(self).is_open(self.free@[j] as int));
            }
        }
        if emptied.generation + 1 < u64::MAX {
            proof {
                assert(!self.free@.contains(index)) by {
                    if self.free@.contains(index) {
                        let j = choose|j: int| 0 <= j < self.free@.len() && self.free@[j] == index;
                        assert(old(self).is_open(index as int));
                    }
                }
            }
            self.free.push(index);
            proof {
                assert forall|i: int| self.is_open(i) implies self.free@.contains(i as usize) by {
                    if i != index {
                        assert(old(self).is_open(i));
                        assert(old(self).free@.contains(i as usize));
                        let j = choose|j: int| 0 <= j < old(self).free@.len() && old(self).free@[j] == i as usize;
                        assert(self.free@[j] == i as usize);
                    } else {
                        assert(self.free@[self.free@.len() - 1] == index);
                    }
                }
            }
        } else {
            proof {
                assert forall|i: int| self.is_open(i) implies self.free@.contains(i as usize) by {
                    assert(old(self).is_open(i));
                }
            }
        }
        emptied.item
    }
}

/// Every resource in `a` satisfies `p`.
pub open spec fn all_items<T>(a: &Arena<T>, p: spec_fn(T) -> bool) -> bool {
    forall|i: int| 0 <= i < a.capacity() ==> ((#[trigger] a.slots()[i]).item matches Some(x) ==> p(x))
}

/// A property of every resource survives a change to one slot whose new
/// resource, if any, has it too.
pub proof fn lemma_all_items_kept<T>(before: &Arena<T>, after: &Arena<T>, index: int, p: spec_fn(T) -> bool)
    requires
        all_items(before, p),
        after.capacity() == before.capacity(),
        forall|i: int| 0 <= i < before.capacity() && i != index ==> after.slots()[i] == before.slots()[i],
        0 <= index < after.capacity() ==> (after.slots()[index].item matches Some(x) ==> p(x)),
    ensures
        all_items(after, p),
{
    assert forall|i: int| 0 <= i < after.capacity() implies
        ((#[trigger] after.slots()[i]).item matches Some(x) ==> p(x)) by {
        if i != index {
            assert(after.slots()[i] == before.slots()[i]);
        }
    }
}

/// Two identifiers that are live in one arena at once and share a slot are
/// the same identifier: live identifiers never coincide by accident.
pub proof fn lemma_live_ids_distinct<T>(a: &Arena<T>, x: ResourceId, y: ResourceId)
    requires
        a.is_live(x),
        a.is_live(y),
    ensures
        x.index == y.index <==> x == y,
{
}

/// An identifier whose slot has passed its generation names nothing, now or
/// after any later insert or remove, since generations only grow.
pub proof fn lemma_stale_id_not_live<T>(a: &Arena<T>, id: ResourceId)
    requires
        id.index < a.capacity(),
        a.generation_at(id.index as int) > id.generation,
    ensures
        !a.is_live(id),
{
}

/// An identifier issued for a slot after an earlier resource there was
/// removed differs from the removed one's identifier: removal moved the
/// slot past that generation, and generations never go back.
pub proof fn lemma_reissued_id_is_new<T>(
    before: &Arena<T>,
    after: &Arena<T>,
    removed: ResourceId,
    issued: ResourceId,
)
    requires
        removed.index < before.capacity(),
        before.generation_at(removed.index as int) > removed.generation,
        after.capacity() == before.capacity(),
        forall|i: int| 0 <= i < before.capacity() ==> after.generation_at(i) >= before.generation_at(i),
        after.is_live(issued),
        issued.index == removed.index,
    ensures
        issued != removed,
{
}

} // verus!
