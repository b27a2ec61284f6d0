//! The entity store and component storage. A `World` owns a set of entity
//! slots and, for each component kind, a table mapping slot index to an
//! optional component value. Entities are spawned with a bundle of
//! components inserted atomically, and destroying an entity removes every
//! component it carried and invalidates its handle.

use vstd::prelude::*;

use crate::entity::Entity;

verus! {

/// The value a component table holds for a component kind and a slot index,
/// when the whole bundle `b` has been inserted for that slot: the first
/// entry of the bundle naming kind `c`, if any.
pub open spec fn bundle_lookup<T>(b: Seq<(usize, T)>, c: int) -> Option<T>
    decreases b.len(),
{
    if b.len() == 0 {
        None
    } else if b[0].0 == c {
        Some(b[0].1)
    } else {
        bundle_lookup(b.subrange(1, b.len() as int), c)
    }
}

/// One entity slot: whether it currently holds a live entity, and the
/// generation that a handle must carry to name that entity.
struct Slot {
    alive: bool,
    generation: u64,
}

/// The entity store. `T` is the component value type; component kinds are
/// numbered `0 .. num_components()`, fixed when the world is built.
pub struct World<T> {
    slots: Vec<Slot>,
    /// Indices of dead slots available for reuse.
    free: Vec<usize>,
    /// One table per component kind; `tables[c][i]` is the value of
    /// component kind `c` on the entity in slot `i`, if present.
    tables: Vec<Vec<Option<T>>>,
}

impl<T> World<T> {
    /// How many component kinds this world stores.
    pub closed spec fn num_components(&self) -> nat {
        self.tables@.len()
    }

    /// How many entity slots exist (live or dead).
    pub closed spec fn num_slots(&self) -> nat {
        self.slots@.len()
    }

    /// Whether slot `i` currently holds a live entity.
    pub closed spec fn slot_live(&self, i: int) -> bool {
        0 <= i < self.slots@.len() && self.slots@[i].alive
    }

    /// The generation a handle must carry to name the entity in slot `i`.
    pub closed spec fn slot_generation(&self, i: int) -> u64 {
        self.slots@[i].generation
    }

    /// Whether the handle `e` names a live entity: its slot is live and its
    /// generation matches the slot's current generation.
    pub open spec fn live(&self, e: Entity) -> bool {
        &&& self.slot_live(e.index as int)
        &&& self.slot_generation(e.index as int) == e.generation
    }

    /// The value of component kind `c` on the entity in slot `i`.
    pub closed spec fn comp(&self, c: int, i: int) -> Option<T> {
        self.tables@[c]@[i]
    }

    /// Structural well-formedness: every table covers every slot, the free
    /// list names distinct dead slots, and dead slots carry no components.
    pub closed spec fn wf(&self) -> bool {
        &&& forall|c: int|
            0 <= c < self.tables@.len() ==> (#[trigger] self.tables@[c])@.len()
                == self.slots@.len()
        &&& forall|k: int|
            0 <= k < self.free@.len() ==> (#[trigger] self.free@[k]) < self.slots@.len()
                && !self.slots@[self.free@[k] as int].alive
        &&& forall|k1: int, k2: int|
            0 <= k1 < k2 < self.free@.len() ==> #[trigger] self.free@[k1]
                != #[trigger] self.free@[k2]
        &&& forall|c: int, i: int|
            0 <= c < self.tables@.len() && 0 <= i < self.slots@.len()
                && !self.slots@[i].alive ==> (#[trigger] self.tables@[c]@[i]) is None
    }

    /// A slot count is the length of a vector, so it fits the machine's
    /// word size.
    pub proof fn lemma_num_slots_fits(&self)
        ensures
            self.num_slots() <= usize::MAX,
    {
        broadcast use vstd::std_specs::vec::axiom_spec_len;

        assert(vstd::std_specs::vec::spec_vec_len(&self.slots) <= usize::MAX);
    }

    /// A live slot's index lies below the slot count.
    pub broadcast proof fn lemma_slot_live_in_range(&self, i: int)
        ensures
            #[trigger] self.slot_live(i) ==> 0 <= i < self.num_slots(),
    {
    }

    /// In a well-formed world a dead slot holds no component of any kind.
    pub proof fn lemma_dead_slot_is_empty(&self, c: int, i: int)
        requires
            self.wf(),
            0 <= c < self.num_components(),
            0 <= i < self.num_slots(),
            !self.slot_live(i),
        ensures
            self.comp(c, i) is None,
    {
    }

    /// Builds an empty world storing `num_components` component kinds.
    pub fn new(num_components: usize) -> (w: World<T>)
        ensures
            w.wf(),
            w.num_components() == num_components,
            w.num_slots() == 0,
            forall|e: Entity| !(#[trigger] w.live(e)),
    {
        let mut tables: Vec<Vec<Option<T>>> = Vec::new();
        let mut c: usize = 0;
        while c < num_components
            invariant
                c <= num_components,
                tables@.len() == c,
                forall|k: int| 0 <= k < c ==> (#[trigger] tables@[k])@.len() == 0,
            decreases num_components - c,
        {
            tables.push(Vec::new());
            c = c + 1;
        }
        World { slots: Vec::new(), free: Vec::new(), tables }
    }

    /// How many component kinds this world stores.
    pub fn component_count(&self) -> (n: usize)
        ensures
            n == self.num_components(),
    {
        self.tables.len()
    }

    /// How many entity slots exist, live or dead. Slot indices below this
    /// bound are the domain queries iterate over.
    pub fn slot_count(&self) -> (n: usize)
        ensures
            n == self.num_slots(),
    {
        self.slots.len()
    }

    /// Whether `e` names a live entity.
    pub fn is_live(&self, e: Entity) -> (r: bool)
        ensures
            r == self.live(e),
    {
        e.index < self.slots.len() && self.slots[e.index].alive
            && self.slots[e.index].generation == e.generation
    }

    /// The live entity in slot `i`, if the slot holds one.
    pub fn entity_at(&self, i: usize) -> (r: Option<Entity>)
        ensures
            match r {
                Some(e) => self.slot_live(i as int) && e.index == i && e.generation
                    == self.slot_generation(i as int) && self.live(e),
                None => !self.slot_live(i as int),
            },
    {
        if i < self.slots.len() && self.slots[i].alive {
            Some(Entity { index: i, generation: self.slots[i].generation })
        } else {
            None
        }
    }

    /// Whether the entity in slot `i` carries component kind `c`. Out of
    /// range kinds or slots carry nothing.
    pub fn has_at(&self, c: usize, i: usize) -> (r: bool)
        requires
            self.wf(),
        ensures
            r == (c < self.num_components() && i < self.num_slots() && self.comp(
                c as int,
                i as int,
            ) is Some),
    {
        c < self.tables.len() && i < self.slots.len() && self.tables[c][i].is_some()
    }

    /// Whether the live entity `e` carries component kind `c`.
    pub fn has(&self, e: Entity, c: usize) -> (r: bool)
        requires
            self.wf(),
        ensures
            r == (self.live(e) && c < self.num_components() && self.comp(
                c as int,
                e.index as int,
            ) is Some),
    {
        self.is_live(e) && self.has_at(c, e.index)
    }

    /// Borrows the value of component kind `c` on entity `e`. Absent when
    /// `e` is not live, when `c` is out of range, or when the entity does
    /// not carry the component.
    pub fn get(&self, e: Entity, c: usize) -> (r: Option<&T>)
        requires
            self.wf(),
        ensures
            match r {
                Some(v) => self.live(e) && c < self.num_components() && self.comp(
                    c as int,
                    e.index as int,
                ) == Some(*v),
                None => !(self.live(e) && c < self.num_components() && self.comp(
                    c as int,
                    e.index as int,
                ) is Some),
            },
    {
        if self.is_live(e) && c < self.tables.len() && e.index < self.slots.len() {
            match &self.tables[c][e.index] {
                Some(v) => Some(v),
                None => None,
            }
        } else {
            None
        }
    }

    /// Spawns a fresh entity carrying exactly the components of `bundle`,
    /// inserted atomically: no observer between calls ever sees the entity
    /// with only part of its bundle. When a kind occurs twice in the
    /// bundle, the earliest entry wins. The handle returned is distinct
    /// from every handle that was live before the call.
    pub fn spawn(&mut self, bundle: Vec<(usize, T)>) -> (e: Entity)
        requires
            old(self).wf(),
            forall|j: int|
                0 <= j < bundle@.len() ==> (#[trigger] bundle@[j]).0 < old(self).num_components(),
        ensures
            final(self).wf(),
            final(self).num_components() == old(self).num_components(),
            final(self).live(e),
            e.index < final(self).num_slots(),
            !old(self).live(e),
            forall|e2: Entity|
                #[trigger] old(self).live(e2) ==> final(self).live(e2) && e2 != e,
            old(self).num_slots() <= final(self).num_slots(),
            forall|i: int|
                0 <= i < old(self).num_slots() && i != e.index ==> final(self).slot_live(i)
                    == old(self).slot_live(i)
                    && final(self).slot_generation(i) == old(self).slot_generation(i),
            forall|c: int, i: int|
                0 <= c < old(self).num_components() && 0 <= i < old(self).num_slots() && i
                    != e.index ==> final(self).comp(c, i) == old(self).comp(c, i),
            forall|c: int|
                0 <= c < old(self).num_components() ==> final(self).comp(c, e.index as int)
                    == bundle_lookup(bundle@, c),
    {
        let idx: usize;
        match self.free.pop() {
            Some(i) => {
                idx = i;
                let g = self.slots[idx].generation;
                self.slots[idx] = Slot { alive: true, generation: g };
            },
            None => {
                idx = self.slots.len();
                let nc = self.tables.len();
                let mut c: usize = 0;
                while c < nc
                    invariant
                        old(self).wf(),
                        c <= nc,
                        nc == old(self).num_components(),
                        self.slots@ == old(self).slots@,
                        self.free@ == old(self).free@,
                        self.tables@.len() == nc,
                        forall|k: int|
                            0 <= k < c ==> (#[trigger] self.tables@[k])@
                                == old(self).tables@[k]@.push(None),
                        forall|k: int|
                            c <= k < nc ==> (#[trigger] self.tables@[k])@
                                == old(self).tables@[k]@,
                    decreases nc - c,
                {
                    self.tables[c].push(None);
                    c = c + 1;
                }
                self.slots.push(Slot { alive: true, generation: 0 });
            },
        }
        let gen = self.slots[idx].generation;
        let ghost mid = *self;
        let mut b = bundle;
        while b.len() > 0
            invariant
                self.tables@.len() == mid.tables@.len(),
                self.slots@ == mid.slots@,
                self.free@ == mid.free@,
                idx < self.slots@.len(),
                forall|k: int|
                    0 <= k < self.tables@.len() ==> (#[trigger] self.tables@[k])@.len()
                        == self.slots@.len(),
                forall|k: int, i: int|
                    0 <= k < self.tables@.len() && 0 <= i < self.slots@.len() && i != idx
                        ==> #[trigger] self.tables@[k]@[i] == mid.tables@[k]@[i],
                b@.len() <= bundle@.len(),
                b@ == bundle@.subrange(0, b@.len() as int),
                forall|j: int|
                    0 <= j < bundle@.len() ==> (#[trigger] bundle@[j]).0 < self.tables@.len(),
                forall|k: int|
                    0 <= k < self.tables@.len() ==> #[trigger] self.tables@[k]@[idx as int]
                        == bundle_lookup(
                        bundle@.subrange(b@.len() as int, bundle@.len() as int),
                        k,
                    ),
            decreases b.len(),
        {
            let ghost m = b@.len() as int;
            if let Some((c, v)) = b.pop() {
                proof {
                    assert(b@ =~= bundle@.subrange(0, m - 1));
                    assert(bundle@.subrange(0, m)[m - 1] == bundle@[m - 1]);
                }
                self.tables[c][idx] = Some(v);
                proof {
                    let suff = bundle@.subrange(m - 1, bundle@.len() as int);
                    assert(suff[0] == bundle@[m - 1]);
                    assert(suff.subrange(1, suff.len() as int) =~= bundle@.subrange(
                        m,
                        bundle@.len() as int,
                    ));
                }
            }
        }
        proof {
            assert(bundle@.subrange(0, bundle@.len() as int) =~= bundle@);
        }
        Entity { index: idx, generation: gen }
    }

    /// Destroys the entity named by `e`: removes every component it
    /// carried, marks its slot dead and bumps the slot's generation, so the
    /// handle (and every copy of it) is invalid from here on. Destroying a
    /// dead or stale handle is a no-op that reports `false`.
    pub fn destroy(&mut self, e: Entity) -> (was_live: bool)
        requires
            old(self).wf(),
        ensures
            final(self).wf(),
            was_live == old(self).live(e),
            final(self).num_components() == old(self).num_components(),
            final(self).num_slots() == old(self).num_slots(),
            !final(self).live(e),
            was_live ==> !final(self).slot_live(e.index as int),
            was_live ==> forall|c: int|
                0 <= c < old(self).num_components() ==> final(self).comp(
                    c,
                    e.index as int,
                ) is None,
            forall|i: int|
                0 <= i < old(self).num_slots() && i != e.index ==> final(self).slot_live(i)
                    == old(self).slot_live(i)
                    && final(self).slot_generation(i) == old(self).slot_generation(i),
            forall|c: int, i: int|
                0 <= c < old(self).num_components() && 0 <= i < old(self).num_slots() && i
                    != e.index ==> final(self).comp(c, i) == old(self).comp(c, i),
            forall|e2: Entity| e2 != e ==> final(self).live(e2) == old(self).live(e2),
            !was_live ==> *final(self) == *old(self),
    {
        if !self.is_live(e) {
            return false;
        }
        let idx = e.index;
        let nc = self.tables.len();
        let mut c: usize = 0;
        while c < nc
            invariant
                old(self).wf(),
                old(self).slot_live(idx as int),
                c <= nc,
                idx < self.slots@.len(),
                nc == old(self).num_components(),
                self.slots@ == old(self).slots@,
                self.free@ == old(self).free@,
                self.tables@.len() == nc,
                forall|k: int|
                    0 <= k < nc ==> (#[trigger] self.tables@[k])@.len() == self.slots@.len(),
                forall|k: int| 0 <= k < c ==> (#[trigger] self.tables@[k])@[idx as int] is None,
                forall|k: int, i: int|
                    0 <= k < nc && 0 <= i < self.slots@.len() && i != idx
                        ==> #[trigger] self.tables@[k]@[i] == old(self).tables@[k]@[i],
            decreases nc - c,
        {
            self.tables[c][idx] = None;
            c = c + 1;
        }
        let g = self.slots[idx].generation;
        proof {
            assert(forall|k: int|
                0 <= k < self.free@.len() ==> (#[trigger] self.free@[k]) != idx);
        }
        if g < u64::MAX {
            self.slots[idx] = Slot { alive: false, generation: g + 1 };
            self.free.push(idx);
        } else {
            self.slots[idx] = Slot { alive: false, generation: g };
        }
        true
    }

    /// Adds or replaces component kind `c` on entity `e`. Returns whether
    /// the write happened; a dead handle or an out-of-range kind is
    /// rejected and leaves the world unchanged.
    pub fn insert(&mut self, e: Entity, c: usize, value: T) -> (ok: bool)
        requires
            old(self).wf(),
        ensures
            final(self).wf(),
            ok == (old(self).live(e) && c < old(self).num_components()),
            final(self).num_components() == old(self).num_components(),
            final(self).num_slots() == old(self).num_slots(),
            forall|i: int|
                final(self).slot_live(i) == old(self).slot_live(i)
                    && final(self).slot_generation(i) == old(self).slot_generation(i),
            ok ==> final(self).comp(c as int, e.index as int) == Some(value),
            forall|c2: int, i: int|
                0 <= c2 < old(self).num_components() && 0 <= i < old(self).num_slots() && !(ok
                    && c2 == c && i == e.index) ==> final(self).comp(c2, i) == old(self).comp(
                    c2,
                    i,
                ),
            !ok ==> *final(self) == *old(self),
    {
        if self.is_live(e) && c < self.tables.len() {
            self.tables[c][e.index] = Some(value);
            true
        } else {
            false
        }
    }

    /// Takes component kind `c` off entity `e`, returning its value. A dead
    /// handle, an out-of-range kind, or an absent component yields nothing;
    /// only a present component changes the world.
    pub fn remove(&mut self, e: Entity, c: usize) -> (r: Option<T>)
        requires
            old(self).wf(),
        ensures
            final(self).wf(),
            final(self).num_components() == old(self).num_components(),
            final(self).num_slots() == old(self).num_slots(),
            forall|i: int|
                final(self).slot_live(i) == old(self).slot_live(i)
                    && final(self).slot_generation(i) == old(self).slot_generation(i),
            old(self).live(e) && c < old(self).num_components() ==> {
                &&& r == old(self).comp(c as int, e.index as int)
                &&& final(self).comp(c as int, e.index as int) is None
            },
            !(old(self).live(e) && c < old(self).num_components()) ==> r is None && *final(self)
                == *old(self),
            forall|c2: int, i: int|
                0 <= c2 < old(self).num_components() && 0 <= i < old(self).num_slots() && !(c2
                    == c && i == e.index) ==> final(self).comp(c2, i) == old(self).comp(c2, i),
    {
        if self.is_live(e) && c < self.tables.len() {
            self.tables[c][e.index].take()
        } else {
            None
        }
    }
}

} // verus!
