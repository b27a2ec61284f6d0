//! The query engine. A signature names component kinds an entity must
//! carry and kinds it must not; a query walks the world's slots in index
//! order and yields every live entity satisfying the signature. The order
//! is a fixed function of the world's state, so repeated queries over an
//! unchanged world yield the same sequence.

use vstd::prelude::*;

use crate::entity::Entity;
use crate::world::World;
use crate::world::bundle_lookup;

verus! {

/// A query signature: component kinds a live entity must carry
/// (`required`) and kinds it must not carry (`excluded`).
pub struct Signature {
    pub required: Vec<usize>,
    pub excluded: Vec<usize>,
}

impl Signature {
    /// Every kind the signature names exists in a world with
    /// `num_components` component kinds.
    pub open spec fn wf(&self, num_components: nat) -> bool {
        &&& forall|k: int|
            0 <= k < self.required@.len() ==> (#[trigger] self.required@[k]) < num_components
        &&& forall|k: int|
            0 <= k < self.excluded@.len() ==> (#[trigger] self.excluded@[k]) < num_components
    }
}

/// Whether the entity in slot `i` satisfies `sig`: the slot is live, every
/// required kind is present, and no excluded kind is.
pub open spec fn slot_matches<T>(w: &World<T>, sig: &Signature, i: int) -> bool {
    &&& w.slot_live(i)
    &&& forall|k: int|
        0 <= k < sig.required@.len() ==> w.comp((#[trigger] sig.required@[k]) as int, i) is Some
    &&& forall|k: int|
        0 <= k < sig.excluded@.len() ==> !(w.comp((#[trigger] sig.excluded@[k]) as int, i) is Some)
}

/// The entities of the slots below `n` that satisfy `sig`, in slot order.
pub open spec fn matched_up_to<T>(w: &World<T>, sig: &Signature, n: int) -> Seq<Entity>
    decreases n,
{
    if n <= 0 {
        Seq::empty()
    } else if slot_matches(w, sig, n - 1) {
        matched_up_to(w, sig, n - 1).push(
            Entity { index: (n - 1) as usize, generation: w.slot_generation(n - 1) },
        )
    } else {
        matched_up_to(w, sig, n - 1)
    }
}

/// Every entity currently satisfying `sig`, in slot order.
pub open spec fn matched_entities<T>(w: &World<T>, sig: &Signature) -> Seq<Entity> {
    matched_up_to(w, sig, w.num_slots() as int)
}

/// An entity appears among the matches exactly when it is live and its
/// slot satisfies the signature.
pub proof fn lemma_matched_up_to_contains<T>(w: &World<T>, sig: &Signature, n: int, e: Entity)
    requires
        0 <= n <= w.num_slots(),
    ensures
        matched_up_to(w, sig, n).contains(e) <==> (e.index < n && slot_matches(
            w,
            sig,
            e.index as int,
        ) && e.generation == w.slot_generation(e.index as int)),
    decreases n,
{
    broadcast use vstd::seq_lib::lemma_seq_contains_after_push;
    broadcast use World::lemma_slot_live_in_range;

    w.lemma_num_slots_fits();
    if n > 0 {
        lemma_matched_up_to_contains(w, sig, n - 1, e);
        if slot_matches(w, sig, n - 1) {
            let prev = matched_up_to(w, sig, n - 1);
            let last = Entity { index: (n - 1) as usize, generation: w.slot_generation(n - 1) };
            assert(matched_up_to(w, sig, n) == prev.push(last));
            if e.index < n && slot_matches(w, sig, e.index as int) && e.generation
                == w.slot_generation(e.index as int) && e.index == n - 1 {
                assert(e == last);
            }
        }
    }
}

/// An entity is among a query's results exactly when it is live and its
/// slot satisfies the signature. In particular a destroyed entity is
/// yielded by no query at all.
pub proof fn lemma_query_contains<T>(w: &World<T>, sig: &Signature, e: Entity)
    ensures
        matched_entities(w, sig).contains(e) <==> (w.live(e) && slot_matches(
            w,
            sig,
            e.index as int,
        )),
{
    broadcast use World::lemma_slot_live_in_range;

    lemma_matched_up_to_contains(w, sig, w.num_slots() as int, e);
}

/// Whether `sig` can never be satisfied, whatever the world holds: some
/// component kind is both required and excluded. A singleton query built
/// on such a signature is a configuration error, detectable before any
/// system runs.
pub fn signature_unsatisfiable(sig: &Signature) -> (r: bool)
    ensures
        r == crate::schedule::overlaps(sig.required@, sig.excluded@),
{
    crate::schedule::vecs_overlap(&sig.required, &sig.excluded)
}

/// A signature requiring and excluding the same kind matches no entity in
/// any world.
pub proof fn lemma_unsatisfiable_matches_nothing<T>(w: &World<T>, sig: &Signature, i: int)
    requires
        crate::schedule::overlaps(sig.required@, sig.excluded@),
    ensures
        !slot_matches(w, sig, i),
{
    let k = choose|k: int|
        0 <= k < sig.required@.len() && sig.excluded@.contains(#[trigger] sig.required@[k]);
    let k2 = choose|k2: int| 0 <= k2 < sig.excluded@.len() && sig.excluded@[k2] == sig.required@[k];
    if slot_matches(w, sig, i) {
        assert(w.comp(sig.required@[k] as int, i) is Some);
        assert(!(w.comp(sig.excluded@[k2] as int, i) is Some));
    }
}

/// Destroy removes all traces: a handle that is not live — as any handle
/// is after `destroy` — is yielded by no query, whatever the signature.
pub proof fn lemma_dead_entity_not_matched<T>(w: &World<T>, sig: &Signature, e: Entity)
    requires
        !w.live(e),
    ensures
        !matched_entities(w, sig).contains(e),
{
    lemma_query_contains(w, sig, e);
}

/// Spawn atomicity seen through queries: a live entity whose components
/// are exactly those of a bundle — as the entity `spawn` returns — is
/// matched by every signature whose required kinds the bundle all carries
/// and whose excluded kinds it carries not at all. The whole bundle
/// becomes visible at once; no query observes a partial one.
pub proof fn lemma_spawned_entity_matches<T>(
    w: &World<T>,
    sig: &Signature,
    e: Entity,
    bundle: Seq<(usize, T)>,
)
    requires
        w.live(e),
        sig.wf(w.num_components()),
        forall|c: int|
            0 <= c < w.num_components() ==> #[trigger] w.comp(c, e.index as int) == bundle_lookup(
                bundle,
                c,
            ),
        forall|k: int|
            0 <= k < sig.required@.len() ==> bundle_lookup(
                bundle,
                (#[trigger] sig.required@[k]) as int,
            ) is Some,
        forall|k: int|
            0 <= k < sig.excluded@.len() ==> bundle_lookup(
                bundle,
                (#[trigger] sig.excluded@[k]) as int,
            ) is None,
    ensures
        matched_entities(w, sig).contains(e),
        slot_matches(w, sig, e.index as int),
{
    broadcast use World::lemma_slot_live_in_range;

    lemma_query_contains(w, sig, e);
    assert forall|k: int|
        0 <= k < sig.required@.len() implies w.comp(
        (#[trigger] sig.required@[k]) as int,
        e.index as int,
    ) is Some by {
        assert(w.comp(sig.required@[k] as int, e.index as int) == bundle_lookup(
            bundle,
            sig.required@[k] as int,
        ));
    }
    assert forall|k: int|
        0 <= k < sig.excluded@.len() implies !(w.comp(
        (#[trigger] sig.excluded@[k]) as int,
        e.index as int,
    ) is Some) by {
        assert(w.comp(sig.excluded@[k] as int, e.index as int) == bundle_lookup(
            bundle,
            sig.excluded@[k] as int,
        ));
    }
}

/// Whether the entity in slot `i` currently satisfies `sig`.
pub fn slot_satisfies<T>(w: &World<T>, sig: &Signature, i: usize) -> (r: bool)
    requires
        w.wf(),
        sig.wf(w.num_components()),
    ensures
        r == slot_matches(w, sig, i as int),
{
    proof {
        broadcast use World::lemma_slot_live_in_range;

    }
    match w.entity_at(i) {
        None => false,
        Some(_) => {
            let mut k: usize = 0;
            while k < sig.required.len()
                invariant
                    w.wf(),
                    sig.wf(w.num_components()),
                    w.slot_live(i as int),
                    i < w.num_slots(),
                    k <= sig.required@.len(),
                    forall|j: int|
                        0 <= j < k ==> w.comp((#[trigger] sig.required@[j]) as int, i as int)
                            is Some,
                decreases sig.required@.len() - k,
            {
                if !w.has_at(sig.required[k], i) {
                    return false;
                }
                k = k + 1;
            }
            let mut k2: usize = 0;
            while k2 < sig.excluded.len()
                invariant
                    w.wf(),
                    sig.wf(w.num_components()),
                    w.slot_live(i as int),
                    i < w.num_slots(),
                    k2 <= sig.excluded@.len(),
                    forall|j: int|
                        0 <= j < k2 ==> !(w.comp((#[trigger] sig.excluded@[j]) as int, i as int)
                            is Some),
                decreases sig.excluded@.len() - k2,
            {
                if w.has_at(sig.excluded[k2], i) {
                    return false;
                }
                k2 = k2 + 1;
            }
            true
        },
    }
}

/// Runs the query: every live entity satisfying `sig`, in slot order. The
/// result is a pure function of the world's current state, so two queries
/// with no mutation in between return the same entities in the same order.
pub fn query<T>(w: &World<T>, sig: &Signature) -> (r: Vec<Entity>)
    requires
        w.wf(),
        sig.wf(w.num_components()),
    ensures
        r@ == matched_entities(w, sig),
{
    let mut r: Vec<Entity> = Vec::new();
    let n = w.slot_count();
    let mut i: usize = 0;
    while i < n
        invariant
            w.wf(),
            sig.wf(w.num_components()),
            n == w.num_slots(),
            i <= n,
            r@ == matched_up_to(w, sig, i as int),
        decreases n - i,
    {
        if slot_satisfies(w, sig, i) {
            match w.entity_at(i) {
                Some(e) => {
                    r.push(e);
                },
                None => {
                    proof {
                        assert(false);
                    }
                },
            }
        }
        i = i + 1;
    }
    r
}

/// Why a singleton query failed: no entity satisfied the signature, or
/// more than one did.
#[derive(Clone, Copy, PartialEq, Eq, Structural, Debug)]
pub enum QueryError {
    NoMatch,
    MultipleMatches,
}

/// Runs the query expecting exactly one match and returns that entity.
/// Zero matches yield `NoMatch` and two or more yield `MultipleMatches`,
/// so a caller relying on a singleton learns of the misuse instead of
/// reading an arbitrary entity.
pub fn query_single<T>(w: &World<T>, sig: &Signature) -> (r: Result<Entity, QueryError>)
    requires
        w.wf(),
        sig.wf(w.num_components()),
    ensures
        r is Ok <==> matched_entities(w, sig).len() == 1,
        matched_entities(w, sig).len() == 1 ==> r == Ok::<Entity, QueryError>(
            matched_entities(w, sig)[0],
        ),
        matched_entities(w, sig).len() == 0 ==> r == Err::<Entity, QueryError>(
            QueryError::NoMatch,
        ),
        matched_entities(w, sig).len() >= 2 ==> r == Err::<Entity, QueryError>(
            QueryError::MultipleMatches,
        ),
{
    let q = query(w, sig);
    if q.len() == 0 {
        Err(QueryError::NoMatch)
    } else if q.len() == 1 {
        Ok(q[0])
    } else {
        Err(QueryError::MultipleMatches)
    }
}

} // verus!
