//! Schedules: named, ordered collections of systems. Each system declares
//! which component kinds it reads and writes; two systems conflict when one
//! writes a kind the other touches, and the conflict relation is computed
//! by an explicit, testable function. `after` constraints form a directed
//! graph over the systems; resolving a schedule yields an execution order
//! honoring every constraint, or reports a cycle before any system runs.

use vstd::prelude::*;

verus! {

broadcast use vstd::seq_lib::lemma_seq_contains_after_push;

/// The component kinds a system reads and the kinds it writes, derived
/// from its query signatures. The executor serializes conflicting systems,
/// so these declarations are what replaces manual locking.
pub struct Access {
    pub reads: Vec<usize>,
    pub writes: Vec<usize>,
}

/// Whether some element of `xs` also occurs in `ys`.
pub open spec fn overlaps(xs: Seq<usize>, ys: Seq<usize>) -> bool {
    exists|k: int| 0 <= k < xs.len() && ys.contains(#[trigger] xs[k])
}

/// Whether two systems may not run concurrently: one writes a component
/// kind the other reads or writes.
pub open spec fn spec_conflicts(a: &Access, b: &Access) -> bool {
    ||| overlaps(a.writes@, b.reads@)
    ||| overlaps(a.writes@, b.writes@)
    ||| overlaps(b.writes@, a.reads@)
}

/// Whether `x` occurs in `v`.
fn vec_contains(v: &Vec<usize>, x: usize) -> (r: bool)
    ensures
        r == v@.contains(x),
{
    let mut k: usize = 0;
    while k < v.len()
        invariant
            k <= v@.len(),
            forall|j: int| 0 <= j < k ==> v@[j] != x,
        decreases v@.len() - k,
    {
        if v[k] == x {
            return true;
        }
        k = k + 1;
    }
    false
}

/// Whether some element of `xs` also occurs in `ys`.
pub(crate) fn vecs_overlap(xs: &Vec<usize>, ys: &Vec<usize>) -> (r: bool)
    ensures
        r == overlaps(xs@, ys@),
{
    let mut k: usize = 0;
    while k < xs.len()
        invariant
            k <= xs@.len(),
            forall|j: int| 0 <= j < k ==> !ys@.contains(#[trigger] xs@[j]),
        decreases xs@.len() - k,
    {
        if vec_contains(ys, xs[k]) {
            return true;
        }
        k = k + 1;
    }
    false
}

/// Decides whether two systems' declared accesses conflict: `a` writes a
/// kind `b` touches, or `b` writes a kind `a` reads. Non-conflicting
/// systems are safe to run concurrently; conflicting ones must be
/// serialized.
pub fn conflicts(a: &Access, b: &Access) -> (r: bool)
    ensures
        r == spec_conflicts(a, b),
{
    vecs_overlap(&a.writes, &b.reads) || vecs_overlap(&a.writes, &b.writes) || vecs_overlap(
        &b.writes,
        &a.reads,
    )
}

/// The conflict graph over a set of system accesses: every unordered pair
/// of distinct systems whose accesses conflict, each pair listed once as
/// `(lower index, higher index)`.
pub fn conflict_pairs(accesses: &Vec<Access>) -> (r: Vec<(usize, usize)>)
    ensures
        forall|p: int|
            0 <= p < r@.len() ==> (#[trigger] r@[p]).0 < r@[p].1 && r@[p].1 < accesses@.len(),
        forall|p: int, p2: int|
            0 <= p < p2 < r@.len() ==> ((#[trigger] r@[p]).0 < (#[trigger] r@[p2]).0 || (r@[p].0
                == r@[p2].0 && r@[p].1 < r@[p2].1)),
        forall|i: int, j: int|
            0 <= i < j < accesses@.len() ==> (r@.contains((i as usize, j as usize))
                <==> spec_conflicts(&accesses@[i], &accesses@[j])),
{
    let n = accesses.len();
    let mut r: Vec<(usize, usize)> = Vec::new();
    let mut i: usize = 0;
    while i < n
        invariant
            i <= n,
            n == accesses@.len(),
            forall|p: int| 0 <= p < r@.len() ==> (#[trigger] r@[p]).0 < r@[p].1 && r@[p].1 < n,
            forall|p: int| 0 <= p < r@.len() ==> (#[trigger] r@[p]).0 < i,
            forall|p: int, p2: int|
                0 <= p < p2 < r@.len() ==> ((#[trigger] r@[p]).0 < (#[trigger] r@[p2]).0 || (
                r@[p].0 == r@[p2].0 && r@[p].1 < r@[p2].1)),
            forall|a: int, b: int|
                0 <= a < b < n && a < i ==> (r@.contains((a as usize, b as usize))
                    <==> spec_conflicts(&accesses@[a], &accesses@[b])),
        decreases n - i,
    {
        let mut j: usize = i + 1;
        while j < n
            invariant
                i < j || j == i + 1,
                i < n,
                i + 1 <= j <= n,
                n == accesses@.len(),
                forall|p: int| 0 <= p < r@.len() ==> (#[trigger] r@[p]).0 < r@[p].1 && r@[p].1 < n,
                forall|p: int|
                    0 <= p < r@.len() ==> (#[trigger] r@[p]).0 < i || (r@[p].0 == i && r@[p].1 < j),
                forall|p: int, p2: int|
                    0 <= p < p2 < r@.len() ==> ((#[trigger] r@[p]).0 < (#[trigger] r@[p2]).0 || (
                    r@[p].0 == r@[p2].0 && r@[p].1 < r@[p2].1)),
                forall|a: int, b: int|
                    0 <= a < b < n && a < i ==> (r@.contains((a as usize, b as usize))
                        <==> spec_conflicts(&accesses@[a], &accesses@[b])),
                forall|b: int|
                    i < b < j ==> (r@.contains((i as usize, b as usize)) <==> spec_conflicts(
                        &accesses@[i as int],
                        &accesses@[b],
                    )),
            decreases n - j,
        {
            if conflicts(&accesses[i], &accesses[j]) {
                r.push((i, j));
            }
            j = j + 1;
        }
        i = i + 1;
    }
    r
}

/// Why building or resolving a schedule failed.
#[derive(Clone, Copy, PartialEq, Eq, Structural, Debug)]
pub enum ScheduleError {
    /// An ordering constraint names a system that was never added.
    UnknownSystem,
    /// The `after` constraints contain a cycle, so no execution order can
    /// honor them all.
    CyclicConstraint,
}

/// Whether `ord` is a lawful execution order for `n` systems under the
/// given `after` edges: a permutation of the system indices in which every
/// edge's predecessor stands before its successor.
pub open spec fn valid_order(n: nat, edges: Seq<(usize, usize)>, ord: Seq<usize>) -> bool {
    &&& ord.len() == n
    &&& forall|i: int| 0 <= i < ord.len() ==> (#[trigger] ord[i]) < n
    &&& ord.no_duplicates()
    &&& forall|s: usize| s < n ==> ord.contains(s)
    &&& forall|k: int, i: int, j: int|
        #![trigger edges[k], ord[i], ord[j]]
        0 <= k < edges.len() && 0 <= i < ord.len() && 0 <= j < ord.len() && ord[i] == edges[k].0
            && ord[j] == edges[k].1 ==> i < j
}

/// Whether any lawful execution order exists for `n` systems under the
/// given edges; false exactly when the constraint graph has a cycle.
pub open spec fn schedulable(n: nat, edges: Seq<(usize, usize)>) -> bool {
    exists|ord: Seq<usize>| #[trigger] valid_order(n, edges, ord)
}

/// Cycle rejection: a pair of mutual `after` constraints — one system
/// after another and that one after the first — admits no lawful order,
/// so resolving such a schedule fails and none of its systems runs.
pub proof fn lemma_two_cycle_unschedulable(
    n: nat,
    edges: Seq<(usize, usize)>,
    k1: int,
    k2: int,
)
    requires
        0 <= k1 < edges.len(),
        0 <= k2 < edges.len(),
        edges[k1].0 == edges[k2].1,
        edges[k1].1 == edges[k2].0,
        edges[k1].0 < n,
        edges[k1].1 < n,
    ensures
        !schedulable(n, edges),
{
    if schedulable(n, edges) {
        let ord = choose|o: Seq<usize>| #[trigger] valid_order(n, edges, o);
        let a = edges[k1].0;
        let b = edges[k1].1;
        assert(ord.contains(a));
        assert(ord.contains(b));
        let p = choose|p: int| 0 <= p < ord.len() && ord[p] == a;
        let q = choose|q: int| 0 <= q < ord.len() && ord[q] == b;
        assert(p < q);
        assert(q < p);
    }
}

/// How many entries of `s` are true.
spec fn count_true(s: Seq<bool>) -> int
    decreases s.len(),
{
    if s.len() == 0 {
        0
    } else {
        count_true(s.drop_last()) + if s.last() {
            1int
        } else {
            0int
        }
    }
}

proof fn lemma_count_true_bounds(s: Seq<bool>)
    ensures
        0 <= count_true(s) <= s.len(),
    decreases s.len(),
{
    if s.len() > 0 {
        lemma_count_true_bounds(s.drop_last());
    }
}

proof fn lemma_count_true_update(s: Seq<bool>, i: int)
    requires
        0 <= i < s.len(),
        !s[i],
    ensures
        count_true(s.update(i, true)) == count_true(s) + 1,
    decreases s.len(),
{
    if i == s.len() - 1 {
        assert(s.update(i, true).drop_last() =~= s.drop_last());
    } else {
        lemma_count_true_update(s.drop_last(), i);
        assert(s.update(i, true).drop_last() =~= s.drop_last().update(i, true));
        assert(s.update(i, true).last() == s.last());
    }
}

proof fn lemma_count_true_full(s: Seq<bool>)
    requires
        count_true(s) == s.len(),
    ensures
        forall|i: int| 0 <= i < s.len() ==> s[i],
    decreases s.len(),
{
    if s.len() > 0 {
        lemma_count_true_bounds(s.drop_last());
        lemma_count_true_full(s.drop_last());
        assert(forall|i: int| 0 <= i < s.len() - 1 ==> s[i] == s.drop_last()[i]);
    }
}

proof fn lemma_count_true_all_true(s: Seq<bool>)
    requires
        forall|i: int| 0 <= i < s.len() ==> s[i],
    ensures
        count_true(s) == s.len(),
    decreases s.len(),
{
    if s.len() > 0 {
        lemma_count_true_all_true(s.drop_last());
    }
}

/// The position of the first entry of `ord` that is not yet placed, given
/// that some entry is not.
proof fn lemma_first_unplaced(placed: Seq<bool>, ord: Seq<usize>) -> (p: int)
    requires
        forall|i: int| 0 <= i < ord.len() ==> (#[trigger] ord[i]) < placed.len(),
        exists|j: int| 0 <= j < ord.len() && !placed[#[trigger] ord[j] as int],
    ensures
        0 <= p < ord.len(),
        !placed[ord[p] as int],
        forall|q: int| 0 <= q < p ==> placed[#[trigger] ord[q] as int],
    decreases ord.len(),
{
    if !placed[ord[0] as int] {
        0
    } else {
        let rest = ord.subrange(1, ord.len() as int);
        let j0 = choose|j: int| 0 <= j < ord.len() && !placed[#[trigger] ord[j] as int];
        assert(rest[j0 - 1] == ord[j0]);
        let p0 = lemma_first_unplaced(placed, rest);
        assert(forall|q: int| 0 <= q < p0 + 1 ==> placed[#[trigger] ord[q] as int]) by {
            assert(forall|q: int| 1 <= q < p0 + 1 ==> ord[q] == rest[q - 1]);
        }
        p0 + 1
    }
}

/// A named, ordered collection of systems. Systems are identified by the
/// index `add_system` returned; `after` constraints are edges from a
/// system that must finish to one that must wait for it.
pub struct Schedule {
    name: String,
    accesses: Vec<Access>,
    constraints: Vec<(usize, usize)>,
}

impl Schedule {
    /// The declared access of every registered system, in registration
    /// order.
    pub closed spec fn systems(&self) -> Seq<Access> {
        self.accesses@
    }

    /// The ordering constraints, each `(before, after)`: the system at the
    /// second index must not begin until the one at the first has finished.
    pub closed spec fn edges(&self) -> Seq<(usize, usize)> {
        self.constraints@
    }

    /// The schedule's name.
    pub closed spec fn spec_name(&self) -> Seq<char> {
        self.name@
    }

    /// Every constraint names registered systems.
    pub open spec fn wf(&self) -> bool {
        forall|k: int|
            0 <= k < self.edges().len() ==> (#[trigger] self.edges()[k]).0 < self.systems().len()
                && self.edges()[k].1 < self.systems().len()
    }

    /// Builds an empty schedule with the given name.
    pub fn new_schedule(name: String) -> (s: Schedule)
        ensures
            s.wf(),
            s.spec_name() == name@,
            s.systems().len() == 0,
            s.edges().len() == 0,
    {
        Schedule { name, accesses: Vec::new(), constraints: Vec::new() }
    }

    /// The schedule's name.
    pub fn name(&self) -> (r: &String)
        ensures
            r@ == self.spec_name(),
    {
        &self.name
    }

    /// How many systems are registered.
    pub fn system_count(&self) -> (n: usize)
        ensures
            n == self.systems().len(),
    {
        self.accesses.len()
    }

    /// Registers a system with the given access declaration and no
    /// ordering constraint, and returns its identifier.
    pub fn add_system(&mut self, access: Access) -> (id: usize)
        requires
            old(self).wf(),
        ensures
            final(self).wf(),
            id == old(self).systems().len(),
            final(self).systems() == old(self).systems().push(access),
            final(self).edges() == old(self).edges(),
            final(self).spec_name() == old(self).spec_name(),
    {
        let id = self.accesses.len();
        self.accesses.push(access);
        proof {
            assert forall|k: int| 0 <= k < self.edges().len() implies ((#[trigger] self.edges()[k]).0
                < self.systems().len() && self.edges()[k].1 < self.systems().len()) by {
                assert(self.edges()[k] == old(self).edges()[k]);
            }
        }
        id
    }

    /// Adds the constraint that the system `after_id` names must not begin
    /// until the one `before` names has finished. Rejects identifiers that
    /// were never returned by `add_system`, leaving the schedule unchanged.
    pub fn add_constraint(&mut self, before: usize, after_id: usize) -> (r: Result<
        (),
        ScheduleError,
    >)
        requires
            old(self).wf(),
        ensures
            final(self).wf(),
            final(self).spec_name() == old(self).spec_name(),
            final(self).systems() == old(self).systems(),
            r is Ok <==> (before < old(self).systems().len() && after_id < old(self).systems().len()),
            r is Ok ==> final(self).edges() == old(self).edges().push((before, after_id)),
            r is Err ==> r == Err::<(), ScheduleError>(ScheduleError::UnknownSystem) && final(self).edges() == old(self).edges(),
    {
        if before < self.accesses.len() && after_id < self.accesses.len() {
            self.constraints.push((before, after_id));
            proof {
                assert forall|k: int| 0 <= k < self.edges().len() implies ((
                #[trigger] self.edges()[k]).0 < self.systems().len() && self.edges()[k].1
                    < self.systems().len()) by {
                    if k < old(self).edges().len() {
                        assert(self.edges()[k] == old(self).edges()[k]);
                    } else {
                        assert(self.edges()[k] == (before, after_id));
                    }
                }
            }
            Ok(())
        } else {
            Err(ScheduleError::UnknownSystem)
        }
    }

    /// Registers a system that must not begin until the system `dep` has
    /// finished. Rejects an unknown `dep`, leaving the schedule unchanged.
    pub fn add_system_after(&mut self, access: Access, dep: usize) -> (r: Result<
        usize,
        ScheduleError,
    >)
        requires
            old(self).wf(),
        ensures
            final(self).wf(),
            final(self).spec_name() == old(self).spec_name(),
            r is Ok <==> dep < old(self).systems().len(),
            r is Ok ==> r == Ok::<usize, ScheduleError>(old(self).systems().len() as usize) && final(self).systems() == old(self).systems().push(access) && final(self).edges() == old(self).edges().push((dep, old(self).systems().len() as usize)),
            r is Err ==> r == Err::<usize, ScheduleError>(ScheduleError::UnknownSystem) && final(self).systems() == old(self).systems() && final(self).edges() == old(self).edges(),
    {
        if dep < self.accesses.len() {
            let id = self.accesses.len();
            self.accesses.push(access);
            self.constraints.push((dep, id));
            proof {
                assert forall|k: int| 0 <= k < self.edges().len() implies ((
                #[trigger] self.edges()[k]).0 < self.systems().len() && self.edges()[k].1
                    < self.systems().len()) by {
                    if k < old(self).edges().len() {
                        assert(self.edges()[k] == old(self).edges()[k]);
                    } else {
                        assert(self.edges()[k] == (dep, id));
                    }
                }
            }
            Ok(id)
        } else {
            Err(ScheduleError::UnknownSystem)
        }
    }

    /// Whether system `s` is ready: every constraint naming it as the
    /// later system has its earlier system already placed.
    fn ready(&self, placed: &Vec<bool>, s: usize) -> (r: bool)
        requires
            self.wf(),
            placed@.len() == self.systems().len(),
        ensures
            r ==> forall|k: int|
                0 <= k < self.edges().len() && (#[trigger] self.edges()[k]).1 == s ==> placed@[self.edges()[k].0 as int],
            !r ==> exists|k: int|
                0 <= k < self.edges().len() && (#[trigger] self.edges()[k]).1 == s
                    && !placed@[self.edges()[k].0 as int],
    {
        let mut k: usize = 0;
        while k < self.constraints.len()
            invariant
                self.wf(),
                placed@.len() == self.systems().len(),
                k <= self.edges().len(),
                forall|k2: int|
                    0 <= k2 < k && (#[trigger] self.edges()[k2]).1 == s
                        ==> placed@[self.edges()[k2].0 as int],
            decreases self.edges().len() - k,
        {
            let (before, after_id) = self.constraints[k];
            if after_id == s && !placed[before] {
                return false;
            }
            k = k + 1;
        }
        true
    }

    /// The lowest-numbered unplaced system whose predecessors are all
    /// placed, if any system is ready.
    fn find_ready(&self, placed: &Vec<bool>) -> (r: Option<usize>)
        requires
            self.wf(),
            placed@.len() == self.systems().len(),
        ensures
            match r {
                Some(s) => s < self.systems().len() && !placed@[s as int] && forall|k: int|
                    0 <= k < self.edges().len() && (#[trigger] self.edges()[k]).1 == s
                        ==> placed@[self.edges()[k].0 as int],
                None => forall|s: int|
                    0 <= s < self.systems().len() && !placed@[s] ==> exists|k: int|
                        0 <= k < self.edges().len() && (#[trigger] self.edges()[k]).1 == s
                            && !placed@[self.edges()[k].0 as int],
            },
    {
        let n = self.accesses.len();
        let mut s: usize = 0;
        while s < n
            invariant
                self.wf(),
                placed@.len() == self.systems().len(),
                n == self.systems().len(),
                s <= n,
                forall|s2: int|
                    0 <= s2 < s && !placed@[s2] ==> exists|k: int|
                        0 <= k < self.edges().len() && (#[trigger] self.edges()[k]).1 == s2
                            && !placed@[self.edges()[k].0 as int],
            decreases n - s,
        {
            if !placed[s] && self.ready(placed, s) {
                return Some(s);
            }
            s = s + 1;
        }
        None
    }

    /// Resolves the schedule into an execution order: a permutation of the
    /// system identifiers in which every `after` constraint's predecessor
    /// stands before its successor. Succeeds exactly when such an order
    /// exists; a cyclic constraint graph is reported as
    /// `CyclicConstraint` before any system could run. Ready systems are
    /// taken lowest identifier first, so the order is a fixed function of
    /// the schedule.
    pub fn resolve_order(&self) -> (r: Result<Vec<usize>, ScheduleError>)
        requires
            self.wf(),
        ensures
            match r {
                Ok(ord) => valid_order(self.systems().len(), self.edges(), ord@) && schedulable(
                    self.systems().len(),
                    self.edges(),
                ),
                Err(e) => e == ScheduleError::CyclicConstraint && !schedulable(
                    self.systems().len(),
                    self.edges(),
                ),
            },
    {
        let n = self.accesses.len();
        let mut placed: Vec<bool> = Vec::new();
        let mut t: usize = 0;
        while t < n
            invariant
                t <= n,
                placed@.len() == t,
                forall|i: int| 0 <= i < t ==> !(#[trigger] placed@[i]),
            decreases n - t,
        {
            placed.push(false);
            t = t + 1;
        }
        proof {
            lemma_count_true_empty_or_false(placed@);
        }
        let mut ord: Vec<usize> = Vec::new();
        while ord.len() < n
            invariant
                self.wf(),
                n == self.systems().len(),
                placed@.len() == n,
                ord@.len() <= n,
                count_true(placed@) == ord@.len(),
                forall|i: int| 0 <= i < ord@.len() ==> (#[trigger] ord@[i]) < n,
                ord@.no_duplicates(),
                forall|s: int| 0 <= s < n ==> ((#[trigger] placed@[s]) <==> ord@.contains(s as usize)),
                forall|k: int, j: int|
                    0 <= k < self.edges().len() && 0 <= j < ord@.len() && (#[trigger] ord@[j]) == (
                    #[trigger] self.edges()[k]).1 ==> exists|i: int|
                        0 <= i < j && ord@[i] == self.edges()[k].0,
            decreases n - ord.len(),
        {
            match self.find_ready(&placed) {
                Some(s) => {
                    let ghost old_ord = ord@;
                    let ghost old_placed = placed@;
                    ord.push(s);
                    placed[s] = true;
                    proof {
                        lemma_count_true_update(old_placed, s as int);
                        assert(ord@.no_duplicates()) by {
                            assert(forall|i: int|
                                0 <= i < old_ord.len() ==> old_ord[i] != s) by {
                                assert(!old_ord.contains(s));
                            }
                        }
                        assert forall|k: int, j: int|
                            0 <= k < self.edges().len() && 0 <= j < ord@.len() && ord@[j] == (
                            self.edges()[k]).1 implies exists|i: int|
                            0 <= i < j && ord@[i] == self.edges()[k].0 by {
                            if j < old_ord.len() {
                                assert(old_ord[j] == self.edges()[k].1);
                                let i0 = choose|i: int|
                                    0 <= i < j && old_ord[i] == self.edges()[k].0;
                                assert(ord@[i0] == self.edges()[k].0);
                            } else {
                                assert(ord@[j] == s);
                                assert(placed@[self.edges()[k].0 as int]
                                    == old_placed[self.edges()[k].0 as int]
                                    || self.edges()[k].0 == s);
                                if self.edges()[k].0 == s {
                                    assert(old_placed[s as int]
                                        || old_ord.contains(s));
                                    assert(false);
                                }
                                assert(old_placed[self.edges()[k].0 as int]);
                                assert(old_ord.contains(self.edges()[k].0));
                                let i0 = choose|i: int|
                                    0 <= i < old_ord.len() && old_ord[i] == self.edges()[k].0;
                                assert(ord@[i0] == self.edges()[k].0);
                            }
                        }
                    }
                },
                None => {
                    proof {
                        let n_int = n as int;
                        lemma_count_true_bounds(placed@);
                        assert(!schedulable(self.systems().len(), self.edges())) by {
                            if schedulable(self.systems().len(), self.edges()) {
                                let vord = choose|o: Seq<usize>|
                                    #[trigger] valid_order(self.systems().len(), self.edges(), o);
                                if forall|i: int| 0 <= i < n_int ==> placed@[i] {
                                    lemma_count_true_all_true(placed@);
                                    assert(false);
                                }
                                let u = choose|i: int| 0 <= i < n_int && !placed@[i];
                                assert(vord.contains(u as usize));
                                let ju = choose|j: int|
                                    0 <= j < vord.len() && vord[j] == u as usize;
                                assert(!placed@[vord[ju] as int]);
                                let p = lemma_first_unplaced(placed@, vord);
                                let st = vord[p];
                                assert(!placed@[st as int]);
                                let k = choose|k: int|
                                    0 <= k < self.edges().len() && (#[trigger] self.edges()[k]).1
                                        == st && !placed@[self.edges()[k].0 as int];
                                let a = self.edges()[k].0;
                                assert(vord.contains(a));
                                let q = choose|q: int| 0 <= q < vord.len() && vord[q] == a;
                                assert(q < p);
                                assert(placed@[vord[q] as int]);
                                assert(false);
                            }
                        }
                    }
                    return Err(ScheduleError::CyclicConstraint);
                },
            }
        }
        proof {
            lemma_count_true_full(placed@);
            assert(valid_order(self.systems().len(), self.edges(), ord@)) by {
                assert forall|s: usize| s < n implies ord@.contains(s) by {
                    assert(placed@[s as int]);
                }
                assert forall|k: int, i: int, j: int|
                    0 <= k < self.edges().len() && 0 <= i < ord@.len() && 0 <= j < ord@.len()
                        && ord@[i] == (self.edges()[k]).0 && ord@[j] == self.edges()[k].1 implies i
                    < j by {
                    let i0 = choose|i2: int| 0 <= i2 < j && ord@[i2] == self.edges()[k].0;
                    assert(ord@[i0] == ord@[i]);
                }
            }
            assert(schedulable(self.systems().len(), self.edges()));
        }
        Ok(ord)
    }
}

proof fn lemma_count_true_empty_or_false(s: Seq<bool>)
    requires
        forall|i: int| 0 <= i < s.len() ==> !(#[trigger] s[i]),
    ensures
        count_true(s) == 0,
    decreases s.len(),
{
    if s.len() > 0 {
        lemma_count_true_empty_or_false(s.drop_last());
    }
}

} // verus!
