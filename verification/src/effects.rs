//! A mathematical model of system execution, used to state and prove the
//! guarantees the executor's claim discipline buys. A world snapshot is a
//! function from component kind and slot index to a value; a system is a
//! world transformer. A transformer honours a declared access when it
//! changes only the kinds it declares written and its output depends only
//! on the kinds it declares touched. Under those conditions, systems whose
//! accesses do not conflict commute — so the executor may run them in
//! either order, or concurrently, without affecting the outcome — and a
//! system ordered after another observes its writes.

use vstd::prelude::*;

use crate::schedule::Access;
use crate::schedule::overlaps;
use crate::schedule::spec_conflicts;
use crate::schedule::valid_order;

verus! {

/// The set of component kinds a list of kind numbers denotes.
pub open spec fn kind_set(ks: Seq<usize>) -> Set<int> {
    Set::new(|c: int| exists|k: int| 0 <= k < ks.len() && ks[k] == c)
}

/// Two world snapshots agree on every kind in `kinds`.
pub open spec fn agree_on<V>(
    w1: spec_fn(int, int) -> V,
    w2: spec_fn(int, int) -> V,
    kinds: Set<int>,
) -> bool {
    forall|c: int, i: int| kinds.contains(c) ==> #[trigger] w1(c, i) == #[trigger] w2(c, i)
}

/// The transformer `f` writes only kinds in `writes`: on every world, any
/// other kind is left exactly as it was.
pub open spec fn writes_within<V>(
    f: spec_fn(spec_fn(int, int) -> V) -> spec_fn(int, int) -> V,
    writes: Set<int>,
) -> bool {
    forall|w: spec_fn(int, int) -> V, c: int, i: int|
        !writes.contains(c) ==> #[trigger] f(w)(c, i) == w(c, i)
}

/// What `f` writes depends only on the kinds in `deps`: worlds agreeing on
/// `deps` are sent to worlds agreeing on everything `f` writes.
pub open spec fn reads_within<V>(
    f: spec_fn(spec_fn(int, int) -> V) -> spec_fn(int, int) -> V,
    deps: Set<int>,
    writes: Set<int>,
) -> bool {
    forall|w1: spec_fn(int, int) -> V, w2: spec_fn(int, int) -> V|
        agree_on(w1, w2, deps) ==> agree_on(#[trigger] f(w1), #[trigger] f(w2), writes)
}

/// The transformer `f` honours the declared access `a`: it writes only the
/// kinds `a` declares written, and what it writes depends only on the kinds
/// `a` declares read or written.
pub open spec fn honours_access<V>(
    f: spec_fn(spec_fn(int, int) -> V) -> spec_fn(int, int) -> V,
    a: &Access,
) -> bool {
    &&& writes_within(f, kind_set(a.writes@))
    &&& reads_within(f, kind_set(a.reads@).union(kind_set(a.writes@)), kind_set(a.writes@))
}

/// Kind lists that do not overlap denote disjoint kind sets.
pub proof fn lemma_no_overlap_disjoint(xs: Seq<usize>, ys: Seq<usize>)
    requires
        !overlaps(xs, ys),
    ensures
        forall|c: int| !(kind_set(xs).contains(c) && #[trigger] kind_set(ys).contains(c)),
{
    assert forall|c: int| !(kind_set(xs).contains(c) && #[trigger] kind_set(ys).contains(c)) by {
        if kind_set(xs).contains(c) && kind_set(ys).contains(c) {
            let k = choose|k: int| 0 <= k < xs.len() && xs[k] == c;
            let k2 = choose|k2: int| 0 <= k2 < ys.len() && ys[k2] == c;
            assert(ys[k2] == xs[k]);
            assert(ys.contains(xs[k]));
            assert(overlaps(xs, ys));
        }
    }
}

/// Determinism under reordering: two systems whose declared accesses do
/// not conflict and that honour those accesses produce the same world in
/// either execution order. The executor is therefore free to pick either
/// order — or to run them concurrently — for such a pair.
pub proof fn lemma_no_conflict_commutes<V>(
    f: spec_fn(spec_fn(int, int) -> V) -> spec_fn(int, int) -> V,
    g: spec_fn(spec_fn(int, int) -> V) -> spec_fn(int, int) -> V,
    a: &Access,
    b: &Access,
    w: spec_fn(int, int) -> V,
)
    requires
        honours_access(f, a),
        honours_access(g, b),
        !spec_conflicts(a, b),
    ensures
        forall|c: int, i: int| #[trigger] g(f(w))(c, i) == #[trigger] f(g(w))(c, i),
{
    lemma_no_overlap_disjoint(a.writes@, b.reads@);
    lemma_no_overlap_disjoint(a.writes@, b.writes@);
    lemma_no_overlap_disjoint(b.writes@, a.reads@);
    let wa = kind_set(a.writes@);
    let wb = kind_set(b.writes@);
    let da = kind_set(a.reads@).union(wa);
    let db = kind_set(b.reads@).union(wb);
    assert forall|c: int, i: int| #[trigger] g(f(w))(c, i) == #[trigger] f(g(w))(c, i) by {
        if wa.contains(c) {
            // b neither reads nor writes this kind: g leaves it alone, and
            // removing g's writes from f's input cannot change what f puts
            // here, because g writes nothing f depends on.
            assert(g(f(w))(c, i) == f(w)(c, i));
            assert(agree_on(g(w), w, da)) by {
                assert forall|c2: int, i2: int| da.contains(c2) implies #[trigger] g(w)(
                    c2,
                    i2,
                ) == #[trigger] w(c2, i2) by {
                    assert(!wb.contains(c2));
                }
            }
            assert(agree_on(f(g(w)), f(w), wa));
            assert(f(g(w))(c, i) == f(w)(c, i));
        } else if wb.contains(c) {
            assert(f(g(w))(c, i) == g(w)(c, i));
            assert(agree_on(f(w), w, db)) by {
                assert forall|c2: int, i2: int| db.contains(c2) implies #[trigger] f(w)(
                    c2,
                    i2,
                ) == #[trigger] w(c2, i2) by {
                    assert(!wa.contains(c2));
                }
            }
            assert(agree_on(g(f(w)), g(w), wb));
            assert(g(f(w))(c, i) == g(w)(c, i));
        } else {
            assert(g(f(w))(c, i) == f(w)(c, i) && f(w)(c, i) == w(c, i));
            assert(f(g(w))(c, i) == g(w)(c, i) && g(w)(c, i) == w(c, i));
        }
    }
}

/// The world after the first `k` transformers of `run` have executed in
/// sequence, starting from `w`.
pub open spec fn run_prefix<V>(
    run: Seq<spec_fn(spec_fn(int, int) -> V) -> spec_fn(int, int) -> V>,
    k: int,
    w: spec_fn(int, int) -> V,
) -> spec_fn(int, int) -> V
    decreases k,
{
    if k <= 0 {
        w
    } else {
        run[k - 1](run_prefix(run, k - 1, w))
    }
}

/// A write survives until it is read: if none of the transformers strictly
/// between positions `p` and `q` writes kind `c`, then at position `q` the
/// kind holds exactly what the transformer at `p` left there.
pub proof fn lemma_write_survives<V>(
    run: Seq<spec_fn(spec_fn(int, int) -> V) -> spec_fn(int, int) -> V>,
    writes: Seq<Set<int>>,
    p: int,
    q: int,
    c: int,
    w: spec_fn(int, int) -> V,
)
    requires
        run.len() == writes.len(),
        0 <= p < q <= run.len(),
        forall|k: int| 0 <= k < run.len() ==> writes_within(run[k], #[trigger] writes[k]),
        forall|k: int| p < k < q ==> !(#[trigger] writes[k]).contains(c),
    ensures
        forall|i: int| #[trigger] run_prefix(run, q, w)(c, i) == run[p](run_prefix(run, p, w))(
            c,
            i,
        ),
    decreases q,
{
    if q == p + 1 {
    } else {
        lemma_write_survives(run, writes, p, q - 1, c, w);
        assert forall|i: int| #[trigger] run_prefix(run, q, w)(c, i) == run[p](run_prefix(
            run,
            p,
            w,
        ))(c, i) by {
            assert(writes_within(run[q - 1], writes[q - 1]));
            assert(run_prefix(run, q, w)(c, i) == run_prefix(run, q - 1, w)(c, i));
        }
    }
}

/// The transformers of a run: the systems `sys`, taken in the execution
/// order `ord`.
pub open spec fn exec_seq<V>(
    sys: Seq<spec_fn(spec_fn(int, int) -> V) -> spec_fn(int, int) -> V>,
    ord: Seq<usize>,
) -> Seq<spec_fn(spec_fn(int, int) -> V) -> spec_fn(int, int) -> V> {
    Seq::new(ord.len(), |t: int| sys[ord[t] as int])
}

/// Ordering respected: when edge `k` constrains one system to run after
/// another, then in any lawful order run sequentially, the later system
/// begins from a world in which every kind only the earlier system writes
/// holds exactly what the earlier system wrote. Returns the two systems'
/// positions in the order.
pub proof fn lemma_ordering_respected<V>(
    sys: Seq<spec_fn(spec_fn(int, int) -> V) -> spec_fn(int, int) -> V>,
    wsets: Seq<Set<int>>,
    edges: Seq<(usize, usize)>,
    ord: Seq<usize>,
    k: int,
    c: int,
    w: spec_fn(int, int) -> V,
)
    requires
        sys.len() == wsets.len(),
        valid_order(sys.len() as nat, edges, ord),
        0 <= k < edges.len(),
        edges[k].0 < sys.len(),
        edges[k].1 < sys.len(),
        forall|s: int| 0 <= s < sys.len() ==> writes_within(sys[s], #[trigger] wsets[s]),
        forall|s: int|
            0 <= s < sys.len() && s != edges[k].0 ==> !(#[trigger] wsets[s]).contains(c),
    ensures
        exists|p: int, q: int|
            #![trigger ord[p], ord[q]]
            {
                &&& 0 <= p < q < ord.len()
                &&& ord[p] == edges[k].0
                &&& ord[q] == edges[k].1
                &&& forall|i: int|
                    #[trigger] run_prefix(exec_seq(sys, ord), q, w)(c, i) == sys[edges[k].0 as int](
                        run_prefix(exec_seq(sys, ord), p, w),
                    )(c, i)
            },
{
    let a = edges[k].0;
    let b = edges[k].1;
    assert(ord.contains(a));
    assert(ord.contains(b));
    let p = choose|p: int| 0 <= p < ord.len() && ord[p] == a;
    let q = choose|q: int| 0 <= q < ord.len() && ord[q] == b;
    assert(p < q);
    let run = exec_seq(sys, ord);
    let run_writes = Seq::new(ord.len(), |t: int| wsets[ord[t] as int]);
    assert forall|t: int| p < t < q implies !(#[trigger] run_writes[t]).contains(c) by {
        assert(ord[t] != ord[p]);
    }
    assert(forall|t: int|
        0 <= t < run.len() ==> writes_within(run[t], #[trigger] run_writes[t]));
    lemma_write_survives(run, run_writes, p, q, c, w);
    assert(run[p] == sys[a as int]);
    assert(0 <= p < q < ord.len() && ord[p] == edges[k].0 && ord[q] == edges[k].1 && forall|i: int|
        #[trigger] run_prefix(exec_seq(sys, ord), q, w)(c, i) == sys[edges[k].0 as int](
            run_prefix(exec_seq(sys, ord), p, w),
        )(c, i));
}

} // verus!
