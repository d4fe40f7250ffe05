use vstd::prelude::*;
use crate::handle::Handle;

verus! {

/// Anything that has a population of entities: it can report its size, list its
/// handles and test a handle for membership.
pub trait EntityStorage {
    /// The storage's invariant.
    spec fn valid(&self) -> bool;

    /// The handles that `entities` lists, in order.
    spec fn listed(&self) -> Seq<Handle>;

    /// Membership of a handle, generation included.
    spec fn holds(&self, h: Handle) -> bool;

    fn len(&self) -> (n: u32)
        requires
            self.valid(),
        ensures
            n == self.listed().len(),
    ;

    fn is_empty(&self) -> (r: bool)
        ensures
            r == (self.listed().len() == 0),
    ;

    fn entities(&self) -> (r: Vec<Handle>)
        requires
            self.valid(),
        ensures
            r@ == self.listed(),
    ;

    fn contains(&self, e: Handle) -> (r: bool)
        ensures
            r == self.holds(e),
    ;
}

/// Every storage of `others` holds `h`.
pub open spec fn all_hold(others: Seq<&dyn EntityStorage>, h: Handle) -> bool {
    forall|k: int| 0 <= k < others.len() ==> (#[trigger] others[k]).holds(h)
}

/// The handles of `driver`, in order, that every storage of `others` holds.
pub open spec fn kept(driver: Seq<Handle>, others: Seq<&dyn EntityStorage>) -> Seq<Handle> {
    driver.filter(|h: Handle| all_hold(others, h))
}

/// The slot of each handle.
pub open spec fn slots_of(hs: Seq<Handle>) -> Seq<usize> {
    hs.map_values(|h: Handle| h.i as usize)
}

/// `after` holds the storages of `before`, each once, `after[k]` being
/// `before[perm[k]]`, in ascending order of population, storages of equal
/// population in their old order.
pub open spec fn arranged_by(
    before: Seq<&dyn EntityStorage>,
    after: Seq<&dyn EntityStorage>,
    perm: Seq<int>,
) -> bool {
    &&& after.len() == before.len()
    &&& perm.len() == before.len()
    &&& forall|k: int| 0 <= k < perm.len() ==> 0 <= #[trigger] perm[k] < before.len()
    &&& forall|k: int| 0 <= k < perm.len() ==> #[trigger] after[k] == before[perm[k]]
    &&& forall|j: int, k: int| 0 <= j < k < perm.len() ==> perm[j] != perm[k]
    &&& forall|k: int| 0 <= k < before.len() ==> #[trigger] perm.contains(k)
    &&& forall|j: int, k: int|
        0 <= j < k < perm.len() ==> after[j].listed().len() <= after[k].listed().len()
    &&& forall|j: int, k: int|
        0 <= j < k < perm.len() && after[j].listed().len() == after[k].listed().len()
            ==> perm[j] < perm[k]
}

/// `after` is `before` sorted by population, ascending and stable.
pub open spec fn sorted_by_population(
    before: Seq<&dyn EntityStorage>,
    after: Seq<&dyn EntityStorage>,
) -> bool {
    exists|perm: Seq<int>| arranged_by(before, after, perm)
}

/// `d` is the place of the first storage of smallest population.
pub open spec fn first_smallest(s: Seq<&dyn EntityStorage>, d: int) -> bool {
    &&& 0 <= d < s.len()
    &&& forall|k: int| 0 <= k < s.len() ==> s[d].listed().len() <= (#[trigger] s[k]).listed().len()
    &&& forall|k: int| 0 <= k < d ==> (#[trigger] s[k]).listed().len() > s[d].listed().len()
}

/// The storage lists real handles only, holds each handle that it lists, and lists
/// each real handle that it holds. A real handle is one whose generation is not
/// the sentinel's.
pub open spec fn faithful<S: EntityStorage + ?Sized>(s: &S) -> bool {
    &&& forall|p: int|
        0 <= p < s.listed().len() ==> s.holds(#[trigger] s.listed()[p]) && s.listed()[p].g
            != u32::MAX
    &&& forall|h: Handle|
        #![trigger s.holds(h)]
        h.g != u32::MAX && s.holds(h) ==> s.listed().contains(h)
}

/// The storage holds at most one generation of a slot.
pub open spec fn generation_exact<S: EntityStorage + ?Sized>(s: &S) -> bool {
    forall|h1: Handle, h2: Handle|
        #![trigger s.holds(h1), s.holds(h2)]
        s.holds(h1) && s.holds(h2) && h1.i == h2.i ==> h1.g == h2.g
}

/// The handles that every storage lists: the intersection of the populations.
pub open spec fn common(s: Seq<&dyn EntityStorage>) -> Set<Handle> {
    Set::new(
        |h: Handle| forall|k: int| 0 <= k < s.len() ==> (#[trigger] s[k]).listed().contains(h),
    )
}

/// Sorts the storages by population with `sort_by_key` of std's slices, whose
/// documentation promises a stable sort by the key: the slice is rearranged into
/// ascending order of `len()`, and storages of equal size keep their order.
#[verifier::external_body]
fn sort_by_population(s: &mut [&dyn EntityStorage])
    requires
        forall|k: int| 0 <= k < old(s)@.len() ==> (#[trigger] old(s)@[k]).valid(),
    ensures
        sorted_by_population(old(s)@, final(s)@),
{
    s.sort_by_key(|a| a.len());
}

/// Whether every storage but the first holds `e`.
fn held_by_rest(s: &[&dyn EntityStorage], e: Handle) -> (r: bool)
    requires
        s@.len() > 0,
    ensures
        r == all_hold(s@.skip(1), e),
{
    let mut k: usize = 1;
    while k < s.len()
        invariant
            1 <= k <= s@.len(),
            forall|j: int| 1 <= j < k ==> (#[trigger] s@[j]).holds(e),
        decreases s@.len() - k,
    {
        if !s[k].contains(e) {
            assert(s@.skip(1)[k as int - 1] == s@[k as int]);
            return false;
        }
        k = k + 1;
    }
    proof {
        assert forall|j: int| 0 <= j < s@.skip(1).len() implies (#[trigger] s@.skip(
            1,
        )[j]).holds(e) by {
            assert(s@.skip(1)[j] == s@[j + 1]);
        }
    }
    true
}

/// The join: the slots of the entities that every listed storage has.
///
/// The storages are sorted by population, ascending and stable. The handles of the
/// first, the smallest, are walked in order, and one is kept where every other
/// storage holds that exact handle, generation included.
pub fn iterate(s: &mut [&dyn EntityStorage]) -> (r: Vec<usize>)
    requires
        old(s)@.len() > 0,
        forall|k: int| 0 <= k < old(s)@.len() ==> (#[trigger] old(s)@[k]).valid(),
    ensures
        sorted_by_population(old(s)@, final(s)@),
        r@ == slots_of(kept(final(s)@[0].listed(), final(s)@.skip(1))),
        forall|d: int| first_smallest(old(s)@, d) ==> final(s)@[0] == old(s)@[d],
        (forall|k: int| 0 <= k < old(s)@.len() ==> #[trigger] faithful(old(s)@[k])) ==> kept(
            final(s)@[0].listed(),
            final(s)@.skip(1),
        ).to_set() == common(old(s)@),
{
    sort_by_population(s);
    proof {
        let perm = choose|perm: Seq<int>| arranged_by(old(s)@, s@, perm);
        assert forall|d: int| first_smallest(old(s)@, d) implies s@[0] == old(s)@[d] by {
            lemma_driver_is_first_smallest(old(s)@, s@, perm, d);
        }
        if forall|k: int| 0 <= k < old(s)@.len() ==> #[trigger] faithful(old(s)@[k]) {
            assert forall|k: int| 0 <= k < s@.len() implies #[trigger] faithful(s@[k]) by {
                assert(s@[k] == old(s)@[perm[k]]);
            }
            lemma_join_is_intersection(s@);
            lemma_common_ignores_order(old(s)@, s@, perm);
        }
    }
    let driver = s[0].entities();
    let mut out: Vec<usize> = Vec::new();
    let mut n: usize = 0;
    while n < driver.len()
        invariant
            0 <= n <= driver@.len(),
            s@.len() > 0,
            out@ == slots_of(kept(driver@.take(n as int), s@.skip(1))),
        decreases driver@.len() - n,
    {
        let e = driver[n];
        let keep = held_by_rest(s, e);
        if keep {
            out.push(e.i as usize);
        }
        proof {
            let pred = |h: Handle| all_hold(s@.skip(1), h);
            let seen = driver@.take(n as int);
            assert(driver@.take(n as int + 1) == seen.push(e));
            seen.lemma_filter_push(e, pred);
            assert(out@ =~= slots_of(kept(driver@.take(n as int + 1), s@.skip(1))));
        }
        n = n + 1;
    }
    proof {
        assert(driver@.take(driver@.len() as int) == driver@);
    }
    out
}

/// A handle is kept exactly where the driver lists it and every other storage
/// holds it.
pub proof fn lemma_kept_contains(driver: Seq<Handle>, others: Seq<&dyn EntityStorage>, h: Handle)
    ensures
        kept(driver, others).contains(h) <==> driver.contains(h) && all_hold(others, h),
{
    let pred = |x: Handle| all_hold(others, x);
    if kept(driver, others).contains(h) {
        let p = choose|p: int| 0 <= p < kept(driver, others).len() && kept(driver, others)[p] == h;
        driver.lemma_filter_pred(pred, p);
        driver.lemma_filter_contains_rev(pred, h);
    }
    if driver.contains(h) && all_hold(others, h) {
        let p = choose|p: int| 0 <= p < driver.len() && driver[p] == h;
        driver.lemma_filter_contains(pred, p);
    }
}

/// Join correctness: over faithful storages, whichever of them drives, the join
/// keeps exactly the handles that all of them list.
pub proof fn lemma_join_is_intersection(s: Seq<&dyn EntityStorage>)
    requires
        s.len() > 0,
        forall|k: int| 0 <= k < s.len() ==> #[trigger] faithful(s[k]),
    ensures
        kept(s[0].listed(), s.skip(1)).to_set() == common(s),
{
    let got = kept(s[0].listed(), s.skip(1));
    assert forall|h: Handle| got.to_set().contains(h) <==> common(s).contains(h) by {
        lemma_kept_contains(s[0].listed(), s.skip(1), h);
        if got.contains(h) {
            let d = s[0];
            assert(faithful(d));
            let p = choose|p: int| 0 <= p < d.listed().len() && d.listed()[p] == h;
            assert(d.holds(d.listed()[p]) && d.listed()[p].g != u32::MAX);
            assert forall|k: int| 0 <= k < s.len() implies (#[trigger] s[k]).listed().contains(
                h,
            ) by {
                if k > 0 {
                    let t = s[k];
                    assert(s.skip(1)[k - 1] == t);
                    assert(t.holds(h));
                    assert(faithful(t));
                }
            }
        }
        if common(s).contains(h) {
            assert(s[0].listed().contains(h));
            assert forall|k: int| 0 <= k < s.skip(1).len() implies (#[trigger] s.skip(
                1,
            )[k]).holds(h) by {
                let t = s[k + 1];
                assert(s.skip(1)[k] == t);
                assert(faithful(t));
                assert(t.listed().contains(h));
                let p = choose|p: int| 0 <= p < t.listed().len() && t.listed()[p] == h;
                assert(t.holds(t.listed()[p]));
            }
        }
    }
    assert(got.to_set() =~= common(s));
}

/// The intersection does not depend on the order of the storages.
pub proof fn lemma_common_ignores_order(
    before: Seq<&dyn EntityStorage>,
    after: Seq<&dyn EntityStorage>,
    perm: Seq<int>,
)
    requires
        arranged_by(before, after, perm),
    ensures
        common(after) == common(before),
{
    assert forall|h: Handle| common(after).contains(h) <==> common(before).contains(h) by {
        if common(after).contains(h) {
            assert forall|k: int| 0 <= k < before.len() implies (#[trigger] before[k])
                .listed().contains(h) by {
                assert(perm.contains(k));
                let j = choose|j: int| 0 <= j < perm.len() && perm[j] == k;
                assert(after[j] == before[perm[j]]);
                assert(after[j].listed().contains(h));
            }
        }
        if common(before).contains(h) {
            assert forall|k: int| 0 <= k < after.len() implies (#[trigger] after[k])
                .listed().contains(h) by {
                assert(after[k] == before[perm[k]]);
                assert(before[perm[k]].listed().contains(h));
            }
        }
    }
    assert(common(after) =~= common(before));
}

/// A stable sort by population puts the first storage of smallest population first.
pub proof fn lemma_driver_is_first_smallest(
    before: Seq<&dyn EntityStorage>,
    after: Seq<&dyn EntityStorage>,
    perm: Seq<int>,
    d: int,
)
    requires
        arranged_by(before, after, perm),
        first_smallest(before, d),
    ensures
        after[0] == before[d],
{
    assert(perm.contains(d));
    let j = choose|j: int| 0 <= j < perm.len() && perm[j] == d;
    assert(after[j] == before[perm[j]]);
    assert(after[0] == before[perm[0]]);
    if j > 0 {
        assert(after[0].listed().len() <= after[j].listed().len());
        assert(before[d].listed().len() <= before[perm[0]].listed().len());
        assert(perm[0] < perm[j]);
        assert(before[perm[0]].listed().len() > before[d].listed().len());
    }
}

/// Generation-exact matching: where one storage holds a slot at one generation and
/// another holds it at a different one, the join leaves that slot out.
pub proof fn lemma_join_excludes_superseded(
    s: Seq<&dyn EntityStorage>,
    a: int,
    b: int,
    ha: Handle,
    hb: Handle,
)
    requires
        0 <= a < s.len(),
        0 <= b < s.len(),
        s[a].holds(ha),
        s[b].holds(hb),
        ha.i == hb.i,
        ha.g != hb.g,
        generation_exact(s[a]),
        generation_exact(s[b]),
        forall|p: int| 0 <= p < s[0].listed().len() ==> s[0].holds(#[trigger] s[0].listed()[p]),
    ensures
        forall|h: Handle|
            #![trigger kept(s[0].listed(), s.skip(1)).contains(h)]
            kept(s[0].listed(), s.skip(1)).contains(h) ==> h.i != ha.i,
        !slots_of(kept(s[0].listed(), s.skip(1))).contains(ha.i as usize),
{
    let got = kept(s[0].listed(), s.skip(1));
    assert forall|h: Handle| #![trigger got.contains(h)] got.contains(h) implies h.i != ha.i by {
        lemma_kept_contains(s[0].listed(), s.skip(1), h);
        let d = s[0];
        let p = choose|p: int| 0 <= p < d.listed().len() && d.listed()[p] == h;
        assert(d.holds(d.listed()[p]));
        let sa = s[a];
        let sb = s[b];
        if a > 0 {
            assert(s.skip(1)[a - 1] == sa);
        }
        if b > 0 {
            assert(s.skip(1)[b - 1] == sb);
        }
        assert(sa.holds(h));
        assert(sb.holds(h));
        if h.i == ha.i {
            assert(sa.holds(ha) && sa.holds(h) && h.g == ha.g);
            assert(sb.holds(hb) && sb.holds(h) && h.g == hb.g);
        }
    }
    if slots_of(got).contains(ha.i as usize) {
        let p = choose|p: int| 0 <= p < slots_of(got).len() && slots_of(got)[p] == ha.i as usize;
        assert(got.contains(got[p]));
        assert(got[p].i as usize == ha.i as usize);
    }
}

} // verus!
