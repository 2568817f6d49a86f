//! Which mutations cannot share a mutant.
//!
//! Two mutations conflict where either counts as unsafe, where some test
//! reaches the targets of both, or where a substitution of one is anchored
//! at the same node as a substitution of the other.

use vstd::prelude::*;
use rustc_hash::FxHashSet;
use crate::fx::map_get;
use crate::fx::map_keys;
use crate::fx::set_contains;
use crate::fx::set_insert;
use crate::fx::set_new;
use crate::fx::set_to_vec;
use crate::mutation::Mut;
use crate::mutation::MutId;
use crate::reachability::Target;
use crate::subst::conflicting_substs;
use crate::subst::spec_conflicting_substs;
use crate::subst::SubstDef;
use crate::unsafety::UnsafeTargeting;

verus! {

/// Some test reaches both targets.
pub open spec fn spec_conflicting_targets(a: Target, b: Target) -> bool {
    exists|test: u32| #[trigger]
        a.reachable_from@.contains_key(test) && b.reachable_from@.contains_key(test)
}

/// Whether some test reaches both targets.
pub fn conflicting_targets(a: &Target, b: &Target) -> (r: bool)
    ensures
        r == spec_conflicting_targets(*a, *b),
{
    let tests = map_keys(&a.reachable_from);
    let mut i: usize = 0;
    while i < tests.len()
        invariant
            0 <= i <= tests.len(),
            tests@.to_set() == a.reachable_from@.dom(),
            forall|k: int| 0 <= k < i ==> !b.reachable_from@.contains_key(#[trigger] tests@[k]),
        decreases tests.len() - i,
    {
        if map_get(&b.reachable_from, tests[i]).is_some() {
            assert(tests@.to_set().contains(tests@[i as int]));
            assert(a.reachable_from@.contains_key(tests@[i as int]));
            return true;
        }
        i += 1;
    }
    proof {
        if spec_conflicting_targets(*a, *b) {
            let test = choose|test: u32| #[trigger]
                a.reachable_from@.contains_key(test) && b.reachable_from@.contains_key(test);
            assert(tests@.to_set().contains(test));
            let k = choose|k: int| 0 <= k < tests@.len() && tests@[k] == test;
            assert(!b.reachable_from@.contains_key(tests@[k]));
        }
    }
    false
}

/// Some substitution of the one list is anchored where one of the other is.
pub open spec fn substs_conflict(a: Seq<SubstDef>, b: Seq<SubstDef>) -> bool {
    exists|i: int, j: int|
        0 <= i < a.len() && 0 <= j < b.len() && spec_conflicting_substs(
            #[trigger] a[i],
            #[trigger] b[j],
        )
}

fn substs_conflicting(a: &[SubstDef], b: &[SubstDef]) -> (r: bool)
    ensures
        r == substs_conflict(a@, b@),
{
    let mut i: usize = 0;
    while i < a.len()
        invariant
            0 <= i <= a.len(),
            forall|p: int, q: int|
                0 <= p < i && 0 <= q < b.len() ==> !spec_conflicting_substs(
                    #[trigger] a@[p],
                    #[trigger] b@[q],
                ),
        decreases a.len() - i,
    {
        let mut j: usize = 0;
        while j < b.len()
            invariant
                0 <= j <= b.len(),
                0 <= i < a.len(),
                forall|q: int|
                    0 <= q < j ==> !spec_conflicting_substs(a@[i as int], #[trigger] b@[q]),
            decreases b.len() - j,
        {
            if conflicting_substs(&a[i], &b[j]) {
                return true;
            }
            j += 1;
        }
        i += 1;
    }
    false
}

/// The rule of conflict between two mutations under a policy.
pub open spec fn mutations_conflict<M>(a: Mut<M>, b: Mut<M>, unsafe_targeting: UnsafeTargeting) -> bool {
    ||| a.spec_is_unsafe(unsafe_targeting)
    ||| b.spec_is_unsafe(unsafe_targeting)
    ||| spec_conflicting_targets(*a.target, *b.target)
    ||| substs_conflict(a.substs@, b.substs@)
}

/// Whether two mutations conflict under a policy.
pub fn conflicting<M>(a: &Mut<M>, b: &Mut<M>, unsafe_targeting: UnsafeTargeting) -> (r: bool)
    ensures
        r == mutations_conflict(*a, *b, unsafe_targeting),
{
    a.is_unsafe(unsafe_targeting) || b.is_unsafe(unsafe_targeting) || conflicting_targets(
        a.target,
        b.target,
    ) || substs_conflicting(a.substs.as_slice(), b.substs.as_slice())
}

/// The conflicts between the mutations of one run, by their numbers.
pub struct MutationConflictGraph {
    n_mutations: u32,
    unsafes: FxHashSet<u32>,
    conflicts: FxHashSet<(u32, u32)>,
}

impl MutationConflictGraph {
    /// The greatest number of a mutation, 0 where there is none.
    pub closed spec fn n_mutations(&self) -> u32 {
        self.n_mutations
    }

    /// The numbers of the mutations that count as unsafe.
    pub closed spec fn unsafes(&self) -> Set<u32> {
        self.unsafes@
    }

    /// The pairs of numbers that were found in conflict, the mutation that
    /// comes first in the list first.
    pub closed spec fn conflicts(&self) -> Set<(u32, u32)> {
        self.conflicts@
    }

    pub open spec fn spec_is_unsafe(&self, v: MutId) -> bool {
        self.unsafes().contains(v.0)
    }

    /// The two mutations conflict, in whichever order they are given.
    pub open spec fn spec_conflicting(&self, a: MutId, b: MutId) -> bool {
        self.conflicts().contains((a.0, b.0)) || self.conflicts().contains((b.0, a.0))
    }

    /// Whether the mutation counts as unsafe.
    pub fn is_unsafe(&self, v: MutId) -> (r: bool)
        ensures
            r == self.spec_is_unsafe(v),
    {
        set_contains(&self.unsafes, v.0)
    }

    /// Whether the two mutations conflict.
    pub fn conflicting_mutations(&self, a: MutId, b: MutId) -> (r: bool)
        ensures
            r == self.spec_conflicting(a, b),
            r == self.spec_conflicting(b, a),
    {
        set_contains(&self.conflicts, (a.0, b.0)) || set_contains(&self.conflicts, (b.0, a.0))
    }

    /// Whether the two mutations can share a mutant.
    pub fn compatible_mutations(&self, a: MutId, b: MutId) -> (r: bool)
        ensures
            r == !self.spec_conflicting(a, b),
    {
        !self.conflicting_mutations(a, b)
    }

    /// The conflicts, each once, in no particular order.
    pub fn iter_conflicts(&self) -> (pairs: Vec<(MutId, MutId)>)
        ensures
            pairs@.no_duplicates(),
            forall|a: u32, b: u32|
                self.conflicts().contains((a, b)) <==> #[trigger] pairs@.contains(
                    (MutId(a), MutId(b)),
                ),
    {
        let found = set_to_vec(&self.conflicts);
        let mut pairs: Vec<(MutId, MutId)> = Vec::new();
        let mut i: usize = 0;
        while i < found.len()
            invariant
                0 <= i <= found.len(),
                pairs@.len() == i,
                forall|k: int|
                    0 <= k < i ==> #[trigger] pairs@[k] == (
                        MutId(found@[k].0),
                        MutId(found@[k].1),
                    ),
            decreases found.len() - i,
        {
            pairs.push((MutId(found[i].0), MutId(found[i].1)));
            i += 1;
        }
        proof {
            assert forall|a: u32, b: u32|
                self.conflicts().contains((a, b)) <==> #[trigger] pairs@.contains(
                    (MutId(a), MutId(b)),
                ) by {
                if self.conflicts().contains((a, b)) {
                    assert(found@.to_set().contains((a, b)));
                    let k = choose|k: int| 0 <= k < found@.len() && found@[k] == (a, b);
                    assert(pairs@[k] == (MutId(a), MutId(b)));
                }
                if pairs@.contains((MutId(a), MutId(b))) {
                    let k = choose|k: int|
                        0 <= k < pairs@.len() && pairs@[k] == (MutId(a), MutId(b));
                    assert(found@[k] == (a, b));
                    assert(found@.to_set().contains(found@[k]));
                }
            }
            assert forall|p: int, q: int| 0 <= p < q < pairs@.len() implies pairs@[p]
                != pairs@[q] by {
                assert(found@[p] != found@[q]);
            }
        }
        pairs
    }

    /// The conflicts between mutations neither of which counts as unsafe,
    /// each once, in no particular order.
    pub fn iter_conflicts_excluding_unsafe(&self) -> (pairs: Vec<(MutId, MutId)>)
        ensures
            pairs@.no_duplicates(),
            forall|a: u32, b: u32|
                (self.conflicts().contains((a, b)) && !self.spec_is_unsafe(MutId(a))
                    && !self.spec_is_unsafe(MutId(b))) <==> #[trigger] pairs@.contains(
                    (MutId(a), MutId(b)),
                ),
    {
        let all = self.iter_conflicts();
        let mut pairs: Vec<(MutId, MutId)> = Vec::new();
        let mut i: usize = 0;
        while i < all.len()
            invariant
                0 <= i <= all.len(),
                all@.no_duplicates(),
                pairs@.no_duplicates(),
                forall|p: (MutId, MutId)| #[trigger]
                    pairs@.contains(p) <==> exists|k: int|
                        0 <= k < i && #[trigger] all@[k] == p && !self.spec_is_unsafe(p.0)
                            && !self.spec_is_unsafe(p.1),
            decreases all.len() - i,
        {
            let ghost before = pairs@;
            let (a, b) = all[i];
            if !self.is_unsafe(a) && !self.is_unsafe(b) {
                proof {
                    if before.contains(all@[i as int]) {
                        let k = choose|k: int|
                            0 <= k < i && #[trigger] all@[k] == all@[i as int];
                        assert(all@[k] == all@[i as int]);
                    }
                }
                pairs.push((a, b));
                assert(pairs@.last() == all@[i as int]);
                assert forall|m: int, n: int|
                    0 <= m < pairs@.len() && 0 <= n < pairs@.len() && m != n implies pairs@[m]
                    != pairs@[n] by {
                    if m < before.len() && n < before.len() {
                        assert(before[m] != before[n]);
                    } else if m < before.len() {
                        assert(before.contains(before[m]));
                    } else {
                        assert(before.contains(before[n]));
                    }
                }
            }
            proof {
                assert forall|p: (MutId, MutId)| #[trigger]
                    pairs@.contains(p) <==> exists|k: int|
                        0 <= k < i + 1 && #[trigger] all@[k] == p && !self.spec_is_unsafe(p.0)
                            && !self.spec_is_unsafe(p.1) by {
                    if pairs@.contains(p) {
                        let n = choose|n: int| 0 <= n < pairs@.len() && pairs@[n] == p;
                        if n < before.len() {
                            assert(before[n] == p);
                            assert(before.contains(p));
                        } else {
                            assert(all@[i as int] == p);
                        }
                    }
                    if exists|k: int|
                        0 <= k < i + 1 && #[trigger] all@[k] == p && !self.spec_is_unsafe(p.0)
                            && !self.spec_is_unsafe(p.1) {
                        let k = choose|k: int|
                            0 <= k < i + 1 && #[trigger] all@[k] == p && !self.spec_is_unsafe(
                                p.0,
                            ) && !self.spec_is_unsafe(p.1);
                        if k < i {
                            assert(before.contains(p));
                            let n = choose|n: int| 0 <= n < before.len() && before[n] == p;
                            assert(pairs@[n] == p);
                        } else {
                            assert(pairs@[pairs@.len() - 1] == p);
                        }
                    }
                }
            }
            i += 1;
        }
        proof {
            assert forall|a: u32, b: u32|
                (self.conflicts().contains((a, b)) && !self.spec_is_unsafe(MutId(a))
                    && !self.spec_is_unsafe(MutId(b))) <==> #[trigger] pairs@.contains(
                    (MutId(a), MutId(b)),
                ) by {
                let p = (MutId(a), MutId(b));
                if self.conflicts().contains((a, b)) && !self.spec_is_unsafe(MutId(a))
                    && !self.spec_is_unsafe(MutId(b)) {
                    assert(all@.contains(p));
                    let k = choose|k: int| 0 <= k < all@.len() && all@[k] == p;
                    assert(all@[k] == p);
                }
                if pairs@.contains(p) {
                    let k = choose|k: int|
                        0 <= k < all@.len() && #[trigger] all@[k] == p && !self.spec_is_unsafe(
                            p.0,
                        ) && !self.spec_is_unsafe(p.1);
                    assert(all@.contains(p));
                }
            }
        }
        pairs
    }
}


/// The mutations at positions `a` and `b` of the list, `a` before `b`,
/// conflict, and `pair` holds their numbers in that order.
pub open spec fn conflict_pair<M>(
    mutations: Seq<Mut<M>>,
    unsafe_targeting: UnsafeTargeting,
    a: int,
    b: int,
    pair: (u32, u32),
) -> bool {
    &&& 0 <= a < b < mutations.len()
    &&& mutations[a].id.0 == pair.0
    &&& mutations[b].id.0 == pair.1
    &&& mutations_conflict(mutations[a], mutations[b], unsafe_targeting)
}

/// The graph is the conflict graph of the mutations under the policy.
pub open spec fn graph_of<M>(
    graph: MutationConflictGraph,
    mutations: Seq<Mut<M>>,
    unsafe_targeting: UnsafeTargeting,
) -> bool {
    &&& forall|v: u32| #[trigger]
        graph.unsafes().contains(v) <==> exists|k: int|
            0 <= k < mutations.len() && (#[trigger] mutations[k]).id.0 == v
                && mutations[k].spec_is_unsafe(unsafe_targeting)
    &&& forall|pair: (u32, u32)| #[trigger]
        graph.conflicts().contains(pair) <==> exists|a: int, b: int| #[trigger]
            conflict_pair(mutations, unsafe_targeting, a, b, pair)
    &&& forall|k: int|
        0 <= k < mutations.len() ==> (#[trigger] mutations[k]).id.0 <= graph.n_mutations()
    &&& mutations.len() == 0 ==> graph.n_mutations() == 0
    &&& mutations.len() > 0 ==> exists|k: int|
        0 <= k < mutations.len() && (#[trigger] mutations[k]).id.0 == graph.n_mutations()
}

spec fn pair_before(a: int, b: int, i: int, j: int) -> bool {
    a < i || (a == i && b < j)
}

/// The conflict graph of the mutations of a run: which of them count as
/// unsafe under the policy, and which pairs of them conflict.
pub fn generate_mutation_conflict_graph<M>(
    mutations: &[Mut<M>],
    unsafe_targeting: UnsafeTargeting,
) -> (graph: MutationConflictGraph)
    ensures
        graph_of(graph, mutations@, unsafe_targeting),
{
    let mut unsafes: FxHashSet<u32> = set_new();
    let mut conflicts: FxHashSet<(u32, u32)> = set_new();
    let mut n_mutations: u32 = 0;
    let mut i: usize = 0;
    while i < mutations.len()
        invariant
            0 <= i <= mutations.len(),
            forall|v: u32| #[trigger]
                unsafes@.contains(v) <==> exists|k: int|
                    0 <= k < i && (#[trigger] mutations@[k]).id.0 == v
                        && mutations@[k].spec_is_unsafe(unsafe_targeting),
            forall|pair: (u32, u32)| #[trigger]
                conflicts@.contains(pair) <==> exists|a: int, b: int|
                    a < i && #[trigger] conflict_pair(mutations@, unsafe_targeting, a, b, pair),
            forall|k: int| 0 <= k < i ==> (#[trigger] mutations@[k]).id.0 <= n_mutations,
            i == 0 ==> n_mutations == 0,
            i > 0 ==> exists|k: int| 0 <= k < i && (#[trigger] mutations@[k]).id.0 == n_mutations,
        decreases mutations.len() - i,
    {
        let mutation = &mutations[i];
        let ghost unsafes_before = unsafes@;
        if mutation.is_unsafe(unsafe_targeting) {
            set_insert(&mut unsafes, mutation.id.0);
        }
        if mutation.id.0 > n_mutations {
            n_mutations = mutation.id.0;
        }
        assert(mutations@[i as int].id.0 <= n_mutations);
        proof {
            assert forall|v: u32| #[trigger]
                unsafes@.contains(v) <==> exists|k: int|
                    0 <= k < i + 1 && (#[trigger] mutations@[k]).id.0 == v
                        && mutations@[k].spec_is_unsafe(unsafe_targeting) by {
                if unsafes@.contains(v) {
                    if unsafes_before.contains(v) {
                        let k = choose|k: int|
                            0 <= k < i && (#[trigger] mutations@[k]).id.0 == v
                                && mutations@[k].spec_is_unsafe(unsafe_targeting);
                        assert(mutations@[k].id.0 == v);
                    } else {
                        assert(mutations@[i as int].id.0 == v);
                    }
                }
            }
        }
        let mut j: usize = i + 1;
        while j < mutations.len()
            invariant
                0 <= i < mutations.len(),
                i < j <= mutations.len(),
                mutation == &mutations@[i as int],
                forall|pair: (u32, u32)| #[trigger]
                    conflicts@.contains(pair) <==> exists|a: int, b: int|
                        pair_before(a, b, i as int, j as int) && #[trigger] conflict_pair(
                            mutations@,
                            unsafe_targeting,
                            a,
                            b,
                            pair,
                        ),
            decreases mutations.len() - j,
        {
            let other = &mutations[j];
            let ghost before = conflicts@;
            let new_pair = (mutation.id.0, other.id.0);
            let is_conflicting = conflicting(mutation, other, unsafe_targeting);
            if is_conflicting {
                set_insert(&mut conflicts, new_pair);
                assert(conflict_pair(mutations@, unsafe_targeting, i as int, j as int, new_pair));
            }
            proof {
                assert forall|pair: (u32, u32)| #[trigger]
                    conflicts@.contains(pair) <==> exists|a: int, b: int|
                        pair_before(a, b, i as int, j + 1) && #[trigger] conflict_pair(
                            mutations@,
                            unsafe_targeting,
                            a,
                            b,
                            pair,
                        ) by {
                    if conflicts@.contains(pair) {
                        if before.contains(pair) {
                            let (a, b) = choose|a: int, b: int|
                                pair_before(a, b, i as int, j as int) && #[trigger] conflict_pair(
                                    mutations@,
                                    unsafe_targeting,
                                    a,
                                    b,
                                    pair,
                                );
                            assert(pair_before(a, b, i as int, j + 1));
                        } else {
                            assert(pair_before(i as int, j as int, i as int, j + 1));
                        }
                    }
                    if exists|a: int, b: int|
                        pair_before(a, b, i as int, j + 1) && #[trigger] conflict_pair(
                            mutations@,
                            unsafe_targeting,
                            a,
                            b,
                            pair,
                        ) {
                        let (a, b) = choose|a: int, b: int|
                            pair_before(a, b, i as int, j + 1) && #[trigger] conflict_pair(
                                mutations@,
                                unsafe_targeting,
                                a,
                                b,
                                pair,
                            );
                        if pair_before(a, b, i as int, j as int) {
                            assert(before.contains(pair));
                        } else {
                            assert(a == i && b == j);
                            assert(pair == new_pair);
                        }
                    }
                }
            }
            j += 1;
        }
        proof {
            assert forall|pair: (u32, u32)| #[trigger]
                conflicts@.contains(pair) <==> exists|a: int, b: int|
                    a < i + 1 && #[trigger] conflict_pair(
                        mutations@,
                        unsafe_targeting,
                        a,
                        b,
                        pair,
                    ) by {
                if conflicts@.contains(pair) {
                    let (a, b) = choose|a: int, b: int|
                        pair_before(a, b, i as int, j as int) && #[trigger] conflict_pair(
                            mutations@,
                            unsafe_targeting,
                            a,
                            b,
                            pair,
                        );
                    assert(a < i + 1);
                }
                if exists|a: int, b: int|
                    a < i + 1 && #[trigger] conflict_pair(
                        mutations@,
                        unsafe_targeting,
                        a,
                        b,
                        pair,
                    ) {
                    let (a, b) = choose|a: int, b: int|
                        a < i + 1 && #[trigger] conflict_pair(
                            mutations@,
                            unsafe_targeting,
                            a,
                            b,
                            pair,
                        );
                    assert(pair_before(a, b, i as int, j as int));
                }
            }
        }
        i += 1;
    }
    let graph = MutationConflictGraph { n_mutations, unsafes, conflicts };
    proof {
        assert forall|pair: (u32, u32)| #[trigger]
            graph.conflicts().contains(pair) <==> exists|a: int, b: int| #[trigger]
                conflict_pair(mutations@, unsafe_targeting, a, b, pair) by {
            if exists|a: int, b: int| #[trigger]
                conflict_pair(mutations@, unsafe_targeting, a, b, pair) {
                let (a, b) = choose|a: int, b: int| #[trigger]
                    conflict_pair(mutations@, unsafe_targeting, a, b, pair);
                assert(a < i);
            }
        }
    }
    graph
}

/// The numbers of the mutations of a list.
pub open spec fn mutation_ids<M>(mutations: Seq<Mut<M>>) -> Set<u32> {
    Set::new(|v: u32| exists|k: int| 0 <= k < mutations.len() && (#[trigger] mutations[k]).id.0 == v)
}

impl MutationConflictGraph {
    /// A mutation that counts as unsafe conflicts with every other mutation
    /// among `ids`.
    pub open spec fn isolates_unsafe(&self, ids: Set<u32>) -> bool {
        forall|a: u32, b: u32|
            ids.contains(a) && ids.contains(b) && a != b && self.spec_is_unsafe(MutId(a))
                ==> #[trigger] self.spec_conflicting(MutId(a), MutId(b))
    }
}

/// The conflict relation does not depend on the order in which two
/// mutations are given.
pub proof fn lemma_conflict_symmetric(graph: MutationConflictGraph, a: MutId, b: MutId)
    ensures
        graph.spec_conflicting(a, b) == graph.spec_conflicting(b, a),
{
}

/// In the conflict graph of a list of mutations, two mutations of the list
/// conflict where the rule says so, and a mutation that counts as unsafe
/// conflicts with every other.
pub proof fn lemma_graph_conflicts<M>(
    graph: MutationConflictGraph,
    mutations: Seq<Mut<M>>,
    unsafe_targeting: UnsafeTargeting,
    i: int,
    j: int,
)
    requires
        graph_of(graph, mutations, unsafe_targeting),
        0 <= i < mutations.len(),
        0 <= j < mutations.len(),
        i != j,
    ensures
        mutations_conflict(mutations[i], mutations[j], unsafe_targeting) ==> graph.spec_conflicting(
            mutations[i].id,
            mutations[j].id,
        ),
        mutations[i].spec_is_unsafe(unsafe_targeting) ==> graph.spec_is_unsafe(mutations[i].id),
{
    if mutations_conflict(mutations[i], mutations[j], unsafe_targeting) {
        if i < j {
            assert(conflict_pair(
                mutations,
                unsafe_targeting,
                i,
                j,
                (mutations[i].id.0, mutations[j].id.0),
            ));
        } else {
            assert(mutations_conflict(mutations[j], mutations[i], unsafe_targeting)) by {
                if spec_conflicting_targets(*mutations[i].target, *mutations[j].target) {
                    let test = choose|test: u32| #[trigger]
                        mutations[i].target.reachable_from@.contains_key(test)
                            && mutations[j].target.reachable_from@.contains_key(test);
                    assert(mutations[j].target.reachable_from@.contains_key(test));
                }
                if substs_conflict(mutations[i].substs@, mutations[j].substs@) {
                    let (p, q) = choose|p: int, q: int|
                        0 <= p < mutations[i].substs@.len() && 0 <= q < mutations[j].substs@.len()
                            && spec_conflicting_substs(
                            #[trigger] mutations[i].substs@[p],
                            #[trigger] mutations[j].substs@[q],
                        );
                    assert(spec_conflicting_substs(
                        mutations[j].substs@[q],
                        mutations[i].substs@[p],
                    ));
                }
            }
            assert(conflict_pair(
                mutations,
                unsafe_targeting,
                j,
                i,
                (mutations[j].id.0, mutations[i].id.0),
            ));
        }
    }
}

/// The conflict graph of a list of mutations isolates the unsafe ones among
/// the mutations of the list.
pub proof fn lemma_graph_isolates_unsafe<M>(
    graph: MutationConflictGraph,
    mutations: Seq<Mut<M>>,
    unsafe_targeting: UnsafeTargeting,
)
    requires
        graph_of(graph, mutations, unsafe_targeting),
    ensures
        graph.isolates_unsafe(mutation_ids(mutations)),
{
    let ids = mutation_ids(mutations);
    assert forall|a: u32, b: u32|
        ids.contains(a) && ids.contains(b) && a != b && graph.spec_is_unsafe(
            MutId(a),
        ) implies #[trigger] graph.spec_conflicting(MutId(a), MutId(b)) by {
        let i = choose|k: int|
            0 <= k < mutations.len() && (#[trigger] mutations[k]).id.0 == a
                && mutations[k].spec_is_unsafe(unsafe_targeting);
        let j = choose|k: int| 0 <= k < mutations.len() && (#[trigger] mutations[k]).id.0 == b;
        lemma_graph_conflicts(graph, mutations, unsafe_targeting, i, j);
    }
}

/// A walk over the pairs of mutation numbers from 1 to the greatest, the
/// smaller number first, pair after pair in ascending order, that stops at
/// each pair without conflict.
pub struct MutationConflictGraphCompatibilityIter<'op> {
    graph: &'op MutationConflictGraph,
    cursor: (u64, u64),
}

impl MutationConflictGraph {
    /// A walk over the pairs of mutations that can share a mutant.
    pub fn iter_compatibilities(&self) -> (iter: MutationConflictGraphCompatibilityIter<'_>)
        ensures
            iter.wf(),
            iter.graph() == self,
            iter.cursor() == (1int, 2int),
    {
        MutationConflictGraphCompatibilityIter { graph: self, cursor: (1, 2) }
    }
}

impl<'op> MutationConflictGraphCompatibilityIter<'op> {
    pub closed spec fn graph(&self) -> &'op MutationConflictGraph {
        self.graph
    }

    /// The next pair to look at.
    pub closed spec fn cursor(&self) -> (int, int) {
        (self.cursor.0 as int, self.cursor.1 as int)
    }

    pub closed spec fn wf(&self) -> bool {
        &&& 1 <= self.cursor.0 < self.cursor.1
        &&& self.cursor.0 <= self.graph.n_mutations + 1
        &&& self.cursor.1 <= self.graph.n_mutations + 2
    }

    /// The pair `(a, b)` is one that the walk passes at or after `cursor`.
    pub open spec fn ahead(&self, cursor: (int, int), a: int, b: int) -> bool {
        &&& 1 <= a < b <= self.graph().n_mutations()
        &&& a > cursor.0 || (a == cursor.0 && b >= cursor.1)
    }

    /// The next pair without conflict, if there is one left.
    pub fn next(&mut self) -> (pair: Option<(MutId, MutId)>)
        requires
            old(self).wf(),
        ensures
            final(self).wf(),
            final(self).graph() == old(self).graph(),
            match pair {
                Some((a, b)) => {
                    &&& old(self).ahead(old(self).cursor(), a.0 as int, b.0 as int)
                    &&& !old(self).graph().spec_conflicting(a, b)
                    &&& final(self).cursor() == (a.0 as int, b.0 + 1)
                    &&& forall|x: u32, y: u32|
                        old(self).ahead(old(self).cursor(), x as int, y as int) && (x < a.0 || (x
                            == a.0 && y < b.0)) ==> #[trigger] old(self).graph().spec_conflicting(
                            MutId(x),
                            MutId(y),
                        )
                },
                None => {
                    &&& forall|x: u32, y: u32|
                        old(self).ahead(old(self).cursor(), x as int, y as int) ==> #[trigger] old(
                            self,
                        ).graph().spec_conflicting(MutId(x), MutId(y))
                    // The walk has ended, and stays ended.
                    &&& final(self).cursor().0 > old(self).graph().n_mutations()
                },
            },
    {
        let n = self.graph.n_mutations as u64;
        while self.cursor.0 <= n
            invariant
                self.wf(),
                self.graph == old(self).graph,
                n == self.graph.n_mutations,
                old(self).cursor.0 <= self.cursor.0,
                old(self).cursor.0 == self.cursor.0 ==> old(self).cursor.1 <= self.cursor.1,
                forall|x: u32, y: u32|
                    old(self).ahead(old(self).cursor(), x as int, y as int) && (x < self.cursor.0
                        || (x == self.cursor.0 && y < self.cursor.1)) ==> #[trigger] old(
                        self,
                    ).graph().spec_conflicting(MutId(x), MutId(y)),
            decreases n + 1 - self.cursor.0,
        {
            let ghost first = self.cursor.0;
            while self.cursor.1 <= n
                invariant
                    self.wf(),
                    self.cursor.0 == first,
                    self.cursor.0 <= n,
                    self.graph == old(self).graph,
                    n == self.graph.n_mutations,
                    old(self).cursor.0 <= self.cursor.0,
                    old(self).cursor.0 == self.cursor.0 ==> old(self).cursor.1 <= self.cursor.1,
                    forall|x: u32, y: u32|
                        old(self).ahead(old(self).cursor(), x as int, y as int) && (x
                            < self.cursor.0 || (x == self.cursor.0 && y < self.cursor.1))
                            ==> #[trigger] old(self).graph().spec_conflicting(MutId(x), MutId(y)),
                decreases n + 1 - self.cursor.1,
            {
                let i = self.cursor.0 as u32;
                let j = self.cursor.1 as u32;
                self.cursor.1 += 1;
                if self.graph.compatible_mutations(MutId(i), MutId(j)) {
                    return Some((MutId(i), MutId(j)));
                }
            }
            self.cursor.0 += 1;
            self.cursor.1 = self.cursor.0 + 1;
        }
        None
    }
}

} // verus!
