//! Batching: the mutations of a run are packed into mutants, so that no two
//! mutations of a mutant conflict, a mutant holds no more mutations than
//! the cap allows, and a mutation that counts as unsafe stays alone.

use vstd::prelude::*;
use vstd::multiset::Multiset;
use rand::rngs::StdRng;
use crate::conflicts::MutationConflictGraph;
use crate::mutation::Mut;
use crate::order::reverse;
use crate::order::sort_by_keys;
use crate::order::sorted_by_key;
use crate::mutation::MutId;
use crate::random::choose_index;
use crate::random::choose_stable_of;
use crate::random::gen_ratio;
use crate::random::shuffle;
use crate::subst::SubstDef;

verus! {

/// The number of a mutant. Mutants are numbered from 1 in the order in
/// which they are opened.
#[derive(Clone, Copy, Debug, Hash, PartialEq, Eq, Structural)]
pub struct MutantId(pub u32);

impl MutantId {
    pub fn index(&self) -> (index: u32)
        ensures
            index == self.0,
    {
        self.0
    }
}

/// A batch of mutations that are tested together.
pub struct Mutant<'trg, 'ast, M> {
    pub id: MutantId,
    pub mutations: Vec<Mut<'trg, 'ast, M>>,
}

impl<'trg, 'ast, M> Mutant<'trg, 'ast, M> {
    /// What the mutations of the mutant say of themselves, in order.
    pub fn iter_mutations(&self) -> (mutations: Vec<&M>)
        ensures
            mutations@.len() == self.mutations@.len(),
            forall|i: int|
                0 <= i < mutations@.len() ==> *#[trigger] mutations@[i]
                    == self.mutations@[i].mutation,
    {
        let mut mutations: Vec<&M> = Vec::new();
        let mut i: usize = 0;
        while i < self.mutations.len()
            invariant
                0 <= i <= self.mutations.len(),
                mutations@.len() == i,
                forall|k: int|
                    0 <= k < i ==> *#[trigger] mutations@[k] == self.mutations@[k].mutation,
            decreases self.mutations.len() - i,
        {
            mutations.push(&self.mutations[i].mutation);
            i += 1;
        }
        mutations
    }

    /// The substitutions of all mutations of the mutant, mutation after
    /// mutation.
    pub open spec fn substitutions(self) -> Seq<SubstDef<'ast>> {
        self.mutations@.map_values(|m: Mut<'trg, 'ast, M>| m.substs@).flatten()
    }

    /// The substitutions of all mutations of the mutant, mutation after
    /// mutation.
    pub fn iter_substitutions(&self) -> (substs: Vec<&SubstDef<'ast>>)
        ensures
            substs@.len() == self.substitutions().len(),
            forall|i: int| 0 <= i < substs@.len() ==> *#[trigger] substs@[i] == self.substitutions()[i],
    {
        let ghost lists = self.mutations@.map_values(|m: Mut<'trg, 'ast, M>| m.substs@);
        let mut substs: Vec<&SubstDef<'ast>> = Vec::new();
        let mut i: usize = 0;
        assert(lists.take(0) =~= Seq::empty());
        while i < self.mutations.len()
            invariant
                0 <= i <= self.mutations.len(),
                lists == self.mutations@.map_values(|m: Mut<'trg, 'ast, M>| m.substs@),
                substs@.len() == lists.take(i as int).flatten().len(),
                forall|k: int|
                    0 <= k < substs@.len() ==> *#[trigger] substs@[k] == lists.take(
                        i as int,
                    ).flatten()[k],
            decreases self.mutations.len() - i,
        {
            let items = self.mutations[i].substs.as_slice();
            let ghost start = substs@;
            let ghost done = lists.take(i as int).flatten();
            let mut j: usize = 0;
            while j < items.len()
                invariant
                    0 <= j <= items.len(),
                    substs@.len() == start.len() + j,
                    forall|k: int| 0 <= k < start.len() ==> #[trigger] substs@[k] == start[k],
                    forall|k: int|
                        start.len() <= k < substs@.len() ==> *#[trigger] substs@[k] == items@[k
                            - start.len()],
                decreases items.len() - j,
            {
                substs.push(&items[j]);
                j += 1;
            }
            proof {
                assert(lists.take(i + 1) =~= lists.take(i as int).push(lists[i as int]));
                lists.take(i as int).lemma_flatten_push(lists[i as int]);
                assert(lists.take(i + 1).flatten() =~= done + items@);
                assert(items@ == lists[i as int]);
                assert forall|k: int| 0 <= k < substs@.len() implies *#[trigger] substs@[k]
                    == lists.take(i + 1).flatten()[k] by {
                    if k < start.len() {
                        assert(substs@[k] == start[k]);
                    }
                }
            }
            i += 1;
        }
        assert(lists.take(i as int) =~= lists);
        substs
    }
}

/// The mutations of the mutants, mutant by mutant.
pub open spec fn batches_of<'trg, 'ast, M>(mutants: Seq<Mutant<'trg, 'ast, M>>) -> Seq<
    Seq<Mut<'trg, 'ast, M>>,
> {
    Seq::new(mutants.len(), |k: int| mutants[k].mutations@)
}

/// All mutations of all batches, each as often as it occurs.
pub open spec fn all_mutations<T>(batches: Seq<Seq<T>>) -> Multiset<T>
    decreases batches.len(),
{
    if batches.len() == 0 {
        Multiset::empty()
    } else {
        all_mutations(batches.drop_last()).add(batches.last().to_multiset())
    }
}

/// No two mutations of the batch conflict.
pub open spec fn conflict_free<M>(batch: Seq<Mut<M>>, graph: MutationConflictGraph) -> bool {
    forall|p: int, q: int|
        0 <= p < q < batch.len() ==> !graph.spec_conflicting(
            (#[trigger] batch[p]).id,
            (#[trigger] batch[q]).id,
        )
}

/// The mutation can join the batch: the batch is below the cap and none of
/// its mutations conflicts with the mutation.
pub open spec fn joinable<M>(
    mutation: Mut<M>,
    batch: Seq<Mut<M>>,
    graph: MutationConflictGraph,
    cap: usize,
) -> bool {
    &&& batch.len() < cap
    &&& forall|p: int|
        0 <= p < batch.len() ==> !graph.spec_conflicting((#[trigger] batch[p]).id, mutation.id)
}

/// Every batch holds a mutation, is free of conflicts, and holds no more
/// mutations than the cap allows unless it holds a single one.
pub open spec fn batched<M>(
    batches: Seq<Seq<Mut<M>>>,
    graph: MutationConflictGraph,
    cap: usize,
) -> bool {
    forall|k: int|
        0 <= k < batches.len() ==> {
            &&& (#[trigger] batches[k]).len() >= 1
            &&& conflict_free(batches[k], graph)
            &&& batches[k].len() == 1 || batches[k].len() <= cap
        }
}

/// A mutation that counts as unsafe is alone in its batch.
pub open spec fn unsafe_isolated<M>(batches: Seq<Seq<Mut<M>>>, graph: MutationConflictGraph) -> bool {
    forall|k: int, p: int|
        0 <= k < batches.len() && 0 <= p < batches[k].len() && graph.spec_is_unsafe(
            (#[trigger] batches[k][p]).id,
        ) ==> batches[k].len() == 1
}

/// Every mutation of every batch has its number among `ids`.
pub open spec fn ids_within<M>(batches: Seq<Seq<Mut<M>>>, ids: Set<u32>) -> bool {
    forall|k: int, p: int|
        0 <= k < batches.len() && 0 <= p < batches[k].len() ==> ids.contains(
            (#[trigger] batches[k][p]).id.0,
        )
}

/// The mutants are numbered from 1 in their order.
pub open spec fn numbered<M>(mutants: Seq<Mutant<M>>) -> bool {
    forall|k: int| 0 <= k < mutants.len() ==> (#[trigger] mutants[k]).id.0 == k + 1
}

/// The batches after a mutation was put into batch `choice`, or into a new
/// batch at the end where there is no choice.
pub open spec fn placed<T>(batches: Seq<Seq<T>>, choice: Option<int>, mutation: T) -> Seq<Seq<T>> {
    match choice {
        Some(i) => batches.update(i, batches[i].push(mutation)),
        None => batches.push(seq![mutation]),
    }
}

pub proof fn lemma_all_mutations_push<T>(batches: Seq<Seq<T>>, batch: Seq<T>)
    ensures
        all_mutations(batches.push(batch)) == all_mutations(batches).add(batch.to_multiset()),
{
    assert(batches.push(batch).drop_last() =~= batches);
}

pub proof fn lemma_all_mutations_update<T>(batches: Seq<Seq<T>>, i: int, batch: Seq<T>)
    requires
        0 <= i < batches.len(),
    ensures
        all_mutations(batches.update(i, batch)).add(batches[i].to_multiset()) == all_mutations(
            batches,
        ).add(batch.to_multiset()),
    decreases batches.len(),
{
    let updated = batches.update(i, batch);
    if i == batches.len() - 1 {
        assert(updated.drop_last() =~= batches.drop_last());
        assert(all_mutations(updated).add(batches[i].to_multiset()) =~= all_mutations(batches).add(
            batch.to_multiset(),
        ));
    } else {
        lemma_all_mutations_update(batches.drop_last(), i, batch);
        assert(updated.drop_last() =~= batches.drop_last().update(i, batch));
        assert(updated.last() == batches.last());
        assert(batches.drop_last()[i] == batches[i]);
        let rest = all_mutations(batches.drop_last());
        let rest_updated = all_mutations(updated.drop_last());
        assert(rest_updated.add(batches[i].to_multiset()) == rest.add(batch.to_multiset()));
        assert(all_mutations(updated) == rest_updated.add(batches.last().to_multiset()));
        assert(all_mutations(batches) == rest.add(batches.last().to_multiset()));
        assert(rest_updated.add(batches.last().to_multiset()).add(batches[i].to_multiset())
            =~= rest_updated.add(batches[i].to_multiset()).add(batches.last().to_multiset()));
        assert(rest.add(batches.last().to_multiset()).add(batch.to_multiset()) =~= rest.add(
            batch.to_multiset(),
        ).add(batches.last().to_multiset()));
    }
}

pub proof fn lemma_all_mutations_remove<T>(batches: Seq<Seq<T>>, i: int)
    requires
        0 <= i < batches.len(),
    ensures
        all_mutations(batches.remove(i)).add(batches[i].to_multiset()) == all_mutations(batches),
    decreases batches.len(),
{
    let removed = batches.remove(i);
    if i == batches.len() - 1 {
        assert(removed =~= batches.drop_last());
    } else {
        lemma_all_mutations_remove(batches.drop_last(), i);
        assert(removed.drop_last() =~= batches.drop_last().remove(i));
        assert(removed.last() == batches.last());
        assert(all_mutations(removed).add(batches[i].to_multiset()) =~= all_mutations(batches));
    }
}

/// Putting a mutation into a batch adds that mutation, and nothing else, to
/// the mutations of all batches.
pub proof fn lemma_placed_adds<T>(batches: Seq<Seq<T>>, choice: Option<int>, mutation: T)
    requires
        choice matches Some(i) ==> 0 <= i < batches.len(),
    ensures
        all_mutations(placed(batches, choice, mutation)) == all_mutations(batches).insert(mutation),
{
    broadcast use vstd::seq_lib::group_to_multiset_ensures;
    broadcast use vstd::multiset::group_multiset_axioms;

    match choice {
        Some(i) => {
            lemma_all_mutations_update(batches, i, batches[i].push(mutation));
            assert(batches[i].push(mutation).to_multiset() =~= batches[i].to_multiset().insert(
                mutation,
            ));
            let after = all_mutations(placed(batches, choice, mutation));
            let before = all_mutations(batches);
            let batch = batches[i].to_multiset();
            assert(after.add(batch) == before.add(batch.insert(mutation)));
            assert forall|v: T| after.count(v) == #[trigger] before.insert(mutation).count(v) by {
                assert(after.add(batch).count(v) == after.count(v) + batch.count(v));
                assert(before.add(batch.insert(mutation)).count(v) == before.count(v)
                    + batch.insert(mutation).count(v));
            }
            assert(after =~= before.insert(mutation));
        },
        None => {
            lemma_all_mutations_push(batches, seq![mutation]);
            assert(seq![mutation] =~= Seq::<T>::empty().push(mutation));
            assert(Seq::<T>::empty().to_multiset().len() == 0);
            vstd::multiset::lemma_multiset_empty_len(Seq::<T>::empty().to_multiset());
            assert(seq![mutation].to_multiset() =~= Multiset::<T>::empty().insert(mutation));
            assert(all_mutations(placed(batches, choice, mutation)) =~= all_mutations(
                batches,
            ).insert(mutation));
        },
    }
}


/// Whether the mutation can join the mutant: the mutant is below the cap
/// and none of its mutations conflicts with the mutation.
pub fn compatible_mutant<M>(
    mutation: &Mut<M>,
    mutant: &Mutant<M>,
    mutation_conflict_graph: &MutationConflictGraph,
    mutant_max_mutations_count: usize,
) -> (r: bool)
    ensures
        r == joinable(
            *mutation,
            mutant.mutations@,
            *mutation_conflict_graph,
            mutant_max_mutations_count,
        ),
{
    // Ensure the mutant has not already reached capacity.
    if mutant.mutations.len() >= mutant_max_mutations_count {
        return false;
    }
    // The mutation must not conflict with any other mutation already in the mutant.
    let mut i: usize = 0;
    while i < mutant.mutations.len()
        invariant
            0 <= i <= mutant.mutations.len(),
            forall|p: int|
                0 <= p < i ==> !mutation_conflict_graph.spec_conflicting(
                    (#[trigger] mutant.mutations@[p]).id,
                    mutation.id,
                ),
        decreases mutant.mutations.len() - i,
    {
        if mutation_conflict_graph.conflicting_mutations(mutant.mutations[i].id, mutation.id) {
            return false;
        }
        i += 1;
    }
    true
}

/// The first batch at or after `from` that the mutation can join.
pub open spec fn first_joinable<M>(
    mutation: Mut<M>,
    batches: Seq<Seq<Mut<M>>>,
    graph: MutationConflictGraph,
    cap: usize,
    from: int,
) -> Option<int>
    decreases batches.len() - from,
{
    if from < 0 || from >= batches.len() {
        None
    } else if joinable(mutation, batches[from], graph, cap) {
        Some(from)
    } else {
        first_joinable(mutation, batches, graph, cap, from + 1)
    }
}

/// The first mutant that the mutation can join.
fn first_compatible<M>(
    mutation: &Mut<M>,
    mutants: &Vec<Mutant<M>>,
    graph: &MutationConflictGraph,
    cap: usize,
) -> (found: Option<usize>)
    ensures
        as_int(found) == first_joinable(*mutation, batches_of(mutants@), *graph, cap, 0),
        found matches Some(i) ==> i < mutants@.len() && joinable(
            *mutation,
            mutants@[i as int].mutations@,
            *graph,
            cap,
        ),
        found is None ==> forall|i: int|
            0 <= i < mutants@.len() ==> !joinable(
                *mutation,
                #[trigger] batches_of(mutants@)[i],
                *graph,
                cap,
            ),
{
    let mut i: usize = 0;
    while i < mutants.len()
        invariant
            0 <= i <= mutants.len(),
            forall|k: int|
                0 <= k < i ==> !joinable(*mutation, #[trigger] batches_of(mutants@)[k], *graph, cap),
            first_joinable(*mutation, batches_of(mutants@), *graph, cap, 0) == first_joinable(
                *mutation,
                batches_of(mutants@),
                *graph,
                cap,
                i as int,
            ),
        decreases mutants.len() - i,
    {
        assert(batches_of(mutants@)[i as int] == mutants@[i as int].mutations@);
        if compatible_mutant(mutation, &mutants[i], graph, cap) {
            return Some(i);
        }
        i += 1;
    }
    None
}

/// An index as a mathematical integer.
pub open spec fn as_int(index: Option<usize>) -> Option<int> {
    match index {
        Some(i) => Some(i as int),
        None => None,
    }
}

/// The mutants that the mutation can join, but for `excluded`.
fn compatible_indices<M>(
    mutation: &Mut<M>,
    mutants: &Vec<Mutant<M>>,
    graph: &MutationConflictGraph,
    cap: usize,
    excluded: Option<usize>,
) -> (found: Vec<usize>)
    ensures
        forall|i: usize| #[trigger]
            found@.contains(i) <==> (i < mutants@.len() && excluded != Some(i) && joinable(
                *mutation,
                mutants@[i as int].mutations@,
                *graph,
                cap,
            )),
        forall|a: int, b: int| 0 <= a < b < found@.len() ==> found@[a] < found@[b],
{
    let mut found: Vec<usize> = Vec::new();
    let mut i: usize = 0;
    while i < mutants.len()
        invariant
            0 <= i <= mutants.len(),
            forall|a: int, b: int| 0 <= a < b < found@.len() ==> found@[a] < found@[b],
            forall|a: int| 0 <= a < found@.len() ==> found@[a] < i,
            forall|k: usize| #[trigger]
                found@.contains(k) <==> (k < i && excluded != Some(k) && joinable(
                    *mutation,
                    mutants@[k as int].mutations@,
                    *graph,
                    cap,
                )),
        decreases mutants.len() - i,
    {
        let ghost before = found@;
        let skip = match excluded {
            Some(e) => e == i,
            None => false,
        };
        if !skip && compatible_mutant(mutation, &mutants[i], graph, cap) {
            found.push(i);
            assert(found@.last() == i);
        }
        proof {
            assert forall|k: usize| #[trigger]
                found@.contains(k) <==> (k < i + 1 && excluded != Some(k) && joinable(
                    *mutation,
                    mutants@[k as int].mutations@,
                    *graph,
                    cap,
                )) by {
                if found@.contains(k) {
                    let n = choose|n: int| 0 <= n < found@.len() && found@[n] == k;
                    if n < before.len() {
                        assert(before[n] == k);
                        assert(before.contains(k));
                    }
                }
                if k < i && before.contains(k) {
                    let n = choose|n: int| 0 <= n < before.len() && before[n] == k;
                    assert(found@[n] == k);
                }
                if k == i && found@.len() > before.len() {
                    assert(found@[found@.len() - 1] == k);
                }
            }
        }
        i += 1;
    }
    found
}

/// Picks at random one of the mutants that the mutation can join. There is
/// none to pick where the mutation counts as unsafe, which keeps it alone,
/// or where no mutant can take it.
pub fn choose_random_mutant<M>(
    mutation: &Mut<M>,
    mutants: &Vec<Mutant<M>>,
    mutation_conflict_graph: &MutationConflictGraph,
    mutant_max_mutations_count: usize,
    rng: &mut StdRng,
) -> (picked: Option<usize>)
    ensures
        picked matches Some(i) ==> {
            &&& i < mutants@.len()
            &&& !mutation_conflict_graph.spec_is_unsafe(mutation.id)
            &&& joinable(
                *mutation,
                mutants@[i as int].mutations@,
                *mutation_conflict_graph,
                mutant_max_mutations_count,
            )
        },
        picked is None <==> (mutation_conflict_graph.spec_is_unsafe(mutation.id) || forall|i: int|
            0 <= i < mutants@.len() ==> !joinable(
                *mutation,
                (#[trigger] mutants@[i]).mutations@,
                *mutation_conflict_graph,
                mutant_max_mutations_count,
            )),
{
    if mutants.len() == 0 {
        return None;
    }
    // Unsafe mutations are isolated into their own mutant.
    if mutation_conflict_graph.is_unsafe(mutation.id) {
        return None;
    }
    // Only the mutants that the mutation can join are considered.
    let possible_mutants = compatible_indices(
        mutation,
        mutants,
        mutation_conflict_graph,
        mutant_max_mutations_count,
        None,
    );
    let picked = choose_stable_of(&possible_mutants, rng);
    proof {
        match picked {
            Some(i) => {
                assert(possible_mutants@.contains(i));
            },
            None => {
                assert forall|i: int| 0 <= i < mutants@.len() implies !joinable(
                    *mutation,
                    (#[trigger] mutants@[i]).mutations@,
                    *mutation_conflict_graph,
                    mutant_max_mutations_count,
                ) by {
                    assert(!possible_mutants@.contains(i as usize));
                }
            },
        }
        if picked is Some {
            let i = picked->0;
            assert(joinable(
                *mutation,
                mutants@[i as int].mutations@,
                *mutation_conflict_graph,
                mutant_max_mutations_count,
            ));
        }
    }
    picked
}

/// Puts the mutation into the chosen mutant, or into a new mutant at the
/// end where there is no choice.
fn place<'trg, 'ast, M>(
    mutants: &mut Vec<Mutant<'trg, 'ast, M>>,
    choice: Option<usize>,
    mutation: Mut<'trg, 'ast, M>,
    next_mutant_index: &mut u32,
    Ghost(graph): Ghost<MutationConflictGraph>,
    Ghost(cap): Ghost<usize>,
    Ghost(ids): Ghost<Set<u32>>,
)
    requires
        numbered(old(mutants)@),
        *old(next_mutant_index) == old(mutants)@.len() + 1,
        old(mutants)@.len() + 1 < u32::MAX,
        batched(batches_of(old(mutants)@), graph, cap),
        choice matches Some(i) ==> {
            &&& i < old(mutants)@.len()
            &&& joinable(mutation, old(mutants)@[i as int].mutations@, graph, cap)
            &&& !graph.spec_is_unsafe(mutation.id)
        },
        ids_within(batches_of(old(mutants)@), ids),
        ids.contains(mutation.id.0),
        graph.isolates_unsafe(ids) ==> unsafe_isolated(batches_of(old(mutants)@), graph),
    ensures
        batches_of(final(mutants)@) == placed(batches_of(old(mutants)@), as_int(choice), mutation),
        numbered(final(mutants)@),
        *final(next_mutant_index) == final(mutants)@.len() + 1,
        final(mutants)@.len() <= old(mutants)@.len() + 1,
        batched(batches_of(final(mutants)@), graph, cap),
        ids_within(batches_of(final(mutants)@), ids),
        graph.isolates_unsafe(ids) ==> unsafe_isolated(batches_of(final(mutants)@), graph),
        all_mutations(batches_of(final(mutants)@)) == all_mutations(
            batches_of(old(mutants)@),
        ).insert(mutation),
{
    let ghost before = batches_of(mutants@);
    match choice {
        Some(i) => {
            mutants[i].mutations.push(mutation);
            proof {
                let after = batches_of(mutants@);
                assert(after =~= placed(before, Some(i as int), mutation));
                let batch = after[i as int];
                assert(batch == before[i as int].push(mutation));
                assert forall|p: int, q: int| 0 <= p < q < batch.len() implies !graph.spec_conflicting(

                    (#[trigger] batch[p]).id,
                    (#[trigger] batch[q]).id,
                ) by {
                    if q == batch.len() - 1 {
                        assert(batch[p] == before[i as int][p]);
                    } else {
                        assert(batch[p] == before[i as int][p]);
                        assert(batch[q] == before[i as int][q]);
                    }
                }
                assert forall|k: int| 0 <= k < after.len() implies {
                    &&& (#[trigger] after[k]).len() >= 1
                    &&& conflict_free(after[k], graph)
                    &&& after[k].len() == 1 || after[k].len() <= cap
                } by {
                    if k != i {
                        assert(after[k] == before[k]);
                    }
                }
                assert forall|k: int, p: int|
                    0 <= k < after.len() && 0 <= p < after[k].len() implies ids.contains(
                    (#[trigger] after[k][p]).id.0,
                ) by {
                    if k != i {
                        assert(after[k][p] == before[k][p]);
                    } else if p < before[k].len() {
                        assert(after[k][p] == before[k][p]);
                    }
                }
                if graph.isolates_unsafe(ids) {
                    assert forall|k: int, p: int|
                        0 <= k < after.len() && 0 <= p < after[k].len() && graph.spec_is_unsafe(
                            (#[trigger] after[k][p]).id,
                        ) implies after[k].len() == 1 by {
                        if k != i {
                            assert(after[k][p] == before[k][p]);
                        } else if p < before[k].len() {
                            let member = before[k][p];
                            assert(after[k][p] == member);
                            assert(ids.contains(member.id.0));
                            assert(member.id.0 != mutation.id.0);
                            assert(graph.spec_conflicting(MutId(member.id.0), MutId(mutation.id.0)));
                            assert(!graph.spec_conflicting(member.id, mutation.id));
                        }
                    }
                }
            }
        },
        None => {
            let mut mutations = Vec::new();
            mutations.push(mutation);
            mutants.push(Mutant { id: MutantId(*next_mutant_index), mutations });
            *next_mutant_index = *next_mutant_index + 1;
            proof {
                let after = batches_of(mutants@);
                assert(mutations@ =~= seq![mutation]);
                assert(after =~= placed(before, None, mutation));
                assert forall|k: int| 0 <= k < after.len() implies {
                    &&& (#[trigger] after[k]).len() >= 1
                    &&& conflict_free(after[k], graph)
                    &&& after[k].len() == 1 || after[k].len() <= cap
                } by {
                    if k < before.len() {
                        assert(after[k] == before[k]);
                    }
                }
                assert forall|k: int, p: int|
                    0 <= k < after.len() && 0 <= p < after[k].len() implies ids.contains(
                    (#[trigger] after[k][p]).id.0,
                ) by {
                    if k < before.len() {
                        assert(after[k][p] == before[k][p]);
                    }
                }
                if graph.isolates_unsafe(ids) {
                    assert forall|k: int, p: int|
                        0 <= k < after.len() && 0 <= p < after[k].len() && graph.spec_is_unsafe(
                            (#[trigger] after[k][p]).id,
                        ) implies after[k].len() == 1 by {
                        if k < before.len() {
                            assert(after[k][p] == before[k][p]);
                        }
                    }
                }
            }
        },
    }
    proof {
        lemma_placed_adds(before, as_int(choice), mutation);
    }
}

/// A choice that batching may make for a mutation: a batch that the
/// mutation can join, unless the mutation counts as unsafe; a new batch
/// only for a mutation that counts as unsafe or can join no batch.
pub open spec fn fair_choice<M>(
    mutation: Mut<M>,
    batches: Seq<Seq<Mut<M>>>,
    choice: Option<int>,
    graph: MutationConflictGraph,
    cap: usize,
) -> bool {
    match choice {
        Some(i) => 0 <= i < batches.len() && !graph.spec_is_unsafe(mutation.id) && joinable(
            mutation,
            batches[i],
            graph,
            cap,
        ),
        None => graph.spec_is_unsafe(mutation.id) || forall|i: int|
            0 <= i < batches.len() ==> !joinable(mutation, #[trigger] batches[i], graph, cap),
    }
}

/// The batches that come of putting the mutations, one after the other,
/// where the choices say.
pub open spec fn batches_by<T>(mutations: Seq<T>, choices: Seq<Option<int>>) -> Seq<Seq<T>>
    decreases mutations.len(),
{
    if mutations.len() == 0 {
        Seq::empty()
    } else {
        placed(
            batches_by(mutations.drop_last(), choices.drop_last()),
            choices.last(),
            mutations.last(),
        )
    }
}

/// There is one choice for each mutation, and each is one that batching
/// may make when the mutations before it are placed.
pub open spec fn fair_choices<M>(
    mutations: Seq<Mut<M>>,
    choices: Seq<Option<int>>,
    graph: MutationConflictGraph,
    cap: usize,
) -> bool
    decreases mutations.len(),
{
    &&& choices.len() == mutations.len()
    &&& mutations.len() > 0 ==> {
        &&& fair_choices(mutations.drop_last(), choices.drop_last(), graph, cap)
        &&& fair_choice(
            mutations.last(),
            batches_by(mutations.drop_last(), choices.drop_last()),
            choices.last(),
            graph,
            cap,
        )
    }
}

/// The batches come of placing the mutations in the order of the list,
/// each by a choice that batching may make.
pub open spec fn placed_in_turn<'trg, 'ast, M>(
    batches: Seq<Seq<Mut<'trg, 'ast, M>>>,
    mutations: Seq<Mut<'trg, 'ast, M>>,
    graph: MutationConflictGraph,
    cap: usize,
) -> bool {
    exists|choices: Seq<Option<int>>| #[trigger]
        fair_choices(mutations, choices, graph, cap) && batches == batches_by(mutations, choices)
}

/// The batches come of placing the mutations in turn, in some order.
pub open spec fn placed_in_some_order<'trg, 'ast, M>(
    batches: Seq<Seq<Mut<'trg, 'ast, M>>>,
    mutations: Seq<Mut<'trg, 'ast, M>>,
    graph: MutationConflictGraph,
    cap: usize,
) -> bool {
    exists|ordered: Seq<Mut<'trg, 'ast, M>>|
        ordered.to_multiset() == mutations.to_multiset() && #[trigger] placed_in_turn(
            batches,
            ordered,
            graph,
            cap,
        )
}

/// One more mutation placed by a fair choice.
proof fn lemma_fair_step<M>(
    mutations: Seq<Mut<M>>,
    choices: Seq<Option<int>>,
    graph: MutationConflictGraph,
    cap: usize,
    mutation: Mut<M>,
    choice: Option<int>,
)
    requires
        fair_choices(mutations, choices, graph, cap),
        fair_choice(mutation, batches_by(mutations, choices), choice, graph, cap),
    ensures
        fair_choices(mutations.push(mutation), choices.push(choice), graph, cap),
        batches_by(mutations.push(mutation), choices.push(choice)) == placed(
            batches_by(mutations, choices),
            choice,
            mutation,
        ),
{
    assert(mutations.push(mutation).drop_last() =~= mutations);
    assert(choices.push(choice).drop_last() =~= choices);
}

/// Whether a batching of the mutations is sound: every mutant holds a
/// mutation and no two that conflict, no mutant of several mutations is
/// above the cap, the mutants are numbered from 1, every mutation is in
/// exactly one mutant, and, where the graph keeps unsafe mutations apart
/// from all others among them, each unsafe mutation is alone.
pub open spec fn batching_of<'trg, 'ast, M>(
    mutants: Seq<Mutant<'trg, 'ast, M>>,
    mutations: Seq<Mut<'trg, 'ast, M>>,
    graph: MutationConflictGraph,
    cap: usize,
) -> bool {
    &&& batched(batches_of(mutants), graph, cap)
    &&& numbered(mutants)
    &&& all_mutations(batches_of(mutants)) == mutations.to_multiset()
    &&& graph.isolates_unsafe(crate::conflicts::mutation_ids(mutations)) ==> unsafe_isolated(
        batches_of(mutants),
        graph,
    )
}

/// Every mutation in a mutant of its own, in the order of the list.
pub fn batch_mutations_dummy<'trg, 'ast, M>(mutations: Vec<Mut<'trg, 'ast, M>>) -> (mutants: Vec<
    Mutant<'trg, 'ast, M>,
>)
    requires
        mutations@.len() < u32::MAX,
    ensures
        mutants@.len() == mutations@.len(),
        numbered(mutants@),
        forall|k: int| 0 <= k < mutants@.len() ==> (#[trigger] mutants@[k]).mutations@ == seq![mutations@[k]],
        all_mutations(batches_of(mutants@)) == mutations@.to_multiset(),
{
    broadcast use vstd::seq_lib::group_to_multiset_ensures;

    let mut mutants: Vec<Mutant<'trg, 'ast, M>> = Vec::new();
    let mut next_mutant_index: u32 = 1;
    let ghost all = mutations@;
    assert(all.take(0) =~= Seq::empty());
    assert(batches_of(mutants@) =~= Seq::empty());
    assert(all.take(0).to_multiset() =~= Multiset::empty()) by {
        vstd::multiset::lemma_multiset_empty_len(all.take(0).to_multiset());
    }
    for mutation in it: mutations
        invariant
            it.seq() == all,
            all.len() < u32::MAX,
            mutants@.len() == it.index(),
            next_mutant_index == it.index() + 1,
            numbered(mutants@),
            forall|k: int|
                0 <= k < mutants@.len() ==> (#[trigger] mutants@[k]).mutations@ == seq![all[k]],
            all_mutations(batches_of(mutants@)) == all.take(it.index() as int).to_multiset(),
    {
        let ghost before = batches_of(mutants@);
        let ghost index = it.index() as int;
        let mut list = Vec::new();
        list.push(mutation);
        mutants.push(Mutant { id: MutantId(next_mutant_index), mutations: list });
        next_mutant_index += 1;
        proof {
            assert(list@ =~= seq![mutation]);
            assert(batches_of(mutants@) =~= placed(before, None, mutation));
            lemma_placed_adds(before, None, mutation);
            assert(all.take(index + 1) =~= all.take(index).push(mutation));
            vstd::seq_lib::to_multiset_build(all.take(index), mutation);
        }
    }
    assert(all.take(all.len() as int) =~= all);
    mutants
}


/// How greedy batching orders the mutations first.
#[derive(Clone, Copy, Debug, PartialEq, Eq, Structural)]
pub enum GreedyMutationBatchingOrderingHeuristic {
    /// Fewest conflicts first.
    ConflictsAsc,
    /// Most conflicts first.
    ConflictsDesc,
    /// Shuffled.
    Random,
}

/// The chance `numerator / denominator` with which greedy batching picks a
/// mutant at random.
#[derive(Clone, Copy, Debug, PartialEq, Eq, Structural)]
pub struct Epsilon {
    pub numerator: u32,
    pub denominator: u32,
}

impl Epsilon {
    /// A chance between 0 and 1.
    pub open spec fn valid(self) -> bool {
        self.denominator > 0 && self.numerator <= self.denominator
    }
}

/// With how many of the first `n` mutations of the list, other than itself,
/// the mutation numbered `id` conflicts.
pub open spec fn conflicts_among<M>(
    mutations: Seq<Mut<M>>,
    graph: MutationConflictGraph,
    id: MutId,
    n: int,
) -> nat
    decreases n,
{
    if n <= 0 {
        0
    } else {
        conflicts_among(mutations, graph, id, n - 1) + (if mutations[n - 1].id != id
            && graph.spec_conflicting(id, mutations[n - 1].id) {
            1nat
        } else {
            0nat
        })
    }
}

/// With how many mutations of the list, other than itself, the mutation
/// numbered `id` conflicts.
pub open spec fn conflict_count<M>(mutations: Seq<Mut<M>>, graph: MutationConflictGraph, id: MutId) -> nat {
    conflicts_among(mutations, graph, id, mutations.len() as int)
}

proof fn lemma_conflicts_among_bound<M>(
    mutations: Seq<Mut<M>>,
    graph: MutationConflictGraph,
    id: MutId,
    n: int,
)
    requires
        0 <= n,
    ensures
        conflicts_among(mutations, graph, id, n) <= n,
    decreases n,
{
    if n > 0 {
        lemma_conflicts_among_bound(mutations, graph, id, n - 1);
    }
}

fn count_conflicts<M>(mutations: &Vec<Mut<M>>, graph: &MutationConflictGraph) -> (counts: Vec<
    Option<u128>,
>)
    ensures
        counts@.len() == mutations@.len(),
        forall|i: int|
            0 <= i < counts@.len() ==> #[trigger] counts@[i] == Some(
                conflict_count(mutations@, *graph, mutations@[i].id) as u128,
            ),
{
    let mut counts: Vec<Option<u128>> = Vec::new();
    let mut i: usize = 0;
    while i < mutations.len()
        invariant
            0 <= i <= mutations.len(),
            counts@.len() == i,
            forall|k: int|
                0 <= k < i ==> #[trigger] counts@[k] == Some(
                    conflict_count(mutations@, *graph, mutations@[k].id) as u128,
                ),
        decreases mutations.len() - i,
    {
        let id = mutations[i].id;
        let mut conflict_heuristic: usize = 0;
        let mut j: usize = 0;
        while j < mutations.len()
            invariant
                0 <= j <= mutations.len(),
                conflict_heuristic == conflicts_among(mutations@, *graph, id, j as int),
                conflict_heuristic <= j,
            decreases mutations.len() - j,
        {
            proof {
                lemma_conflicts_among_bound(mutations@, *graph, id, j + 1);
            }
            if !(mutations[j].id == id) && graph.conflicting_mutations(id, mutations[j].id) {
                conflict_heuristic += 1;
            }
            j += 1;
        }
        counts.push(Some(conflict_heuristic as u128));
        i += 1;
    }
    counts
}

/// The order in which greedy batching takes the mutations under a
/// heuristic that counts conflicts: ascending by the number of conflicts,
/// mutations of equal count in the order of the list; or that order
/// reversed.
pub open spec fn ordered_by_conflicts<'trg, 'ast, M>(
    mutations: Seq<Mut<'trg, 'ast, M>>,
    graph: MutationConflictGraph,
    most_first: bool,
) -> Seq<Mut<'trg, 'ast, M>> {
    let ascending = sorted_by_key(
        mutations,
        |m: Mut<'trg, 'ast, M>| conflict_count(mutations, graph, m.id),
    );
    if most_first {
        ascending.reverse()
    } else {
        ascending
    }
}

/// The mutations in the order of a heuristic that counts conflicts.
fn order_by_conflicts<'trg, 'ast, M>(
    mutations: Vec<Mut<'trg, 'ast, M>>,
    graph: &MutationConflictGraph,
    most_first: bool,
) -> (ordered: Vec<Mut<'trg, 'ast, M>>)
    ensures
        ordered@ == ordered_by_conflicts(mutations@, *graph, most_first),
        ordered@.to_multiset() == mutations@.to_multiset(),
{
    let counts = count_conflicts(&mutations, graph);
    let ghost key = |m: Mut<'trg, 'ast, M>| conflict_count(mutations@, *graph, m.id);
    let count = mutations.len();
    proof {
        assert forall|i: int| 0 <= i < mutations@.len() implies crate::order::rank(
            #[trigger] counts@[i],
        ) == key(mutations@[i]) by {
            assert(counts@[i] == Some(conflict_count(mutations@, *graph, mutations@[i].id) as u128));
            lemma_conflicts_among_bound(
                mutations@,
                *graph,
                mutations@[i].id,
                mutations@.len() as int,
            );
        }
    }
    let sorted = sort_by_keys(mutations, &counts, Ghost(key));
    if most_first {
        reverse(sorted)
    } else {
        sorted
    }
}

/// The mutant that greedy batching picks for a mutation when it picks
/// without chance: none for a mutation that counts as unsafe, else the
/// first batch that the mutation can join.
pub open spec fn greedy_choice<M>(
    mutation: Mut<M>,
    batches: Seq<Seq<Mut<M>>>,
    graph: MutationConflictGraph,
    cap: usize,
) -> Option<int> {
    if graph.spec_is_unsafe(mutation.id) {
        None
    } else {
        first_joinable(mutation, batches, graph, cap, 0)
    }
}

/// The batches that greedy batching makes of the mutations, taken in the
/// order of the list, when it picks without chance.
pub open spec fn greedy_batches<'trg, 'ast, M>(
    mutations: Seq<Mut<'trg, 'ast, M>>,
    graph: MutationConflictGraph,
    cap: usize,
) -> Seq<Seq<Mut<'trg, 'ast, M>>>
    decreases mutations.len(),
{
    if mutations.len() == 0 {
        Seq::empty()
    } else {
        let before = greedy_batches(mutations.drop_last(), graph, cap);
        placed(before, greedy_choice(mutations.last(), before, graph, cap), mutations.last())
    }
}

/// The order in which greedy batching takes the mutations, where the
/// heuristic fixes one.
pub open spec fn greedy_order<'trg, 'ast, M>(
    mutations: Seq<Mut<'trg, 'ast, M>>,
    graph: MutationConflictGraph,
    ordering_heuristic: Option<GreedyMutationBatchingOrderingHeuristic>,
) -> Seq<Mut<'trg, 'ast, M>> {
    match ordering_heuristic {
        Some(GreedyMutationBatchingOrderingHeuristic::ConflictsAsc) => ordered_by_conflicts(
            mutations,
            graph,
            false,
        ),
        Some(GreedyMutationBatchingOrderingHeuristic::ConflictsDesc) => ordered_by_conflicts(
            mutations,
            graph,
            true,
        ),
        _ => mutations,
    }
}

/// Greedy batching. The mutations are first ordered by the heuristic, if
/// one is given. Then each mutation in turn goes into a mutant: a mutation
/// that counts as unsafe into a new one; any other into the first mutant
/// that it can join, or, with the chance `epsilon`, into one picked at
/// random among those that it can join; and into a new mutant where it can
/// join none.
///
/// A random order and a chance each need a generator.
pub fn batch_mutations_greedy<'trg, 'ast, M>(
    mutations: Vec<Mut<'trg, 'ast, M>>,
    mutation_conflict_graph: &MutationConflictGraph,
    ordering_heuristic: Option<GreedyMutationBatchingOrderingHeuristic>,
    epsilon: Option<Epsilon>,
    rng: Option<&mut StdRng>,
    mutant_max_mutations_count: usize,
) -> (mutants: Vec<Mutant<'trg, 'ast, M>>)
    requires
        mutations@.len() < u32::MAX,
        ordering_heuristic == Some(GreedyMutationBatchingOrderingHeuristic::Random) ==> rng is Some,
        epsilon matches Some(e) ==> e.valid() && rng is Some,
    ensures
        batching_of(mutants@, mutations@, *mutation_conflict_graph, mutant_max_mutations_count),
        mutants@.len() <= mutations@.len(),
        epsilon is None && ordering_heuristic != Some(GreedyMutationBatchingOrderingHeuristic::Random)
            ==> batches_of(mutants@) == greedy_batches(
            greedy_order(mutations@, *mutation_conflict_graph, ordering_heuristic),
            *mutation_conflict_graph,
            mutant_max_mutations_count,
        ),
        ordering_heuristic != Some(GreedyMutationBatchingOrderingHeuristic::Random)
            ==> placed_in_turn(
            batches_of(mutants@),
            greedy_order(mutations@, *mutation_conflict_graph, ordering_heuristic),
            *mutation_conflict_graph,
            mutant_max_mutations_count,
        ),
        placed_in_some_order(
            batches_of(mutants@),
            mutations@,
            *mutation_conflict_graph,
            mutant_max_mutations_count,
        ),
{
    let ghost given = mutations@;
    let ghost ids = crate::conflicts::mutation_ids(given);
    let ghost graph = *mutation_conflict_graph;
    let cap = mutant_max_mutations_count;
    let mut rng = rng;
    let mut mutations = mutations;
    match ordering_heuristic {
        Some(GreedyMutationBatchingOrderingHeuristic::ConflictsAsc) => {
            mutations = order_by_conflicts(mutations, mutation_conflict_graph, false);
        },
        Some(GreedyMutationBatchingOrderingHeuristic::ConflictsDesc) => {
            mutations = order_by_conflicts(mutations, mutation_conflict_graph, true);
        },
        Some(GreedyMutationBatchingOrderingHeuristic::Random) => {
            match &mut rng {
                Some(rng) => {
                    shuffle(&mut mutations, rng);
                },
                None => {},
            }
        },
        None => {},
    }
    let ghost ordered = mutations@;
    let ghost exact = epsilon is None;
    proof {
        vstd::seq_lib::to_multiset_len(ordered);
        vstd::seq_lib::to_multiset_len(given);
        assert forall|k: int| 0 <= k < ordered.len() implies ids.contains(
            (#[trigger] ordered[k]).id.0,
        ) by {
            lemma_member_of_same_multiset(ordered, given, k);
        }
    }
    let mut mutants: Vec<Mutant<'trg, 'ast, M>> = Vec::new();
    let mut next_mutant_index: u32 = 1;
    let ghost mut choices: Seq<Option<int>> = Seq::empty();
    proof {
        assert(ordered.take(0) =~= Seq::empty());
        assert(batches_of(mutants@) =~= Seq::empty());
        assert(all_mutations(batches_of(mutants@)) =~= ordered.take(0).to_multiset()) by {
            vstd::seq_lib::to_multiset_len(ordered.take(0));
            vstd::multiset::lemma_multiset_empty_len(ordered.take(0).to_multiset());
        }
    }
    for mutation in it: mutations
        invariant
            it.seq() == ordered,
            ordered.len() < u32::MAX,
            graph == *mutation_conflict_graph,
            epsilon matches Some(e) ==> e.valid() && rng is Some,
            exact == (epsilon is None),
            forall|k: int| 0 <= k < ordered.len() ==> ids.contains((#[trigger] ordered[k]).id.0),
            mutants@.len() <= it.index(),
            next_mutant_index == mutants@.len() + 1,
            numbered(mutants@),
            batched(batches_of(mutants@), graph, cap),
            ids_within(batches_of(mutants@), ids),
            graph.isolates_unsafe(ids) ==> unsafe_isolated(batches_of(mutants@), graph),
            all_mutations(batches_of(mutants@)) == ordered.take(it.index() as int).to_multiset(),
            exact ==> batches_of(mutants@) == greedy_batches(
                ordered.take(it.index() as int),
                graph,
                cap,
            ),
            fair_choices(ordered.take(it.index() as int), choices, graph, cap),
            batches_of(mutants@) == batches_by(ordered.take(it.index() as int), choices),
    {
        let ghost index = it.index() as int;
        let ghost before = batches_of(mutants@);
        // Unsafe mutations are isolated into their own mutant.
        let mutant_candidate = if mutation_conflict_graph.is_unsafe(mutation.id) {
            None
        } else {
            // With the chance epsilon a random compatible mutant is picked, the
            // same way as in random batching.
            let random_choice = match epsilon {
                Some(epsilon) => {
                    match &mut rng {
                        Some(rng) => {
                            if gen_ratio(rng, epsilon.numerator, epsilon.denominator) {
                                Some(
                                    choose_random_mutant(
                                        &mutation,
                                        &mutants,
                                        mutation_conflict_graph,
                                        cap,
                                        rng,
                                    ),
                                )
                            } else {
                                None
                            }
                        },
                        None => None,
                    }
                },
                None => None,
            };
            match random_choice {
                Some(picked) => picked,
                // Pick the first mutant the current mutation is compatible with.
                None => first_compatible(&mutation, &mutants, mutation_conflict_graph, cap),
            }
        };
        proof {
            assert(ordered.take(index + 1) =~= ordered.take(index).push(mutation));
            assert(ordered.take(index + 1).drop_last() =~= ordered.take(index));
            vstd::seq_lib::to_multiset_build(ordered.take(index), mutation);
            if exact {
                assert(as_int(mutant_candidate) == greedy_choice(mutation, before, graph, cap));
            }
            if mutant_candidate is Some {
                assert(before[mutant_candidate->0 as int] == mutants@[mutant_candidate->0 as int].mutations@);
            } else if !graph.spec_is_unsafe(mutation.id) {
                assert forall|i: int| 0 <= i < before.len() implies !joinable(
                    mutation,
                    #[trigger] before[i],
                    graph,
                    cap,
                ) by {
                    assert(before[i] == mutants@[i].mutations@);
                }
            }
            lemma_fair_step(
                ordered.take(index),
                choices,
                graph,
                cap,
                mutation,
                as_int(mutant_candidate),
            );
            choices = choices.push(as_int(mutant_candidate));
        }
        place(
            &mut mutants,
            mutant_candidate,
            mutation,
            &mut next_mutant_index,
            Ghost(graph),
            Ghost(cap),
            Ghost(ids),
        );
    }
    proof {
        assert(ordered.take(ordered.len() as int) =~= ordered);
        assert(fair_choices(ordered, choices, graph, cap));
        assert(placed_in_turn(batches_of(mutants@), ordered, graph, cap));
    }
    mutants
}

/// Every item of a list is an item of any list with the same items.
proof fn lemma_member_of_same_multiset<M>(ordered: Seq<Mut<M>>, given: Seq<Mut<M>>, k: int)
    requires
        ordered.to_multiset() == given.to_multiset(),
        0 <= k < ordered.len(),
    ensures
        crate::conflicts::mutation_ids(given).contains(ordered[k].id.0),
{
    broadcast use vstd::seq_lib::group_to_multiset_ensures;

    assert(ordered.contains(ordered[k]));
    assert(ordered.to_multiset().count(ordered[k]) > 0);
    assert(given.contains(ordered[k]));
    let n = choose|n: int| 0 <= n < given.len() && given[n] == ordered[k];
    assert(given[n].id.0 == ordered[k].id.0);
}

/// Random batching: each mutation in turn goes into a mutant picked at
/// random among those that it can join, and into a new mutant where it can
/// join none or counts as unsafe.
pub fn batch_mutations_random<'trg, 'ast, M>(
    mutations: Vec<Mut<'trg, 'ast, M>>,
    mutation_conflict_graph: &MutationConflictGraph,
    mutant_max_mutations_count: usize,
    rng: &mut StdRng,
) -> (mutants: Vec<Mutant<'trg, 'ast, M>>)
    requires
        mutations@.len() < u32::MAX,
    ensures
        batching_of(mutants@, mutations@, *mutation_conflict_graph, mutant_max_mutations_count),
        mutants@.len() <= mutations@.len(),
        placed_in_turn(
            batches_of(mutants@),
            mutations@,
            *mutation_conflict_graph,
            mutant_max_mutations_count,
        ),
{
    let ghost given = mutations@;
    let ghost ids = crate::conflicts::mutation_ids(given);
    let ghost graph = *mutation_conflict_graph;
    let cap = mutant_max_mutations_count;
    let mut mutants: Vec<Mutant<'trg, 'ast, M>> = Vec::new();
    let mut next_mutant_index: u32 = 1;
    let ghost mut choices: Seq<Option<int>> = Seq::empty();
    proof {
        assert(given.take(0) =~= Seq::empty());
        assert(batches_of(mutants@) =~= Seq::empty());
        assert(all_mutations(batches_of(mutants@)) =~= given.take(0).to_multiset()) by {
            vstd::seq_lib::to_multiset_len(given.take(0));
            vstd::multiset::lemma_multiset_empty_len(given.take(0).to_multiset());
        }
    }
    for mutation in it: mutations
        invariant
            it.seq() == given,
            given.len() < u32::MAX,
            graph == *mutation_conflict_graph,
            ids == crate::conflicts::mutation_ids(given),
            mutants@.len() <= it.index(),
            next_mutant_index == mutants@.len() + 1,
            numbered(mutants@),
            batched(batches_of(mutants@), graph, cap),
            ids_within(batches_of(mutants@), ids),
            graph.isolates_unsafe(ids) ==> unsafe_isolated(batches_of(mutants@), graph),
            all_mutations(batches_of(mutants@)) == given.take(it.index() as int).to_multiset(),
            fair_choices(given.take(it.index() as int), choices, graph, cap),
            batches_of(mutants@) == batches_by(given.take(it.index() as int), choices),
    {
        let ghost index = it.index() as int;
        let ghost before = batches_of(mutants@);
        let mutant_candidate = choose_random_mutant(
            &mutation,
            &mutants,
            mutation_conflict_graph,
            cap,
            rng,
        );
        proof {
            assert(given.take(index + 1) =~= given.take(index).push(mutation));
            vstd::seq_lib::to_multiset_build(given.take(index), mutation);
            assert(given[index].id.0 == mutation.id.0);
            if mutant_candidate is Some {
                assert(before[mutant_candidate->0 as int] == mutants@[mutant_candidate->0 as int].mutations@);
            } else if !graph.spec_is_unsafe(mutation.id) {
                assert forall|i: int| 0 <= i < before.len() implies !joinable(
                    mutation,
                    #[trigger] before[i],
                    graph,
                    cap,
                ) by {
                    assert(before[i] == mutants@[i].mutations@);
                }
            }
            lemma_fair_step(given.take(index), choices, graph, cap, mutation, as_int(mutant_candidate));
            choices = choices.push(as_int(mutant_candidate));
        }
        place(
            &mut mutants,
            mutant_candidate,
            mutation,
            &mut next_mutant_index,
            Ghost(graph),
            Ghost(cap),
            Ghost(ids),
        );
    }
    proof {
        assert(given.take(given.len() as int) =~= given);
        assert(fair_choices(given, choices, graph, cap));
    }
    mutants
}


/// A step of the annealing: mutation number `mutation` of mutant number
/// `from` moves to the end of mutant number `into` (all counted from 0).
#[derive(Clone, Copy, Debug, PartialEq, Eq, Structural)]
pub struct MoveMutation {
    pub from: usize,
    pub mutation: usize,
    pub into: usize,
}

impl MoveMutation {
    /// The move names a mutation and another mutant that the mutation can
    /// join, and the mutation does not count as unsafe.
    pub open spec fn valid<M>(
        self,
        batches: Seq<Seq<Mut<M>>>,
        graph: MutationConflictGraph,
        cap: usize,
    ) -> bool {
        &&& self.from < batches.len()
        &&& self.mutation < batches[self.from as int].len()
        &&& self.into < batches.len()
        &&& self.into != self.from
        &&& !graph.spec_is_unsafe(batches[self.from as int][self.mutation as int].id)
        &&& joinable(
            batches[self.from as int][self.mutation as int],
            batches[self.into as int],
            graph,
            cap,
        )
    }

    /// The move lowers the number of batches: it empties the batch that
    /// the mutation leaves.
    pub open spec fn lowers<T>(self, batches: Seq<Seq<T>>) -> bool {
        batches[self.from as int].len() == 1
    }

    /// The numbers of the batches after the move, where `numbers` are
    /// those before it: the number of a batch that the move empties is
    /// gone.
    pub open spec fn kept<T, N>(self, batches: Seq<Seq<T>>, numbers: Seq<N>) -> Seq<N> {
        if self.lowers(batches) {
            numbers.remove(self.from as int)
        } else {
            numbers
        }
    }

    /// The step is taken: it lowers the number of batches, or the rule of
    /// acceptance has said so.
    pub open spec fn taken<T>(self, batches: Seq<Seq<T>>, accepted: bool) -> bool {
        self.lowers(batches) || accepted
    }

    /// The batches after the move. A batch that the move empties is gone.
    pub open spec fn applied<T>(self, batches: Seq<Seq<T>>) -> Seq<Seq<T>> {
        let moved = batches[self.from as int][self.mutation as int];
        let taken = batches.update(
            self.from as int,
            batches[self.from as int].remove(self.mutation as int),
        );
        let given = taken.update(self.into as int, batches[self.into as int].push(moved));
        if batches[self.from as int].len() == 1 {
            given.remove(self.from as int)
        } else {
            given
        }
    }
}

/// The rule by which the annealing takes or leaves a step that does not
/// lower the number of mutants. A step that lowers it is always taken, and
/// the rule is not asked.
pub trait Acceptance {
    /// Whether to take a step that changes the number of mutants from
    /// `curr_energy` to `next_energy`, which is no less, in iteration
    /// `iteration` (counted from 0) of `max_iterations`.
    fn accept(
        &mut self,
        curr_energy: usize,
        next_energy: usize,
        iteration: usize,
        max_iterations: usize,
        rng: &mut StdRng,
    ) -> bool;
}

/// Takes every step that does not raise the number of mutants.
pub struct NeverWorse;

impl Acceptance for NeverWorse {
    fn accept(
        &mut self,
        curr_energy: usize,
        next_energy: usize,
        iteration: usize,
        max_iterations: usize,
        rng: &mut StdRng,
    ) -> (accepted: bool)
        ensures
            accepted == (next_energy <= curr_energy),
            *final(rng) == *old(rng),
    {
        next_energy <= curr_energy
    }
}

/// The numbers of the mutants, in their order.
pub open spec fn numbers_of<M>(mutants: Seq<Mutant<M>>) -> Seq<MutantId> {
    Seq::new(mutants.len(), |k: int| mutants[k].id)
}

/// The mutants carry ascending numbers.
pub open spec fn ids_ascending<M>(mutants: Seq<Mutant<M>>) -> bool {
    forall|a: int, b: int|
        0 <= a < b < mutants.len() ==> (#[trigger] mutants[a]).id.0 < (#[trigger] mutants[b]).id.0
}

/// Proposes a step: a mutation picked at random from a mutant picked at
/// random, and a mutant picked at random among those that the mutation can
/// move to. Where the mutation can move to none, another is drawn, as
/// often as there are mutants; after that the mutation is picked at random
/// among those that can move. So a step is proposed exactly where there is
/// a valid one.
pub fn random_neighbour_state<M>(
    mutants: &Vec<Mutant<M>>,
    mutation_conflict_graph: &MutationConflictGraph,
    mutant_max_mutations_count: usize,
    rng: &mut StdRng,
) -> (state_change: Option<MoveMutation>)
    ensures
        state_change matches Some(step) ==> step.valid(
            batches_of(mutants@),
            *mutation_conflict_graph,
            mutant_max_mutations_count,
        ),
        state_change is Some <==> can_move(
            batches_of(mutants@),
            *mutation_conflict_graph,
            mutant_max_mutations_count,
        ),
{
    let ghost batches = batches_of(mutants@);
    let ghost graph = *mutation_conflict_graph;
    let cap = mutant_max_mutations_count;
    let attempts = mutants.len();
    let mut attempt: usize = 0;
    while attempt < attempts
        invariant
            0 <= attempt <= attempts,
            attempts == mutants@.len(),
            batches == batches_of(mutants@),
            graph == *mutation_conflict_graph,
            cap == mutant_max_mutations_count,
        decreases attempts - attempt,
    {
        match choose_index(mutants.len(), rng) {
            Some(from) => {
                match choose_index(mutants[from].mutations.len(), rng) {
                    Some(mutation) => {
                        let targets = move_targets(mutants, mutation_conflict_graph, cap, from, mutation);
                        match choose_stable_of(&targets, rng) {
                            Some(into) => {
                                assert(targets@.contains(into));
                                let step = MoveMutation { from, mutation, into };
                                assert(step.valid(batches, graph, cap));
                                return Some(step);
                            },
                            None => {},
                        }
                    },
                    None => {},
                }
            },
            None => {},
        }
        attempt += 1;
    }
    let places = movable_places(mutants, mutation_conflict_graph, cap);
    match choose_index(places.len(), rng) {
        Some(at) => {
            let (from, mutation) = places[at];
            assert(places@.contains((from, mutation)));
            let targets = move_targets(mutants, mutation_conflict_graph, cap, from, mutation);
            proof {
                let into = choose|into: usize| #[trigger]
                    (MoveMutation { from, mutation, into }).valid(batches, graph, cap);
                assert(targets@.contains(into));
            }
            match choose_stable_of(&targets, rng) {
                Some(into) => {
                    assert(targets@.contains(into));
                    let step = MoveMutation { from, mutation, into };
                    assert(step.valid(batches, graph, cap));
                    Some(step)
                },
                None => None,
            }
        },
        None => {
            assert(!can_move(batches, graph, cap)) by {
                if can_move(batches, graph, cap) {
                    let step = choose|step: MoveMutation| #[trigger] step.valid(batches, graph, cap);
                    let same = MoveMutation {
                        from: step.from,
                        mutation: step.mutation,
                        into: step.into,
                    };
                    assert(same.valid(batches, graph, cap));
                    assert(movable(batches, graph, cap, step.from, step.mutation));
                    assert(batches[step.from as int] == mutants@[step.from as int].mutations@);
                    assert(places@.contains((step.from, step.mutation)));
                }
            }
            None
        },
    }
}

/// The mutation at the place can move: some step moves it to another
/// mutant.
pub open spec fn movable<M>(
    batches: Seq<Seq<Mut<M>>>,
    graph: MutationConflictGraph,
    cap: usize,
    from: usize,
    mutation: usize,
) -> bool {
    exists|into: usize| #[trigger] (MoveMutation { from, mutation, into }).valid(batches, graph, cap)
}

/// Some mutation can move: there is a valid step.
pub open spec fn can_move<M>(batches: Seq<Seq<Mut<M>>>, graph: MutationConflictGraph, cap: usize) -> bool {
    exists|step: MoveMutation| #[trigger] step.valid(batches, graph, cap)
}

/// The place comes before the other in the walk over the mutations of the
/// mutants.
pub open spec fn place_before(place: (usize, usize), other: (usize, usize)) -> bool {
    place.0 < other.0 || (place.0 == other.0 && place.1 < other.1)
}

/// The places of the mutations that can move: for each, the position of
/// its mutant and its position in there.
pub fn movable_places<M>(
    mutants: &Vec<Mutant<M>>,
    mutation_conflict_graph: &MutationConflictGraph,
    mutant_max_mutations_count: usize,
) -> (places: Vec<(usize, usize)>)
    ensures
        forall|from: usize, mutation: usize| #[trigger]
            places@.contains((from, mutation)) <==> (from < mutants@.len() && mutation
                < mutants@[from as int].mutations@.len() && movable(
                batches_of(mutants@),
                *mutation_conflict_graph,
                mutant_max_mutations_count,
                from,
                mutation,
            )),
        forall|a: int, b: int|
            0 <= a < b < places@.len() ==> place_before(#[trigger] places@[a], #[trigger] places@[b]),
{
    let ghost batches = batches_of(mutants@);
    let ghost graph = *mutation_conflict_graph;
    let cap = mutant_max_mutations_count;
    let mut places: Vec<(usize, usize)> = Vec::new();
    let mut from: usize = 0;
    while from < mutants.len()
        invariant
            0 <= from <= mutants.len(),
            batches == batches_of(mutants@),
            graph == *mutation_conflict_graph,
            cap == mutant_max_mutations_count,
            forall|f: usize, m: usize| #[trigger]
                places@.contains((f, m)) <==> (f < from && m < mutants@[f as int].mutations@.len()
                    && movable(batches, graph, cap, f, m)),
            forall|a: int, b: int|
                0 <= a < b < places@.len() ==> place_before(
                    #[trigger] places@[a],
                    #[trigger] places@[b],
                ),
        decreases mutants.len() - from,
    {
        let mut mutation: usize = 0;
        while mutation < mutants[from].mutations.len()
            invariant
                0 <= from < mutants.len(),
                0 <= mutation <= mutants@[from as int].mutations@.len(),
                batches == batches_of(mutants@),
                graph == *mutation_conflict_graph,
                cap == mutant_max_mutations_count,
                forall|f: usize, m: usize| #[trigger]
                    places@.contains((f, m)) <==> (place_before((f, m), (from, mutation)) && f
                        < mutants@.len() && m < mutants@[f as int].mutations@.len() && movable(
                        batches,
                        graph,
                        cap,
                        f,
                        m,
                    )),
                forall|a: int, b: int|
                    0 <= a < b < places@.len() ==> place_before(
                        #[trigger] places@[a],
                        #[trigger] places@[b],
                    ),
            decreases mutants@[from as int].mutations@.len() - mutation,
        {
            let ghost before = places@;
            let targets = move_targets(mutants, mutation_conflict_graph, cap, from, mutation);
            let can = targets.len() > 0;
            proof {
                if can {
                    assert(targets@.contains(targets@[0]));
                } else if movable(batches, graph, cap, from, mutation) {
                    let into = choose|into: usize| #[trigger]
                        (MoveMutation { from, mutation, into }).valid(batches, graph, cap);
                    assert(targets@.contains(into));
                }
                assert(can == movable(batches, graph, cap, from, mutation));
            }
            if can {
                places.push((from, mutation));
                assert(places@.last() == (from, mutation));
            }
            proof {
                assert forall|f: usize, m: usize| #[trigger]
                    places@.contains((f, m)) <==> (place_before(
                        (f, m),
                        (from, (mutation + 1) as usize),
                    ) && f < mutants@.len() && m < mutants@[f as int].mutations@.len() && movable(
                        batches,
                        graph,
                        cap,
                        f,
                        m,
                    )) by {
                    if places@.contains((f, m)) {
                        let n = choose|n: int| 0 <= n < places@.len() && places@[n] == (f, m);
                        if n < before.len() {
                            assert(before[n] == (f, m));
                            assert(before.contains((f, m)));
                        }
                    }
                    if before.contains((f, m)) {
                        let n = choose|n: int| 0 <= n < before.len() && before[n] == (f, m);
                        assert(places@[n] == (f, m));
                    }
                    if f == from && m == mutation && can {
                        assert(places@[places@.len() - 1] == (f, m));
                    }
                }
                assert forall|a: int, b: int| 0 <= a < b < places@.len() implies place_before(
                    #[trigger] places@[a],
                    #[trigger] places@[b],
                ) by {
                    if b == before.len() {
                        let place = before[a];
                        assert(place == places@[a]);
                        assert(before.contains((place.0, place.1)));
                    } else {
                        assert(before[a] == places@[a]);
                        assert(before[b] == places@[b]);
                    }
                }
            }
            mutation += 1;
        }
        from += 1;
    }
    places
}

/// The mutants that the mutation at the place can move to, in ascending
/// order: the other mutants that it can join, and none where the mutation
/// counts as unsafe.
pub fn move_targets<M>(
    mutants: &Vec<Mutant<M>>,
    mutation_conflict_graph: &MutationConflictGraph,
    mutant_max_mutations_count: usize,
    from: usize,
    mutation: usize,
) -> (targets: Vec<usize>)
    requires
        from < mutants@.len(),
        mutation < mutants@[from as int].mutations@.len(),
    ensures
        forall|into: usize| #[trigger]
            targets@.contains(into) <==> (MoveMutation { from, mutation, into }).valid(
                batches_of(mutants@),
                *mutation_conflict_graph,
                mutant_max_mutations_count,
            ),
        forall|a: int, b: int| 0 <= a < b < targets@.len() ==> targets@[a] < targets@[b],
{
    let ghost batches = batches_of(mutants@);
    assert(batches[from as int] == mutants@[from as int].mutations@);
    let moved = &mutants[from].mutations[mutation];
    if mutation_conflict_graph.is_unsafe(moved.id) {
        return Vec::new();
    }
    let targets = compatible_indices(
        moved,
        mutants,
        mutation_conflict_graph,
        mutant_max_mutations_count,
        Some(from),
    );
    assert forall|into: usize| #[trigger]
        targets@.contains(into) <==> (MoveMutation { from, mutation, into }).valid(
            batches,
            *mutation_conflict_graph,
            mutant_max_mutations_count,
        ) by {
        if into < mutants@.len() {
            assert(batches[into as int] == mutants@[into as int].mutations@);
        }
    }
    targets
}

/// The number of mutants, after the step if one is given.
pub fn energy<M>(mutants: &Vec<Mutant<M>>, state_change: Option<MoveMutation>) -> (count: usize)
    requires
        state_change matches Some(step) ==> step.from < mutants@.len() && step.into < mutants@.len(),
    ensures
        count == (match state_change {
            Some(step) => step.applied(batches_of(mutants@)).len(),
            None => mutants@.len(),
        }),
{
    let mut mutants_count = mutants.len();
    match state_change {
        Some(step) => {
            if mutants[step.from].mutations.len() == 1 {
                mutants_count -= 1;
            }
        },
        None => {},
    }
    mutants_count
}

/// What a valid step keeps: the batches stay sound, no mutation is lost or
/// added, and an unsafe mutation stays alone.
pub proof fn lemma_step_keeps_batching<M>(
    batches: Seq<Seq<Mut<M>>>,
    step: MoveMutation,
    graph: MutationConflictGraph,
    cap: usize,
    ids: Set<u32>,
)
    requires
        step.valid(batches, graph, cap),
    ensures
        all_mutations(step.applied(batches)) == all_mutations(batches),
        step.applied(batches).len() <= batches.len(),
        batched(batches, graph, cap) ==> batched(step.applied(batches), graph, cap),
        ids_within(batches, ids) ==> ids_within(step.applied(batches), ids),
        ids_within(batches, ids) && graph.isolates_unsafe(ids) && unsafe_isolated(batches, graph)
            ==> unsafe_isolated(step.applied(batches), graph),
{
    broadcast use vstd::multiset::group_multiset_axioms;

    let from = step.from as int;
    let into = step.into as int;
    let at = step.mutation as int;
    let moved = batches[from][at];
    let rest = batches[from].remove(at);
    let grown = batches[into].push(moved);
    let taken = batches.update(from, rest);
    let given = taken.update(into, grown);
    let after = step.applied(batches);
    // No mutation is lost or added.
    lemma_all_mutations_update(batches, from, rest);
    lemma_all_mutations_update(taken, into, grown);
    vstd::seq_lib::to_multiset_remove(batches[from], at);
    vstd::seq_lib::to_multiset_build(batches[into], moved);
    assert(taken[into] == batches[into]);
    let all = all_mutations(batches);
    let all_taken = all_mutations(taken);
    let all_given = all_mutations(given);
    vstd::seq_lib::to_multiset_len(batches[from]);
    assert(batches[from].to_multiset().count(moved) > 0) by {
        broadcast use vstd::seq_lib::group_to_multiset_ensures;

        assert(batches[from].contains(moved));
    }
    assert forall|v: Mut<M>| all_given.count(v) == #[trigger] all.count(v) by {
        assert(all_taken.add(batches[from].to_multiset()).count(v) == all.add(
            rest.to_multiset(),
        ).count(v));
        assert(all_given.add(batches[into].to_multiset()).count(v) == all_taken.add(
            grown.to_multiset(),
        ).count(v));
    }
    assert(all_given =~= all);
    if batches[from].len() == 1 {
        lemma_all_mutations_remove(given, from);
        assert(given[from] == rest);
        assert(rest.len() == 0);
        assert(rest.to_multiset() =~= Multiset::empty()) by {
            vstd::seq_lib::to_multiset_len(rest);
            vstd::multiset::lemma_multiset_empty_len(rest.to_multiset());
        }
        assert(all_mutations(given.remove(from)) =~= all_given);
    }
    // The shape of the batches afterwards.
    assert forall|k: int| 0 <= k < given.len() implies #[trigger] given[k] == (if k == into {
        grown
    } else if k == from {
        rest
    } else {
        batches[k]
    }) by {}
    if batched(batches, graph, cap) {
        assert(conflict_free(rest, graph)) by {
            assert forall|p: int, q: int| 0 <= p < q < rest.len() implies !graph.spec_conflicting(
                (#[trigger] rest[p]).id,
                (#[trigger] rest[q]).id,
            ) by {
                let a = if p < at { p } else { p + 1 };
                let b = if q < at { q } else { q + 1 };
                assert(rest[p] == batches[from][a]);
                assert(rest[q] == batches[from][b]);
            }
        }
        assert(conflict_free(grown, graph)) by {
            assert forall|p: int, q: int| 0 <= p < q < grown.len() implies !graph.spec_conflicting(
                (#[trigger] grown[p]).id,
                (#[trigger] grown[q]).id,
            ) by {
                assert(grown[p] == batches[into][p]);
                if q < batches[into].len() {
                    assert(grown[q] == batches[into][q]);
                }
            }
        }
        assert forall|k: int| 0 <= k < after.len() implies {
            &&& (#[trigger] after[k]).len() >= 1
            &&& conflict_free(after[k], graph)
            &&& after[k].len() == 1 || after[k].len() <= cap
        } by {
            let origin = if batches[from].len() == 1 && k >= from { k + 1 } else { k };
            assert(after[k] == given[origin]);
            assert(batches[origin].len() >= 1);
        }
    }
    if ids_within(batches, ids) {
        assert forall|k: int, p: int|
            0 <= k < after.len() && 0 <= p < after[k].len() implies ids.contains(
            (#[trigger] after[k][p]).id.0,
        ) by {
            let origin = if batches[from].len() == 1 && k >= from { k + 1 } else { k };
            assert(after[k] == given[origin]);
            if origin == into {
                if p < batches[into].len() {
                    assert(grown[p] == batches[into][p]);
                } else {
                    assert(grown[p] == batches[from][at]);
                }
            } else if origin == from {
                let a = if p < at { p } else { p + 1 };
                assert(rest[p] == batches[from][a]);
            } else {
                assert(after[k][p] == batches[origin][p]);
            }
        }
    }
    if ids_within(batches, ids) && graph.isolates_unsafe(ids) && unsafe_isolated(batches, graph) {
        assert forall|k: int, p: int|
            0 <= k < after.len() && 0 <= p < after[k].len() && graph.spec_is_unsafe(
                (#[trigger] after[k][p]).id,
            ) implies after[k].len() == 1 by {
            let origin = if batches[from].len() == 1 && k >= from { k + 1 } else { k };
            assert(after[k] == given[origin]);
            if origin == into {
                if p < batches[into].len() {
                    let member = batches[into][p];
                    assert(grown[p] == member);
                    assert(ids.contains(member.id.0));
                    assert(ids.contains(batches[from][at].id.0));
                    assert(member.id.0 != moved.id.0);
                    assert(graph.spec_conflicting(MutId(member.id.0), MutId(moved.id.0)));
                    assert(!graph.spec_conflicting(member.id, moved.id));
                } else {
                    assert(grown[p] == moved);
                }
            } else if origin == from {
                let a = if p < at { p } else { p + 1 };
                assert(rest[p] == batches[from][a]);
                assert(batches[from].len() == 1);
            } else {
                assert(after[k][p] == batches[origin][p]);
            }
        }
    }
}

/// Takes the step: the mutation leaves its mutant for the end of the other,
/// and a mutant that is left without mutations is removed.
pub fn apply_move<'trg, 'ast, M>(mutants: &mut Vec<Mutant<'trg, 'ast, M>>, step: MoveMutation)
    requires
        step.from < old(mutants)@.len(),
        step.into < old(mutants)@.len(),
        step.from != step.into,
        step.mutation < old(mutants)@[step.from as int].mutations@.len(),
    ensures
        batches_of(final(mutants)@) == step.applied(batches_of(old(mutants)@)),
        numbers_of(final(mutants)@) == step.kept(
            batches_of(old(mutants)@),
            numbers_of(old(mutants)@),
        ),
        ids_ascending(old(mutants)@) ==> ids_ascending(final(mutants)@),
{
    let ghost before = mutants@;
    let mutation = mutants[step.from].mutations.remove(step.mutation);
    let emptied = mutants[step.from].mutations.len() == 0;
    mutants[step.into].mutations.push(mutation);
    let ghost between = mutants@;
    proof {
        assert(between.len() == before.len());
        assert forall|k: int| 0 <= k < between.len() implies (#[trigger] between[k]).id
            == before[k].id by {}
    }
    if emptied {
        mutants.remove(step.from);
    }
    proof {
        let batches = batches_of(before);
        let moved = batches[step.from as int][step.mutation as int];
        let taken = batches.update(
            step.from as int,
            batches[step.from as int].remove(step.mutation as int),
        );
        let given = taken.update(step.into as int, batches[step.into as int].push(moved));
        assert(batches_of(between) =~= given);
        assert(numbers_of(between) =~= numbers_of(before));
        if emptied {
            assert(batches_of(mutants@) =~= given.remove(step.from as int));
            assert(numbers_of(mutants@) =~= numbers_of(before).remove(step.from as int));
        }
        if ids_ascending(before) {
            assert forall|a: int, b: int| 0 <= a < b < mutants@.len() implies (
            #[trigger] mutants@[a]).id.0 < (#[trigger] mutants@[b]).id.0 by {
                let origin_a = if emptied && a >= step.from { a + 1 } else { a };
                let origin_b = if emptied && b >= step.from { b + 1 } else { b };
                assert(mutants@[a].id == before[origin_a].id);
                assert(mutants@[b].id == before[origin_b].id);
            }
        }
    }
}

/// The numbers of all mutations of all batches.
pub open spec fn batch_ids<M>(batches: Seq<Seq<Mut<M>>>) -> Set<u32> {
    Set::new(
        |v: u32|
            exists|k: int, p: int|
                0 <= k < batches.len() && 0 <= p < batches[k].len() && (#[trigger] batches[k][p]).id.0
                    == v,
    )
}

/// The batches after the steps, taken one after the other.
pub open spec fn moved_by<T>(batches: Seq<Seq<T>>, steps: Seq<MoveMutation>) -> Seq<Seq<T>>
    decreases steps.len(),
{
    if steps.len() == 0 {
        batches
    } else {
        steps.last().applied(moved_by(batches, steps.drop_last()))
    }
}

/// The numbers of the batches after the steps, where `numbers` are those
/// before them.
pub open spec fn numbers_after<T, N>(
    batches: Seq<Seq<T>>,
    numbers: Seq<N>,
    steps: Seq<MoveMutation>,
) -> Seq<N>
    decreases steps.len(),
{
    if steps.len() == 0 {
        numbers
    } else {
        steps.last().kept(
            moved_by(batches, steps.drop_last()),
            numbers_after(batches, numbers, steps.drop_last()),
        )
    }
}

/// Each step is valid for the batches that the steps before it leave.
pub open spec fn valid_steps<M>(
    batches: Seq<Seq<Mut<M>>>,
    steps: Seq<MoveMutation>,
    graph: MutationConflictGraph,
    cap: usize,
) -> bool
    decreases steps.len(),
{
    steps.len() > 0 ==> {
        &&& valid_steps(batches, steps.drop_last(), graph, cap)
        &&& steps.last().valid(moved_by(batches, steps.drop_last()), graph, cap)
    }
}

/// The mutants `after` come of the mutants `before` by at most `limit`
/// valid steps: their mutations are those that the steps leave, and their
/// numbers are the numbers of the mutants that the steps have not emptied.
pub open spec fn annealed_from<'trg, 'ast, M>(
    after: Seq<Mutant<'trg, 'ast, M>>,
    before: Seq<Mutant<'trg, 'ast, M>>,
    graph: MutationConflictGraph,
    cap: usize,
    limit: usize,
) -> bool {
    exists|steps: Seq<MoveMutation>|
        {
            &&& steps.len() <= limit
            &&& #[trigger] valid_steps(batches_of(before), steps, graph, cap)
            &&& batches_of(after) == moved_by(batches_of(before), steps)
            &&& numbers_of(after) == numbers_after(batches_of(before), numbers_of(before), steps)
        }
}

/// Mutant `k` has the number and holds the mutation at position `q`.
pub open spec fn held_at<M>(
    mutants: Seq<Mutant<M>>,
    k: int,
    q: int,
    number: MutantId,
    mutation: Mut<M>,
) -> bool {
    &&& 0 <= k < mutants.len()
    &&& 0 <= q < mutants[k].mutations@.len()
    &&& mutants[k].id == number
    &&& mutants[k].mutations@[q] == mutation
}

/// The mutant with the number holds the mutation.
pub open spec fn holds<M>(mutants: Seq<Mutant<M>>, number: MutantId, mutation: Mut<M>) -> bool {
    exists|k: int, q: int| #[trigger] held_at(mutants, k, q, number, mutation)
}

/// Every valid step lowers the number of batches: no mutation can move
/// but out of a batch that it has to itself.
pub open spec fn only_merging<M>(
    batches: Seq<Seq<Mut<M>>>,
    graph: MutationConflictGraph,
    cap: usize,
) -> bool {
    forall|step: MoveMutation| #[trigger] step.valid(batches, graph, cap) ==> step.lowers(batches)
}

/// A valid step leaves every mutation that counts as unsafe in the mutant
/// of the same number, and gives no mutant a number that none had.
pub proof fn lemma_step_keeps_numbers<M>(
    before: Seq<Mutant<M>>,
    after: Seq<Mutant<M>>,
    step: MoveMutation,
    graph: MutationConflictGraph,
    cap: usize,
)
    requires
        step.valid(batches_of(before), graph, cap),
        batches_of(after) == step.applied(batches_of(before)),
        numbers_of(after) == step.kept(batches_of(before), numbers_of(before)),
    ensures
        forall|number: MutantId, mutation: Mut<M>|
            graph.spec_is_unsafe(mutation.id) && #[trigger] holds(before, number, mutation)
                ==> holds(after, number, mutation),
        forall|k: int|
            0 <= k < after.len() ==> numbers_of(before).contains(#[trigger] numbers_of(after)[k]),
{
    let batches = batches_of(before);
    let numbers = numbers_of(before);
    let from = step.from as int;
    let into = step.into as int;
    let at = step.mutation as int;
    let lowers = step.lowers(batches);
    let moved = batches[from][at];
    let rest = batches[from].remove(at);
    let taken = batches.update(from, rest);
    let given = taken.update(into, batches[into].push(moved));
    assert(after.len() == batches_of(after).len());
    assert(after.len() == numbers_of(after).len());
    assert forall|k: int| 0 <= k < after.len() implies numbers.contains(
        #[trigger] numbers_of(after)[k],
    ) by {
        let origin = if lowers && k >= from { k + 1 } else { k };
        assert(numbers_of(after)[k] == numbers[origin]);
    }
    assert forall|number: MutantId, mutation: Mut<M>|
        graph.spec_is_unsafe(mutation.id) && #[trigger] holds(
            before,
            number,
            mutation,
        ) implies holds(after, number, mutation) by {
        let (k, q) = choose|k: int, q: int| #[trigger] held_at(before, k, q, number, mutation);
        assert(held_at(before, k, q, number, mutation));
        assert(batches[k] == before[k].mutations@);
        assert(numbers[k] == before[k].id);
        if k == from {
            assert(q != at);
            let p = if q < at { q } else { q - 1 };
            assert(rest[p] == batches[from][q]);
            assert(!lowers);
            assert(batches_of(after)[k] == rest);
            assert(numbers_of(after)[k] == numbers[k]);
            assert(held_at(after, k, p, number, mutation));
        } else {
            let n = if lowers && k > from { k - 1 } else { k };
            assert(given[k][q] == batches[k][q]);
            assert(batches_of(after)[n] == given[k]);
            assert(numbers_of(after)[n] == numbers[k]);
            assert(after[n].mutations@ == batches_of(after)[n]);
            assert(held_at(after, n, q, number, mutation));
        }
    }
}

/// The end of one iteration of the annealing: the proposed step is taken
/// where it lowers the number of mutants or the rule has accepted it, and
/// the mutants stay as they are otherwise. `accepted` is what the rule
/// answered; it does not count for a step that lowers the number.
pub fn anneal_step<'trg, 'ast, M>(
    mutants: &mut Vec<Mutant<'trg, 'ast, M>>,
    proposal: Option<MoveMutation>,
    accepted: bool,
)
    requires
        proposal matches Some(step) ==> {
            &&& step.from < old(mutants)@.len()
            &&& step.into < old(mutants)@.len()
            &&& step.from != step.into
            &&& step.mutation < old(mutants)@[step.from as int].mutations@.len()
        },
    ensures
        batches_of(final(mutants)@) == (match proposal {
            Some(step) => if step.taken(batches_of(old(mutants)@), accepted) {
                step.applied(batches_of(old(mutants)@))
            } else {
                batches_of(old(mutants)@)
            },
            None => batches_of(old(mutants)@),
        }),
        numbers_of(final(mutants)@) == (match proposal {
            Some(step) => if step.taken(batches_of(old(mutants)@), accepted) {
                step.kept(batches_of(old(mutants)@), numbers_of(old(mutants)@))
            } else {
                numbers_of(old(mutants)@)
            },
            None => numbers_of(old(mutants)@),
        }),
        !(proposal matches Some(step) && step.taken(batches_of(old(mutants)@), accepted))
            ==> *final(mutants) == *old(mutants),
        ids_ascending(old(mutants)@) ==> ids_ascending(final(mutants)@),
{
    match proposal {
        Some(step) => {
            let curr_energy = energy(mutants, None);
            let next_energy = energy(mutants, Some(step));
            assert(batches_of(mutants@)[step.from as int] == mutants@[step.from as int].mutations@);
            if next_energy < curr_energy || accepted {
                apply_move(mutants, step);
            }
        },
        None => {},
    }
}

/// Simulated annealing over a batching. In each of `max_iterations`
/// iterations a step is proposed, the move of a mutation to another mutant
/// that it can join. A step that lowers the number of mutants is taken;
/// any other is taken where the rule accepts it. The energy that the rule
/// is shown is the number of mutants. Mutants that lose their last mutation
/// are removed, so the number of mutants never grows, and the mutants that
/// stay keep their numbers.
pub fn optimize_batches_simulated_annealing<'trg, 'ast, M, A: Acceptance>(
    mutants: &mut Vec<Mutant<'trg, 'ast, M>>,
    mutation_conflict_graph: &MutationConflictGraph,
    mutant_max_mutations_count: usize,
    max_iterations: usize,
    rng: &mut StdRng,
    acceptance: &mut A,
)
    ensures
        final(mutants)@.len() <= old(mutants)@.len(),
        all_mutations(batches_of(final(mutants)@)) == all_mutations(batches_of(old(mutants)@)),
        batched(batches_of(old(mutants)@), *mutation_conflict_graph, mutant_max_mutations_count)
            ==> batched(
            batches_of(final(mutants)@),
            *mutation_conflict_graph,
            mutant_max_mutations_count,
        ),
        mutation_conflict_graph.isolates_unsafe(batch_ids(batches_of(old(mutants)@)))
            && unsafe_isolated(batches_of(old(mutants)@), *mutation_conflict_graph)
            ==> unsafe_isolated(batches_of(final(mutants)@), *mutation_conflict_graph),
        ids_ascending(old(mutants)@) ==> ids_ascending(final(mutants)@),
        annealed_from(
            final(mutants)@,
            old(mutants)@,
            *mutation_conflict_graph,
            mutant_max_mutations_count,
            max_iterations,
        ),
        // Without iterations nothing is touched.
        max_iterations == 0 ==> *final(mutants) == *old(mutants) && *final(rng) == *old(rng),
        // Where a step is there to take and every step merges two mutants,
        // the first iteration already lowers the number of mutants.
        max_iterations >= 1 && can_move(
            batches_of(old(mutants)@),
            *mutation_conflict_graph,
            mutant_max_mutations_count,
        ) && only_merging(
            batches_of(old(mutants)@),
            *mutation_conflict_graph,
            mutant_max_mutations_count,
        ) ==> final(mutants)@.len() < old(mutants)@.len(),
        // No mutant gets a number that none had.
        forall|k: int|
            0 <= k < final(mutants)@.len() ==> numbers_of(old(mutants)@).contains(
                #[trigger] numbers_of(final(mutants)@)[k],
            ),
        // A mutation that counts as unsafe stays in the mutant of the same
        // number.
        forall|number: MutantId, mutation: Mut<'trg, 'ast, M>|
            mutation_conflict_graph.spec_is_unsafe(mutation.id) && #[trigger] holds(
                old(mutants)@,
                number,
                mutation,
            ) ==> holds(final(mutants)@, number, mutation),
{
    let ghost start = mutants@;
    let ghost given = batches_of(mutants@);
    let ghost mut steps: Seq<MoveMutation> = Seq::empty();
    let ghost ids = batch_ids(given);
    let ghost graph = *mutation_conflict_graph;
    let cap = mutant_max_mutations_count;
    let mut i: usize = 0;
    proof {
        assert forall|k: int| 0 <= k < start.len() implies numbers_of(start).contains(
            #[trigger] numbers_of(start)[k],
        ) by {}
    }
    while i < max_iterations
        invariant
            0 <= i <= max_iterations,
            graph == *mutation_conflict_graph,
            cap == mutant_max_mutations_count,
            start == old(mutants)@,
            mutants@.len() <= start.len(),
            all_mutations(batches_of(mutants@)) == all_mutations(given),
            batched(given, graph, cap) ==> batched(batches_of(mutants@), graph, cap),
            ids_within(batches_of(mutants@), ids),
            graph.isolates_unsafe(ids) && unsafe_isolated(given, graph) ==> unsafe_isolated(
                batches_of(mutants@),
                graph,
            ),
            ids_ascending(start) ==> ids_ascending(mutants@),
            given == batches_of(start),
            steps.len() <= i,
            valid_steps(given, steps, graph, cap),
            batches_of(mutants@) == moved_by(given, steps),
            numbers_of(mutants@) == numbers_after(given, numbers_of(start), steps),
            i == 0 ==> *mutants == *old(mutants) && *rng == *old(rng),
            i >= 1 && can_move(given, graph, cap) && only_merging(given, graph, cap)
                ==> mutants@.len() < start.len(),
            forall|k: int|
                0 <= k < mutants@.len() ==> numbers_of(start).contains(
                    #[trigger] numbers_of(mutants@)[k],
                ),
            forall|number: MutantId, mutation: Mut<'trg, 'ast, M>|
                graph.spec_is_unsafe(mutation.id) && #[trigger] holds(start, number, mutation)
                    ==> holds(mutants@, number, mutation),
        decreases max_iterations - i,
    {
        let ghost before = mutants@;
        let curr_energy = energy(mutants, None);
        match random_neighbour_state(mutants, mutation_conflict_graph, cap, rng) {
            Some(state_change) => {
                let next_energy = energy(mutants, Some(state_change));
                let accepted = if next_energy < curr_energy {
                    false
                } else {
                    acceptance.accept(curr_energy, next_energy, i, max_iterations, rng)
                };
                anneal_step(mutants, Some(state_change), accepted);
                proof {
                    assert(batches_of(before)[state_change.from as int]
                        == before[state_change.from as int].mutations@);
                    if state_change.taken(batches_of(before), accepted) {
                        lemma_step_keeps_batching(
                            batches_of(before),
                            state_change,
                            graph,
                            cap,
                            ids,
                        );
                        lemma_step_keeps_numbers(before, mutants@, state_change, graph, cap);
                        assert(steps.push(state_change).drop_last() =~= steps);
                        steps = steps.push(state_change);
                        assert(mutants@.len() == batches_of(mutants@).len());
                        assert(before.len() == batches_of(before).len());
                        assert forall|k: int| 0 <= k < mutants@.len() implies numbers_of(
                            start,
                        ).contains(#[trigger] numbers_of(mutants@)[k]) by {
                            let number = numbers_of(mutants@)[k];
                            assert(numbers_of(before).contains(number));
                            let j = choose|j: int|
                                0 <= j < numbers_of(before).len() && numbers_of(before)[j]
                                    == number;
                            assert(numbers_of(start).contains(numbers_of(before)[j]));
                        }
                    }
                }
            },
            None => {},
        }
        i += 1;
    }
}

/// What is wrong with a batching.
pub enum MutationBatchesValidationError<'m, 'trg, 'ast, M> {
    /// The mutant holds the two mutations, which conflict.
    ConflictingMutationsInBatch(
        &'m Mutant<'trg, 'ast, M>,
        &'m Mut<'trg, 'ast, M>,
        &'m Mut<'trg, 'ast, M>,
    ),
}

/// Mutations `p` and `q` of mutant `k`, `p` before `q`, conflict.
pub open spec fn conflict_at<M>(
    mutants: Seq<Mutant<M>>,
    graph: MutationConflictGraph,
    k: int,
    p: int,
    q: int,
) -> bool {
    &&& 0 <= k < mutants.len()
    &&& 0 <= p < q < mutants[k].mutations@.len()
    &&& graph.spec_conflicting(mutants[k].mutations@[p].id, mutants[k].mutations@[q].id)
}

impl<'m, 'trg, 'ast, M> MutationBatchesValidationError<'m, 'trg, 'ast, M> {
    /// The error names mutant `k` and its mutations `p` and `q`.
    pub open spec fn reports(self, mutants: Seq<Mutant<'trg, 'ast, M>>, k: int, p: int, q: int) -> bool {
        match self {
            MutationBatchesValidationError::ConflictingMutationsInBatch(mutant, first, second) => {
                &&& 0 <= k < mutants.len()
                &&& 0 <= p < q < mutants[k].mutations@.len()
                &&& *mutant == mutants[k]
                &&& *first == mutants[k].mutations@[p]
                &&& *second == mutants[k].mutations@[q]
            },
        }
    }
}

impl<'m, 'trg, 'ast, M> MutationBatchesValidationError<'m, 'trg, 'ast, M> {
    /// The error names a mutant and two of its mutations that conflict.
    pub open spec fn is_conflict(
        self,
        mutants: Seq<Mutant<'trg, 'ast, M>>,
        graph: MutationConflictGraph,
    ) -> bool {
        exists|k: int, p: int, q: int| #[trigger] found_conflict(self, mutants, graph, k, p, q)
    }
}

/// Some error of the list names mutant `k` and its mutations `p` and `q`.
pub open spec fn listed<'m, 'trg, 'ast, M>(
    errors: Seq<MutationBatchesValidationError<'m, 'trg, 'ast, M>>,
    mutants: Seq<Mutant<'trg, 'ast, M>>,
    k: int,
    p: int,
    q: int,
) -> bool {
    exists|e: int| 0 <= e < errors.len() && (#[trigger] errors[e]).reports(mutants, k, p, q)
}

/// The pair at the first position comes before the pair at the second:
/// in an earlier mutant, or in the same with an earlier first mutation, or
/// with the same and an earlier second.
pub open spec fn before_in_walk(first: (int, int, int), second: (int, int, int)) -> bool {
    first.0 < second.0 || (first.0 == second.0 && (first.1 < second.1 || (first.1 == second.1
        && first.2 < second.2)))
}

pub open spec fn ascending_positions(positions: Seq<(int, int, int)>) -> bool {
    forall|a: int, b: int|
        0 <= a < b < positions.len() ==> before_in_walk(#[trigger] positions[a], #[trigger] positions[b])
}

/// The errors name the conflicting pairs at the positions, one each.
pub open spec fn listed_at<'m, 'trg, 'ast, M>(
    errors: Seq<MutationBatchesValidationError<'m, 'trg, 'ast, M>>,
    mutants: Seq<Mutant<'trg, 'ast, M>>,
    graph: MutationConflictGraph,
    positions: Seq<(int, int, int)>,
) -> bool {
    &&& positions.len() == errors.len()
    &&& ascending_positions(positions)
    &&& forall|e: int|
        0 <= e < errors.len() ==> #[trigger] found_conflict(
            errors[e],
            mutants,
            graph,
            positions[e].0,
            positions[e].1,
            positions[e].2,
        )
}

/// The errors name conflicting pairs in the order of the mutants and,
/// within a mutant, of the mutations, none twice.
pub open spec fn in_order<'m, 'trg, 'ast, M>(
    errors: Seq<MutationBatchesValidationError<'m, 'trg, 'ast, M>>,
    mutants: Seq<Mutant<'trg, 'ast, M>>,
    graph: MutationConflictGraph,
) -> bool {
    exists|positions: Seq<(int, int, int)>| #[trigger] listed_at(errors, mutants, graph, positions)
}

spec fn checked(k: int, p: int, q: int, at_k: int, at_p: int, at_q: int) -> bool {
    k < at_k || (k == at_k && (p < at_p || (p == at_p && q < at_q)))
}

/// The error names mutant `k` and its mutations `p` and `q`, which conflict.
pub open spec fn found_conflict<'m, 'trg, 'ast, M>(
    error: MutationBatchesValidationError<'m, 'trg, 'ast, M>,
    mutants: Seq<Mutant<'trg, 'ast, M>>,
    graph: MutationConflictGraph,
    k: int,
    p: int,
    q: int,
) -> bool {
    error.reports(mutants, k, p, q) && conflict_at(mutants, graph, k, p, q)
}

/// Checks that no mutant holds two mutations that conflict. Where some do,
/// the result lists every such pair, with its mutant.
pub fn validate_mutation_batches<'m, 'trg, 'ast, M>(
    mutants: &'m [Mutant<'trg, 'ast, M>],
    mutation_conflict_graph: &MutationConflictGraph,
) -> (result: Result<(), Vec<MutationBatchesValidationError<'m, 'trg, 'ast, M>>>)
    ensures
        result is Ok <==> forall|k: int|
            0 <= k < mutants@.len() ==> conflict_free(
                (#[trigger] mutants@[k]).mutations@,
                *mutation_conflict_graph,
            ),
        result matches Err(errors) ==> forall|e: int|
            0 <= e < errors@.len() ==> (#[trigger] errors@[e]).is_conflict(
                mutants@,
                *mutation_conflict_graph,
            ),
        result matches Err(errors) ==> forall|k: int, p: int, q: int| #[trigger]
            conflict_at(mutants@, *mutation_conflict_graph, k, p, q) ==> listed(
                errors@,
                mutants@,
                k,
                p,
                q,
            ),
        result matches Err(errors) ==> in_order(errors@, mutants@, *mutation_conflict_graph),
{
    let ghost mut positions: Seq<(int, int, int)> = Seq::empty();
    let ghost graph = *mutation_conflict_graph;
    let mut errors: Vec<MutationBatchesValidationError<'m, 'trg, 'ast, M>> = Vec::new();
    let mut k: usize = 0;
    while k < mutants.len()
        invariant
            0 <= k <= mutants.len(),
            graph == *mutation_conflict_graph,
            positions.len() == errors@.len(),
            forall|e: int|
                0 <= e < errors@.len() ==> #[trigger] found_conflict(
                    errors@[e],
                    mutants@,
                    graph,
                    positions[e].0,
                    positions[e].1,
                    positions[e].2,
                ),
            forall|e: int|
                0 <= e < positions.len() ==> checked(
                    (#[trigger] positions[e]).0,
                    positions[e].1,
                    positions[e].2,
                    k as int, 0, 0,
                ),
            ascending_positions(positions),
            forall|e: int|
                0 <= e < errors@.len() ==> (#[trigger] errors@[e]).is_conflict(mutants@, graph),
            forall|a: int, p: int, q: int| #[trigger]
                conflict_at(mutants@, graph, a, p, q) && a < k ==> exists|e: int|
                    0 <= e < errors@.len() && (#[trigger] errors@[e]).reports(mutants@, a, p, q),
        decreases mutants.len() - k,
    {
        let mutant = &mutants[k];
        let mut p: usize = 0;
        while p < mutant.mutations.len()
            invariant
                0 <= k < mutants.len(),
                0 <= p <= mutant.mutations.len(),
                mutant == &mutants@[k as int],
                graph == *mutation_conflict_graph,
                positions.len() == errors@.len(),
                forall|e: int|
                    0 <= e < errors@.len() ==> #[trigger] found_conflict(
                        errors@[e],
                        mutants@,
                        graph,
                        positions[e].0,
                        positions[e].1,
                        positions[e].2,
                    ),
                forall|e: int|
                    0 <= e < positions.len() ==> checked(
                        (#[trigger] positions[e]).0,
                        positions[e].1,
                        positions[e].2,
                        k as int, p as int, 0,
                    ),
                ascending_positions(positions),
                forall|e: int|
                0 <= e < errors@.len() ==> (#[trigger] errors@[e]).is_conflict(mutants@, graph),
                forall|a: int, b: int, c: int| #[trigger]
                    conflict_at(mutants@, graph, a, b, c) && checked(a, b, c, k as int, p as int, 0)
                        ==> exists|e: int|
                        0 <= e < errors@.len() && (#[trigger] errors@[e]).reports(mutants@, a, b, c),
            decreases mutant.mutations.len() - p,
        {
            let mutation = &mutant.mutations[p];
            let mut q: usize = p + 1;
            while q < mutant.mutations.len()
                invariant
                    0 <= k < mutants.len(),
                    0 <= p < mutant.mutations.len(),
                    p < q <= mutant.mutations.len(),
                    mutant == &mutants@[k as int],
                    mutation == &mutant.mutations@[p as int],
                    graph == *mutation_conflict_graph,
                    positions.len() == errors@.len(),
                    forall|e: int|
                        0 <= e < errors@.len() ==> #[trigger] found_conflict(
                            errors@[e],
                            mutants@,
                            graph,
                            positions[e].0,
                            positions[e].1,
                            positions[e].2,
                        ),
                    forall|e: int|
                        0 <= e < positions.len() ==> checked(
                            (#[trigger] positions[e]).0,
                            positions[e].1,
                            positions[e].2,
                            k as int, p as int, q as int,
                        ),
                    ascending_positions(positions),
                    forall|e: int|
                0 <= e < errors@.len() ==> (#[trigger] errors@[e]).is_conflict(mutants@, graph),
                    forall|a: int, b: int, c: int| #[trigger]
                        conflict_at(mutants@, graph, a, b, c) && checked(
                            a,
                            b,
                            c,
                            k as int,
                            p as int,
                            q as int,
                        ) ==> exists|e: int|
                            0 <= e < errors@.len() && (#[trigger] errors@[e]).reports(
                                mutants@,
                                a,
                                b,
                                c,
                            ),
                decreases mutant.mutations.len() - q,
            {
                let other = &mutant.mutations[q];
                let ghost before = errors@;
                let ghost before_positions = positions;
                if mutation_conflict_graph.conflicting_mutations(mutation.id, other.id) {
                    let error = MutationBatchesValidationError::ConflictingMutationsInBatch(
                        mutant,
                        mutation,
                        other,
                    );
                    assert(error.reports(mutants@, k as int, p as int, q as int));
                    assert(conflict_at(mutants@, graph, k as int, p as int, q as int));
                    errors.push(error);
                    proof {
                        positions = positions.push((k as int, p as int, q as int));
                    }
                }
                proof {
                    assert forall|e: int| 0 <= e < errors@.len() implies #[trigger] found_conflict(
                        errors@[e],
                        mutants@,
                        graph,
                        positions[e].0,
                        positions[e].1,
                        positions[e].2,
                    ) && checked((#[trigger] positions[e]).0, positions[e].1, positions[e].2, k as int, p as int, q + 1) by {
                        if e < before.len() {
                            assert(errors@[e] == before[e]);
                            assert(positions[e] == before_positions[e]);
                            assert(found_conflict(
                                before[e],
                                mutants@,
                                graph,
                                before_positions[e].0,
                                before_positions[e].1,
                                before_positions[e].2,
                            ));
                        }
                    }
                    assert forall|a: int, b: int| 0 <= a < b < positions.len() implies before_in_walk(
                        #[trigger] positions[a],
                        #[trigger] positions[b],
                    ) by {
                        assert(found_conflict(
                            before[a],
                            mutants@,
                            graph,
                            before_positions[a].0,
                            before_positions[a].1,
                            before_positions[a].2,
                        ));
                        if b < before_positions.len() {
                            assert(before_in_walk(before_positions[a], before_positions[b]));
                        }
                    }
                    assert forall|e: int| 0 <= e < errors@.len() implies (
                    #[trigger] errors@[e]).is_conflict(mutants@, graph) by {
                        if e < before.len() {
                            assert(errors@[e] == before[e]);
                        } else {
                            assert(found_conflict(
                                errors@[e],
                                mutants@,
                                graph,
                                k as int,
                                p as int,
                                q as int,
                            ));
                        }
                    }
                    assert forall|a: int, b: int, c: int| #[trigger]
                        conflict_at(mutants@, graph, a, b, c) && checked(
                            a,
                            b,
                            c,
                            k as int,
                            p as int,
                            q + 1,
                        ) implies exists|e: int|
                        0 <= e < errors@.len() && (#[trigger] errors@[e]).reports(
                            mutants@,
                            a,
                            b,
                            c,
                        ) by {
                        if checked(a, b, c, k as int, p as int, q as int) {
                            let e = choose|e: int|
                                0 <= e < before.len() && (#[trigger] before[e]).reports(
                                    mutants@,
                                    a,
                                    b,
                                    c,
                                );
                            assert(errors@[e] == before[e]);
                        } else {
                            assert(a == k && b == p && c == q);
                            assert(errors@[errors@.len() - 1].reports(mutants@, a, b, c));
                        }
                    }
                }
                q += 1;
            }
            proof {
                assert forall|e: int| 0 <= e < errors@.len() implies #[trigger] found_conflict(
                    errors@[e],
                    mutants@,
                    graph,
                    positions[e].0,
                    positions[e].1,
                    positions[e].2,
                ) && checked((#[trigger] positions[e]).0, positions[e].1, positions[e].2, k as int, p + 1, 0) by {
                    assert(found_conflict(
                        errors@[e],
                        mutants@,
                        graph,
                        positions[e].0,
                        positions[e].1,
                        positions[e].2,
                    ));
                }
                assert forall|a: int, b: int, c: int| #[trigger]
                    conflict_at(mutants@, graph, a, b, c) && checked(
                        a,
                        b,
                        c,
                        k as int,
                        p + 1,
                        0,
                    ) implies exists|e: int|
                    0 <= e < errors@.len() && (#[trigger] errors@[e]).reports(mutants@, a, b, c) by {
                    assert(checked(a, b, c, k as int, p as int, q as int));
                }
            }
            p += 1;
        }
        proof {
            assert forall|e: int| 0 <= e < errors@.len() implies #[trigger] found_conflict(
                errors@[e],
                mutants@,
                graph,
                positions[e].0,
                positions[e].1,
                positions[e].2,
            ) && checked((#[trigger] positions[e]).0, positions[e].1, positions[e].2, k + 1, 0, 0) by {
                assert(found_conflict(
                    errors@[e],
                    mutants@,
                    graph,
                    positions[e].0,
                    positions[e].1,
                    positions[e].2,
                ));
            }
            assert forall|a: int, b: int, c: int| #[trigger]
                conflict_at(mutants@, graph, a, b, c) && a < k + 1 implies exists|e: int|
                0 <= e < errors@.len() && (#[trigger] errors@[e]).reports(mutants@, a, b, c) by {
                assert(checked(a, b, c, k as int, p as int, 0));
            }
        }
        k += 1;
    }
    if errors.len() == 0 {
        proof {
            assert forall|a: int| 0 <= a < mutants@.len() implies conflict_free(
                (#[trigger] mutants@[a]).mutations@,
                graph,
            ) by {
                assert forall|p: int, q: int|
                    0 <= p < q < mutants@[a].mutations@.len() implies !graph.spec_conflicting(
                    (#[trigger] mutants@[a].mutations@[p]).id,
                    (#[trigger] mutants@[a].mutations@[q]).id,
                ) by {
                    if conflict_at(mutants@, graph, a, p, q) {
                        let e = choose|e: int|
                            0 <= e < errors@.len() && (#[trigger] errors@[e]).reports(
                                mutants@,
                                a,
                                p,
                                q,
                            );
                    }
                }
            }
        }
        return Ok(());
    }
    proof {
        assert(errors@[0].is_conflict(mutants@, graph));
        let (a, p, q) = choose|a: int, p: int, q: int| #[trigger]
            found_conflict(errors@[0], mutants@, graph, a, p, q);
        assert(!conflict_free(mutants@[a].mutations@, graph));
        assert forall|a: int, p: int, q: int| #[trigger]
            conflict_at(mutants@, graph, a, p, q) implies listed(errors@, mutants@, a, p, q) by {
            assert(a < k);
        }
        assert forall|e: int| 0 <= e < errors@.len() implies (#[trigger] errors@[e]).is_conflict(
            mutants@,
            *mutation_conflict_graph,
        ) by {
            assert(errors@[e].is_conflict(mutants@, graph));
        }
        assert(listed_at(errors@, mutants@, graph, positions));
    }
    Err(errors)
}

/// No two mutations of a mutant of a sound batching conflict.
pub proof fn lemma_no_conflict_within_mutant<M>(
    mutants: Seq<Mutant<M>>,
    graph: MutationConflictGraph,
    cap: usize,
    k: int,
    p: int,
    q: int,
)
    requires
        batched(batches_of(mutants), graph, cap),
        0 <= k < mutants.len(),
        0 <= p < mutants[k].mutations@.len(),
        0 <= q < mutants[k].mutations@.len(),
        p != q,
    ensures
        !graph.spec_conflicting(mutants[k].mutations@[p].id, mutants[k].mutations@[q].id),
{
    let batch = batches_of(mutants)[k];
    assert(conflict_free(batch, graph));
    if p < q {
        assert(!graph.spec_conflicting(batch[p].id, batch[q].id));
    } else {
        assert(!graph.spec_conflicting(batch[q].id, batch[p].id));
    }
}

/// In a sound batching under the conflict graph of its mutations, a mutant
/// that holds a mutation that counts as unsafe holds nothing else.
pub proof fn lemma_unsafe_mutation_is_alone<M>(
    mutants: Seq<Mutant<M>>,
    mutations: Seq<Mut<M>>,
    graph: MutationConflictGraph,
    unsafe_targeting: crate::unsafety::UnsafeTargeting,
    cap: usize,
    k: int,
    p: int,
)
    requires
        crate::conflicts::graph_of(graph, mutations, unsafe_targeting),
        batching_of(mutants, mutations, graph, cap),
        0 <= k < mutants.len(),
        0 <= p < mutants[k].mutations@.len(),
        graph.spec_is_unsafe(mutants[k].mutations@[p].id),
    ensures
        mutants[k].mutations@.len() == 1,
{
    crate::conflicts::lemma_graph_isolates_unsafe(graph, mutations, unsafe_targeting);
    let batches = batches_of(mutants);
    assert(batches[k][p] == mutants[k].mutations@[p]);
}

/// The number of mutations in all batches.
pub open spec fn total_len<T>(batches: Seq<Seq<T>>) -> nat
    decreases batches.len(),
{
    if batches.len() == 0 {
        0
    } else {
        total_len(batches.drop_last()) + batches.last().len()
    }
}

proof fn lemma_total_len<T>(batches: Seq<Seq<T>>)
    ensures
        all_mutations(batches).len() == total_len(batches),
    decreases batches.len(),
{
    broadcast use vstd::multiset::group_multiset_axioms;

    if batches.len() > 0 {
        lemma_total_len(batches.drop_last());
        vstd::seq_lib::to_multiset_len(batches.last());
    }
}

/// A sound batching holds every mutation of the list exactly as often as
/// the list does: none is lost, none is there twice.
pub proof fn lemma_batching_complete<M>(
    mutants: Seq<Mutant<M>>,
    mutations: Seq<Mut<M>>,
    graph: MutationConflictGraph,
    cap: usize,
    mutation: Mut<M>,
)
    requires
        batching_of(mutants, mutations, graph, cap),
    ensures
        all_mutations(batches_of(mutants)).count(mutation) == mutations.to_multiset().count(mutation),
        total_len(batches_of(mutants)) == mutations.len(),
{
    lemma_total_len(batches_of(mutants));
    vstd::seq_lib::to_multiset_len(mutations);
}

/// With a cap of at least one, no mutant of a sound batching holds more
/// mutations than the cap.
pub proof fn lemma_cap_respected<M>(
    mutants: Seq<Mutant<M>>,
    graph: MutationConflictGraph,
    cap: usize,
    k: int,
)
    requires
        batched(batches_of(mutants), graph, cap),
        cap >= 1,
        0 <= k < mutants.len(),
    ensures
        mutants[k].mutations@.len() <= cap,
{
    assert(batches_of(mutants)[k] == mutants[k].mutations@);
}

} // verus!
