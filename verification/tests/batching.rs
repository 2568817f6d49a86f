use mutest::batching::anneal_step;
use mutest::batching::apply_move;
use mutest::batching::batch_mutations_dummy;
use mutest::batching::batch_mutations_greedy;
use mutest::batching::batch_mutations_random;
use mutest::batching::choose_random_mutant;
use mutest::batching::compatible_mutant;
use mutest::batching::energy;
use mutest::batching::movable_places;
use mutest::batching::move_targets;
use mutest::batching::optimize_batches_simulated_annealing;
use mutest::batching::random_neighbour_state;
use mutest::batching::validate_mutation_batches;
use mutest::batching::Acceptance;
use mutest::batching::Epsilon;
use mutest::batching::GreedyMutationBatchingOrderingHeuristic;
use mutest::batching::MoveMutation;
use mutest::batching::Mutant;
use mutest::batching::MutantId;
use mutest::batching::MutationBatchesValidationError;
use mutest::batching::NeverWorse;
use mutest::conflicts::conflicting;
use mutest::conflicts::conflicting_targets;
use mutest::conflicts::generate_mutation_conflict_graph;
use mutest::conflicts::MutationConflictGraph;
use mutest::mutation::Mut;
use mutest::mutation::MutId;
use mutest::reachability::EntryPointAssociation;
use mutest::reachability::LocalDefId;
use mutest::reachability::Target;
use mutest::subst::Subst;
use mutest::subst::SubstDef;
use mutest::subst::SubstLoc;
use mutest::subst::Substs;
use mutest::syntax::NodeId;
use mutest::syntax::Span;
use mutest::unsafety::Safety;
use mutest::unsafety::UnsafeSource;
use mutest::unsafety::UnsafeTargeting;
use mutest::unsafety::Unsafety;
use rand::rngs::StdRng;
use rand::RngCore;
use rand::SeedableRng;
use rustc_hash::FxHashMap;

fn target(index: u32, unsafety: Unsafety, tests: &[u32]) -> Target {
    let mut reachable_from = FxHashMap::default();
    for &test in tests {
        reachable_from.insert(test, EntryPointAssociation { distance: 0, unsafe_call_path: None });
    }
    Target { def_id: LocalDefId(index), unsafety, reachable_from, distance: 0 }
}

fn replace(node: u32) -> SubstDef<'static> {
    SubstDef::new(SubstLoc::Replace(NodeId(node)), Subst::AstStmt("();".to_string()))
}

fn mutation<'trg>(id: u32, target: &'trg Target, node: u32) -> Mut<'trg, 'static, u8> {
    Mut {
        id: MutId(id),
        target,
        span: Span { lo: node, hi: node + 1, local: true },
        is_in_unsafe_block: false,
        mutation: 0,
        substs: Substs::one(replace(node)),
    }
}

fn ids(mutants: &[Mutant<u8>]) -> Vec<Vec<u32>> {
    mutants.iter().map(|m| m.mutations.iter().map(|m| m.id.index()).collect()).collect()
}

fn mutant_ids(mutants: &[Mutant<u8>]) -> Vec<u32> {
    mutants.iter().map(|m| m.id.index()).collect()
}

fn rng(seed: u8) -> StdRng {
    StdRng::from_seed([seed; 32])
}

/// Checks what every batching owes: each mutation in exactly one mutant, no
/// conflict within a mutant, no mutant of several mutations above the cap,
/// and unsafe mutations alone.
fn assert_sound(mutants: &[Mutant<u8>], given: &[u32], graph: &MutationConflictGraph, cap: usize) {
    let mut found: Vec<u32> = ids(mutants).into_iter().flatten().collect();
    found.sort();
    let mut given = given.to_vec();
    given.sort();
    assert_eq!(found, given);
    for mutant in mutants {
        assert!(!mutant.mutations.is_empty());
        assert!(mutant.mutations.len() == 1 || mutant.mutations.len() <= cap);
        for (p, a) in mutant.mutations.iter().enumerate() {
            if graph.is_unsafe(a.id) {
                assert_eq!(mutant.mutations.len(), 1);
            }
            for b in &mutant.mutations[p + 1..] {
                assert!(!graph.conflicting_mutations(a.id, b.id));
                assert!(graph.compatible_mutations(a.id, b.id));
            }
        }
    }
    assert!(validate_mutation_batches(mutants, graph).is_ok());
}

// Four targets: the first is reached by the tests 1 and 2, the second by
// test 1, the third by test 2, the fourth by test 3.
fn four_targets() -> Vec<Target> {
    vec![
        target(10, Unsafety::Safe, &[1, 2]),
        target(11, Unsafety::Safe, &[1]),
        target(12, Unsafety::Safe, &[2]),
        target(13, Unsafety::Safe, &[3]),
    ]
}

fn four_mutations(targets: &[Target]) -> Vec<Mut<'_, 'static, u8>> {
    vec![
        mutation(1, &targets[0], 100),
        mutation(2, &targets[1], 101),
        mutation(3, &targets[2], 102),
        mutation(4, &targets[3], 103),
    ]
}

#[test]
fn targets_conflict_where_a_test_reaches_both() {
    let targets = four_targets();
    assert!(conflicting_targets(&targets[0], &targets[1]));
    assert!(conflicting_targets(&targets[1], &targets[0]));
    assert!(conflicting_targets(&targets[0], &targets[2]));
    assert!(!conflicting_targets(&targets[1], &targets[2]));
    assert!(!conflicting_targets(&targets[3], &targets[0]));
    assert!(conflicting_targets(&targets[3], &targets[3]));
    let unreached = target(14, Unsafety::Safe, &[]);
    assert!(!conflicting_targets(&unreached, &unreached));
    assert!(!conflicting_targets(&unreached, &targets[0]));
}

#[test]
fn conflict_graph_of_four_mutations() {
    let targets = four_targets();
    let mutations = four_mutations(&targets);
    let graph = generate_mutation_conflict_graph(&mutations, UnsafeTargeting::All);
    let expected = [(1, 2), (1, 3)];
    for a in 1..=4 {
        for b in 1..=4 {
            let conflict = expected.contains(&(a, b)) || expected.contains(&(b, a));
            assert_eq!(graph.conflicting_mutations(MutId(a), MutId(b)), conflict, "{a} and {b}");
            assert_eq!(graph.compatible_mutations(MutId(a), MutId(b)), !conflict);
            assert_eq!(
                graph.conflicting_mutations(MutId(a), MutId(b)),
                graph.conflicting_mutations(MutId(b), MutId(a))
            );
        }
        assert!(!graph.is_unsafe(MutId(a)));
    }
    let mut conflicts = graph.iter_conflicts();
    conflicts.sort_by_key(|(a, b)| (a.index(), b.index()));
    assert_eq!(conflicts, vec![(MutId(1), MutId(2)), (MutId(1), MutId(3))]);
    let mut safe_conflicts = graph.iter_conflicts_excluding_unsafe();
    safe_conflicts.sort_by_key(|(a, b)| (a.index(), b.index()));
    assert_eq!(safe_conflicts, conflicts);
}

#[test]
fn compatibilities_are_walked_in_ascending_order() {
    let targets = four_targets();
    let mutations = four_mutations(&targets);
    let graph = generate_mutation_conflict_graph(&mutations, UnsafeTargeting::All);
    let mut walk = graph.iter_compatibilities();
    let mut pairs = vec![];
    while let Some((a, b)) = walk.next() {
        pairs.push((a.index(), b.index()));
    }
    assert_eq!(pairs, vec![(1, 4), (2, 3), (2, 4), (3, 4)]);
    assert_eq!(walk.next(), None);
}

#[test]
fn compatibilities_stay_ended_once_they_have_ended() {
    let targets = four_targets();
    let graph = generate_mutation_conflict_graph(&four_mutations(&targets), UnsafeTargeting::All);
    let mut walk = graph.iter_compatibilities();
    let mut found = 0;
    while walk.next().is_some() {
        found += 1;
    }
    assert_eq!(found, 4);
    for _ in 0..5 {
        assert_eq!(walk.next(), None);
    }
}

#[test]
fn compatibilities_of_no_mutations() {
    let mutations: Vec<Mut<u8>> = vec![];
    let graph = generate_mutation_conflict_graph(&mutations, UnsafeTargeting::All);
    assert_eq!(graph.iter_compatibilities().next(), None);
    assert!(graph.iter_conflicts().is_empty());
}

#[test]
fn substitutions_at_one_node_conflict_whatever_they_do() {
    let first = target(10, Unsafety::Safe, &[1]);
    let second = target(11, Unsafety::Safe, &[2]);
    let mut a = mutation(1, &first, 100);
    a.substs = Substs::one(SubstDef::new(
        SubstLoc::InsertBefore(NodeId(7)),
        Subst::AstStmt("a();".to_string()),
    ));
    let mut b = mutation(2, &second, 101);
    b.substs = Substs::new();
    b.substs.push(replace(8));
    b.substs.push(SubstDef::new(SubstLoc::InsertAfter(NodeId(7)), Subst::AstStmt("b();".to_string())));
    let c = mutation(3, &second, 8);
    assert!(conflicting(&a, &b, UnsafeTargeting::All));
    assert!(conflicting(&b, &a, UnsafeTargeting::All));
    let mutations = vec![a, b, c];
    let graph = generate_mutation_conflict_graph(&mutations, UnsafeTargeting::All);
    assert!(graph.conflicting_mutations(MutId(1), MutId(2)));
    assert!(graph.conflicting_mutations(MutId(2), MutId(3)));
    assert!(!graph.conflicting_mutations(MutId(1), MutId(3)));
}

#[test]
fn mutations_of_one_target_conflict_through_the_shared_test() {
    // Two mutations at different nodes of one target that a single test reaches.
    let targets = vec![target(10, Unsafety::Safe, &[1])];
    let mutations = vec![mutation(1, &targets[0], 100), mutation(2, &targets[0], 200)];
    let graph = generate_mutation_conflict_graph(&mutations, UnsafeTargeting::All);
    assert!(graph.conflicting_mutations(MutId(1), MutId(2)));
    assert!(!graph.is_unsafe(MutId(1)));
    assert!(!graph.is_unsafe(MutId(2)));
    let mutants = batch_mutations_greedy(mutations, &graph, None, None, None, 8);
    assert_eq!(ids(&mutants), vec![vec![1], vec![2]]);
    assert_eq!(mutant_ids(&mutants), vec![1, 2]);
}

#[test]
fn an_unsafe_mutation_stays_alone_whatever_the_cap() {
    let targets =
        vec![target(10, Unsafety::Unsafe(UnsafeSource::Unsafe), &[1]), target(11, Unsafety::Safe, &[2])];
    for cap in [0, 1, 2, 100] {
        let mutations = vec![mutation(1, &targets[0], 100), mutation(2, &targets[1], 200)];
        let graph = generate_mutation_conflict_graph(&mutations, UnsafeTargeting::All);
        assert!(graph.is_unsafe(MutId(1)));
        assert!(!graph.is_unsafe(MutId(2)));
        assert!(graph.conflicting_mutations(MutId(1), MutId(2)));
        assert!(graph.iter_conflicts_excluding_unsafe().is_empty());
        assert_eq!(graph.iter_conflicts(), vec![(MutId(1), MutId(2))]);
        let mutants = batch_mutations_greedy(mutations, &graph, None, None, None, cap);
        assert_eq!(ids(&mutants), vec![vec![1], vec![2]]);
        assert_sound(&mutants, &[1, 2], &graph, cap);

        let mutations = vec![mutation(2, &targets[1], 200), mutation(1, &targets[0], 100)];
        let mutants = batch_mutations_random(mutations, &graph, cap, &mut rng(1));
        assert_eq!(ids(&mutants), vec![vec![2], vec![1]]);

        let mutations = vec![mutation(1, &targets[0], 100), mutation(2, &targets[1], 200)];
        let mut mutants = batch_mutations_dummy(mutations);
        optimize_batches_simulated_annealing(&mut mutants, &graph, cap, 50, &mut rng(2), &mut NeverWorse);
        assert_eq!(ids(&mutants), vec![vec![1], vec![2]]);
    }
}

#[test]
fn a_mutation_in_an_unsafe_block_counts_as_unsafe() {
    let targets = vec![target(10, Unsafety::Safe, &[1]), target(11, Unsafety::Safe, &[2])];
    let mut in_block = mutation(1, &targets[0], 100);
    in_block.is_in_unsafe_block = true;
    assert!(in_block.is_unsafe(UnsafeTargeting::All));
    let mutations = vec![in_block, mutation(2, &targets[1], 200)];
    assert!(!mutations[1].is_unsafe(UnsafeTargeting::Safe));
    let graph = generate_mutation_conflict_graph(&mutations, UnsafeTargeting::All);
    assert!(graph.is_unsafe(MutId(1)));
    assert!(graph.conflicting_mutations(MutId(2), MutId(1)));
}

#[test]
fn the_policy_decides_whether_an_enclosing_unsafe_block_makes_unsafe() {
    let targets = vec![
        target(10, Unsafety::Unsafe(UnsafeSource::EnclosingUnsafe), &[1]),
        target(11, Unsafety::Safe, &[2]),
    ];
    for (policy, is_unsafe) in [
        (UnsafeTargeting::Safe, true),
        (UnsafeTargeting::OnlyEnclosing(Safety::Unsafe), true),
        (UnsafeTargeting::OnlyEnclosing(Safety::Normal), false),
        (UnsafeTargeting::All, false),
    ] {
        let mutations = vec![mutation(1, &targets[0], 100), mutation(2, &targets[1], 200)];
        let graph = generate_mutation_conflict_graph(&mutations, policy);
        assert_eq!(graph.is_unsafe(MutId(1)), is_unsafe);
        assert_eq!(graph.conflicting_mutations(MutId(1), MutId(2)), is_unsafe);
        let mutants = batch_mutations_greedy(mutations, &graph, None, None, None, 2);
        assert_eq!(mutants.len(), if is_unsafe { 2 } else { 1 });
    }
}

#[test]
fn a_single_mutation_makes_a_single_mutant() {
    let targets = vec![target(10, Unsafety::Safe, &[1])];
    let graph =
        generate_mutation_conflict_graph(&[mutation(1, &targets[0], 100)], UnsafeTargeting::All);
    assert!(graph.iter_conflicts().is_empty());
    let greedy = batch_mutations_greedy(vec![mutation(1, &targets[0], 100)], &graph, None, None, None, 3);
    assert_eq!(ids(&greedy), vec![vec![1]]);
    let random = batch_mutations_random(vec![mutation(1, &targets[0], 100)], &graph, 3, &mut rng(3));
    assert_eq!(ids(&random), vec![vec![1]]);
    let mut annealed = batch_mutations_dummy(vec![mutation(1, &targets[0], 100)]);
    optimize_batches_simulated_annealing(&mut annealed, &graph, 3, 10, &mut rng(4), &mut NeverWorse);
    assert_eq!(ids(&annealed), vec![vec![1]]);
    assert_eq!(mutant_ids(&annealed), vec![1]);
}

#[test]
fn dummy_batching_gives_every_mutation_its_own_mutant() {
    let targets = four_targets();
    let mutants = batch_mutations_dummy(four_mutations(&targets));
    assert_eq!(ids(&mutants), vec![vec![1], vec![2], vec![3], vec![4]]);
    assert_eq!(mutant_ids(&mutants), vec![1, 2, 3, 4]);
    assert_eq!(mutants[2].id, MutantId(3));
    assert!(batch_mutations_dummy::<u8>(vec![]).is_empty());
}

#[test]
fn greedy_batching_takes_the_first_mutant_that_fits() {
    let targets = four_targets();
    let graph = generate_mutation_conflict_graph(&four_mutations(&targets), UnsafeTargeting::All);
    let mutants = batch_mutations_greedy(four_mutations(&targets), &graph, None, None, None, 4);
    assert_eq!(ids(&mutants), vec![vec![1, 4], vec![2, 3]]);
    assert_eq!(mutant_ids(&mutants), vec![1, 2]);
    assert_sound(&mutants, &[1, 2, 3, 4], &graph, 4);
}

#[test]
fn greedy_batching_respects_the_cap() {
    let targets: Vec<Target> = (0..5).map(|i| target(10 + i, Unsafety::Safe, &[i])).collect();
    let all = || -> Vec<Mut<u8>> { (0..5).map(|i| mutation(i + 1, &targets[i as usize], 100 + i)).collect() };
    let graph = generate_mutation_conflict_graph(&all(), UnsafeTargeting::All);
    assert!(graph.iter_conflicts().is_empty());
    assert_eq!(ids(&batch_mutations_greedy(all(), &graph, None, None, None, 5)), vec![vec![1, 2, 3, 4, 5]]);
    assert_eq!(
        ids(&batch_mutations_greedy(all(), &graph, None, None, None, 2)),
        vec![vec![1, 2], vec![3, 4], vec![5]]
    );
    assert_eq!(
        ids(&batch_mutations_greedy(all(), &graph, None, None, None, 1)),
        vec![vec![1], vec![2], vec![3], vec![4], vec![5]]
    );
    // With a cap of zero no mutant can be joined: every mutation opens its own.
    assert_eq!(
        ids(&batch_mutations_greedy(all(), &graph, None, None, None, 0)),
        vec![vec![1], vec![2], vec![3], vec![4], vec![5]]
    );
}

#[test]
fn greedy_batching_orders_by_conflicts() {
    let targets = four_targets();
    let graph = generate_mutation_conflict_graph(&four_mutations(&targets), UnsafeTargeting::All);
    // Mutation 1 has two conflicts, 2 and 3 have one each, 4 has none.
    let fewest_first = batch_mutations_greedy(
        four_mutations(&targets),
        &graph,
        Some(GreedyMutationBatchingOrderingHeuristic::ConflictsAsc),
        None,
        None,
        4,
    );
    assert_eq!(ids(&fewest_first), vec![vec![4, 2, 3], vec![1]]);
    let most_first = batch_mutations_greedy(
        four_mutations(&targets),
        &graph,
        Some(GreedyMutationBatchingOrderingHeuristic::ConflictsDesc),
        None,
        None,
        4,
    );
    assert_eq!(ids(&most_first), vec![vec![1, 4], vec![3, 2]]);
    assert_sound(&fewest_first, &[1, 2, 3, 4], &graph, 4);
    assert_sound(&most_first, &[1, 2, 3, 4], &graph, 4);
}

#[test]
fn greedy_batching_in_random_order_is_sound() {
    let targets = four_targets();
    let graph = generate_mutation_conflict_graph(&four_mutations(&targets), UnsafeTargeting::All);
    let mut orders = std::collections::BTreeSet::new();
    for seed in 0..40 {
        let mut generator = rng(seed);
        let mutants = batch_mutations_greedy(
            four_mutations(&targets),
            &graph,
            Some(GreedyMutationBatchingOrderingHeuristic::Random),
            None,
            Some(&mut generator),
            4,
        );
        assert_sound(&mutants, &[1, 2, 3, 4], &graph, 4);
        orders.insert(ids(&mutants));
    }
    // The shuffle does change the order in which the mutations are taken.
    assert!(orders.len() > 1);
}

#[test]
fn epsilon_of_zero_is_plain_greedy_batching() {
    let targets = four_targets();
    let graph = generate_mutation_conflict_graph(&four_mutations(&targets), UnsafeTargeting::All);
    let mut generator = rng(5);
    let mutants = batch_mutations_greedy(
        four_mutations(&targets),
        &graph,
        None,
        Some(Epsilon { numerator: 0, denominator: 10 }),
        Some(&mut generator),
        4,
    );
    assert_eq!(ids(&mutants), vec![vec![1, 4], vec![2, 3]]);
}

#[test]
fn epsilon_of_one_always_picks_at_random() {
    let targets: Vec<Target> = (0..6).map(|i| target(10 + i, Unsafety::Safe, &[i])).collect();
    let all = || -> Vec<Mut<u8>> { (0..6).map(|i| mutation(i + 1, &targets[i as usize], 100 + i)).collect() };
    let graph = generate_mutation_conflict_graph(&all(), UnsafeTargeting::All);
    for seed in 0..20 {
        let mut generator = rng(seed);
        let mutants = batch_mutations_greedy(
            all(),
            &graph,
            None,
            Some(Epsilon { numerator: 3, denominator: 3 }),
            Some(&mut generator),
            6,
        );
        // Nothing conflicts and the cap is never reached: there is always a
        // mutant to pick, so no second mutant is opened.
        assert_eq!(mutants.len(), 1);
        assert_sound(&mutants, &[1, 2, 3, 4, 5, 6], &graph, 6);
    }
}

#[test]
fn random_batching_is_sound() {
    let targets = four_targets();
    let graph = generate_mutation_conflict_graph(&four_mutations(&targets), UnsafeTargeting::All);
    let mut outcomes = std::collections::BTreeSet::new();
    for seed in 0..40 {
        for cap in 0..4 {
            let mutants = batch_mutations_random(four_mutations(&targets), &graph, cap, &mut rng(seed));
            assert_sound(&mutants, &[1, 2, 3, 4], &graph, cap);
            assert_eq!(mutant_ids(&mutants), (1..=mutants.len() as u32).collect::<Vec<_>>());
            if cap == 3 {
                // A new mutant is only opened where none can be joined.
                assert_eq!(mutants.len(), 2);
                outcomes.insert(ids(&mutants));
            }
        }
    }
    assert!(outcomes.len() > 1);
}

#[test]
fn compatible_mutant_checks_cap_and_conflicts() {
    let targets = four_targets();
    let mutations = four_mutations(&targets);
    let graph = generate_mutation_conflict_graph(&mutations, UnsafeTargeting::All);
    let mutant = Mutant { id: MutantId(1), mutations: vec![mutation(2, &targets[1], 101)] };
    assert!(!compatible_mutant(&mutations[0], &mutant, &graph, 5));
    assert!(compatible_mutant(&mutations[2], &mutant, &graph, 5));
    assert!(compatible_mutant(&mutations[2], &mutant, &graph, 2));
    assert!(!compatible_mutant(&mutations[2], &mutant, &graph, 1));
    assert!(!compatible_mutant(&mutations[2], &mutant, &graph, 0));
}

#[test]
fn choose_random_mutant_picks_among_those_that_fit() {
    let targets = four_targets();
    let mutations = four_mutations(&targets);
    let graph = generate_mutation_conflict_graph(&mutations, UnsafeTargeting::All);
    let mutants = vec![
        Mutant { id: MutantId(1), mutations: vec![mutation(2, &targets[1], 101)] },
        Mutant { id: MutantId(2), mutations: vec![mutation(3, &targets[2], 102)] },
        Mutant { id: MutantId(3), mutations: vec![mutation(4, &targets[3], 103)] },
    ];
    let mut seen = std::collections::BTreeSet::new();
    for seed in 0..40 {
        // Mutation 1 conflicts with 2 and 3: only the third mutant fits.
        assert_eq!(choose_random_mutant(&mutations[0], &mutants, &graph, 2, &mut rng(seed)), Some(2));
        assert_eq!(choose_random_mutant(&mutations[0], &mutants, &graph, 1, &mut rng(seed)), None);
        let picked = choose_random_mutant(&mutations[3], &mutants, &graph, 2, &mut rng(seed));
        assert!(matches!(picked, Some(0) | Some(1) | Some(2)));
        seen.insert(picked);
    }
    assert!(seen.len() > 1);
    assert_eq!(choose_random_mutant(&mutations[0], &vec![], &graph, 2, &mut rng(0)), None);
}

#[test]
fn annealing_merges_compatible_mutants() {
    let targets: Vec<Target> = (0..6).map(|i| target(10 + i, Unsafety::Safe, &[i])).collect();
    let all = || -> Vec<Mut<u8>> { (0..6).map(|i| mutation(i + 1, &targets[i as usize], 100 + i)).collect() };
    let graph = generate_mutation_conflict_graph(&all(), UnsafeTargeting::All);
    for seed in 0..10 {
        let mut mutants = batch_mutations_dummy(all());
        optimize_batches_simulated_annealing(&mut mutants, &graph, 3, 200, &mut rng(seed), &mut NeverWorse);
        assert_sound(&mutants, &[1, 2, 3, 4, 5, 6], &graph, 3);
        assert!(mutants.len() < 6);
        assert!(mutants.len() >= 2);
        let numbers = mutant_ids(&mutants);
        assert!(numbers.windows(2).all(|w| w[0] < w[1]));
    }
}

#[test]
fn annealing_never_breaks_a_batching() {
    let targets = four_targets();
    let graph = generate_mutation_conflict_graph(&four_mutations(&targets), UnsafeTargeting::All);
    for seed in 0..20 {
        for cap in 0..4 {
            let mut mutants = batch_mutations_greedy(four_mutations(&targets), &graph, None, None, None, cap);
            let before = mutants.len();
            optimize_batches_simulated_annealing(&mut mutants, &graph, cap, 30, &mut rng(seed), &mut NeverWorse);
            assert_sound(&mutants, &[1, 2, 3, 4], &graph, cap);
            assert!(mutants.len() <= before);
        }
    }
}

struct Never;

impl Acceptance for Never {
    fn accept(&mut self, _: usize, _: usize, _: usize, _: usize, _: &mut StdRng) -> bool {
        false
    }
}

struct Recording(Vec<(usize, usize, usize, usize)>);

impl Acceptance for Recording {
    fn accept(&mut self, curr: usize, next: usize, iteration: usize, max: usize, _: &mut StdRng) -> bool {
        self.0.push((curr, next, iteration, max));
        true
    }
}

fn six_independent(targets: &[Target]) -> Vec<Mut<'_, 'static, u8>> {
    (0..6).map(|i| mutation(i + 1, &targets[i as usize], 100 + i)).collect()
}

#[test]
fn annealing_leaves_the_batching_where_no_step_is_accepted() {
    let targets: Vec<Target> = (0..6).map(|i| target(10 + i, Unsafety::Safe, &[i])).collect();
    let graph = generate_mutation_conflict_graph(&six_independent(&targets), UnsafeTargeting::All);
    // Two mutants of three mutations each, under a cap of four: every step
    // moves a mutation across and empties no mutant.
    let mut all = six_independent(&targets);
    let second = all.split_off(3);
    let mut mutants =
        vec![Mutant { id: MutantId(1), mutations: all }, Mutant { id: MutantId(2), mutations: second }];
    optimize_batches_simulated_annealing(&mut mutants, &graph, 4, 50, &mut rng(1), &mut Never);
    assert_eq!(ids(&mutants), vec![vec![1, 2, 3], vec![4, 5, 6]]);
    assert_eq!(mutant_ids(&mutants), vec![1, 2]);
}

#[test]
fn annealing_without_iterations_touches_nothing() {
    let targets = four_targets();
    let graph = generate_mutation_conflict_graph(&four_mutations(&targets), UnsafeTargeting::All);
    let mut mutants = batch_mutations_dummy(four_mutations(&targets));
    let mut generator = rng(1);
    optimize_batches_simulated_annealing(&mut mutants, &graph, 4, 0, &mut generator, &mut NeverWorse);
    assert_eq!(ids(&mutants), vec![vec![1], vec![2], vec![3], vec![4]]);
    assert_eq!(mutant_ids(&mutants), vec![1, 2, 3, 4]);
    assert_eq!(generator.next_u64(), rng(1).next_u64());
}

#[test]
fn annealing_merges_two_compatible_singletons_whatever_the_rule() {
    let targets = vec![target(10, Unsafety::Safe, &[1]), target(11, Unsafety::Safe, &[2])];
    let both = || vec![mutation(1, &targets[0], 100), mutation(2, &targets[1], 101)];
    let graph = generate_mutation_conflict_graph(&both(), UnsafeTargeting::All);
    for seed in 0..20 {
        let mut mutants = batch_mutations_dummy(both());
        optimize_batches_simulated_annealing(&mut mutants, &graph, 2, 1, &mut rng(seed), &mut Never);
        assert_eq!(mutants.len(), 1);
        let mut merged = ids(&mutants).remove(0);
        merged.sort();
        assert_eq!(merged, vec![1, 2]);
        // The mutant that took the other keeps its number.
        let number = mutants[0].id.index();
        assert_eq!(mutants[0].mutations[0].id.index(), number);
    }
}

#[test]
fn annealing_keeps_an_unsafe_mutation_in_its_mutant() {
    let targets = vec![
        target(10, Unsafety::Safe, &[1]),
        target(11, Unsafety::Unsafe(UnsafeSource::Unsafe), &[2]),
        target(12, Unsafety::Safe, &[3]),
        target(13, Unsafety::Safe, &[4]),
    ];
    let graph = generate_mutation_conflict_graph(&four_mutations(&targets), UnsafeTargeting::All);
    for seed in 0..20 {
        let mut mutants = batch_mutations_dummy(four_mutations(&targets));
        optimize_batches_simulated_annealing(&mut mutants, &graph, 4, 40, &mut rng(seed), &mut NeverWorse);
        assert_sound(&mutants, &[1, 2, 3, 4], &graph, 4);
        let alone: Vec<&Mutant<u8>> = mutants.iter().filter(|m| m.id.index() == 2).collect();
        assert_eq!(alone.len(), 1);
        assert_eq!(alone[0].mutations.iter().map(|m| m.id.index()).collect::<Vec<_>>(), vec![2]);
        assert!(mutant_ids(&mutants).iter().all(|number| (1..=4).contains(number)));
        assert_eq!(mutants.len(), 2);
    }
}

#[test]
fn annealing_asks_the_rule_only_of_steps_that_do_not_lower_the_number_of_mutants() {
    let targets: Vec<Target> = (0..6).map(|i| target(10 + i, Unsafety::Safe, &[i])).collect();
    let all = || -> Vec<Mut<u8>> { (0..3).map(|i| mutation(i + 1, &targets[i as usize], 100 + i)).collect() };
    let graph = generate_mutation_conflict_graph(&all(), UnsafeTargeting::All);
    let mut mutants = batch_mutations_dummy(all());
    let mut rule = Recording(vec![]);
    optimize_batches_simulated_annealing(&mut mutants, &graph, 3, 2, &mut rng(1), &mut rule);
    // Every mutant holds one mutation: each step empties one and is taken
    // without asking.
    assert_eq!(rule.0, vec![]);
    assert_eq!(mutants.len(), 1);

    let graph = generate_mutation_conflict_graph(&six_independent(&targets), UnsafeTargeting::All);
    let mut first = six_independent(&targets);
    let second = first.split_off(3);
    let mut mutants =
        vec![Mutant { id: MutantId(1), mutations: first }, Mutant { id: MutantId(2), mutations: second }];
    let mut rule = Recording(vec![]);
    optimize_batches_simulated_annealing(&mut mutants, &graph, 4, 1, &mut rng(1), &mut rule);
    // The step moves one of three mutations: the number of mutants stays.
    assert_eq!(rule.0, vec![(2, 2, 0, 1)]);
    let mut sizes: Vec<usize> = mutants.iter().map(|m| m.mutations.len()).collect();
    sizes.sort();
    assert_eq!(sizes, vec![2, 4]);
}

#[test]
fn a_step_is_proposed_where_a_single_mutation_can_move() {
    // The first two mutations conflict through the test that reaches both;
    // the third is free.
    let targets =
        vec![target(10, Unsafety::Safe, &[1]), target(11, Unsafety::Safe, &[1]), target(12, Unsafety::Safe, &[2])];
    let all = || vec![mutation(1, &targets[0], 100), mutation(2, &targets[1], 101), mutation(3, &targets[2], 102)];
    let graph = generate_mutation_conflict_graph(&all(), UnsafeTargeting::All);
    let mut mutations = all();
    let rest = mutations.split_off(1);
    let mutants =
        vec![Mutant { id: MutantId(1), mutations }, Mutant { id: MutantId(2), mutations: rest }];
    assert_eq!(movable_places(&mutants, &graph, 2), vec![(1, 1)]);
    for seed in 0..40 {
        assert_eq!(
            random_neighbour_state(&mutants, &graph, 2, &mut rng(seed)),
            Some(MoveMutation { from: 1, mutation: 1, into: 0 })
        );
    }
}

#[test]
fn apply_move_keeps_the_numbers_of_the_mutants_that_stay() {
    let targets: Vec<Target> = (0..6).map(|i| target(10 + i, Unsafety::Safe, &[i])).collect();
    let mut mutants = batch_mutations_dummy(six_independent(&targets));
    apply_move(&mut mutants, MoveMutation { from: 1, mutation: 0, into: 3 });
    assert_eq!(mutant_ids(&mutants), vec![1, 3, 4, 5, 6]);
    assert_eq!(ids(&mutants), vec![vec![1], vec![3], vec![4, 2], vec![5], vec![6]]);
    apply_move(&mut mutants, MoveMutation { from: 2, mutation: 0, into: 0 });
    assert_eq!(mutant_ids(&mutants), vec![1, 3, 4, 5, 6]);
    assert_eq!(ids(&mutants), vec![vec![1, 4], vec![3], vec![2], vec![5], vec![6]]);
}

#[test]
fn anneal_step_takes_what_lowers_or_is_accepted() {
    let targets: Vec<Target> = (0..6).map(|i| target(10 + i, Unsafety::Safe, &[i])).collect();
    let mut mutants = batch_mutations_dummy(six_independent(&targets));
    // Nothing proposed.
    anneal_step(&mut mutants, None, true);
    assert_eq!(mutants.len(), 6);
    // A step that empties a mutant is taken though the rule refused.
    anneal_step(&mut mutants, Some(MoveMutation { from: 0, mutation: 0, into: 1 }), false);
    assert_eq!(ids(&mutants), vec![vec![2, 1], vec![3], vec![4], vec![5], vec![6]]);
    assert_eq!(mutant_ids(&mutants), vec![2, 3, 4, 5, 6]);
    // A step that empties none is left where the rule refused.
    anneal_step(&mut mutants, Some(MoveMutation { from: 0, mutation: 0, into: 1 }), false);
    assert_eq!(ids(&mutants), vec![vec![2, 1], vec![3], vec![4], vec![5], vec![6]]);
    // And taken where the rule accepted.
    anneal_step(&mut mutants, Some(MoveMutation { from: 0, mutation: 0, into: 1 }), true);
    assert_eq!(ids(&mutants), vec![vec![1], vec![3, 2], vec![4], vec![5], vec![6]]);
    assert_eq!(mutant_ids(&mutants), vec![2, 3, 4, 5, 6]);
}

#[test]
fn energy_counts_the_mutants_after_a_step() {
    let targets = four_targets();
    let mutants = vec![
        Mutant { id: MutantId(1), mutations: vec![mutation(2, &targets[1], 101), mutation(3, &targets[2], 102)] },
        Mutant { id: MutantId(2), mutations: vec![mutation(4, &targets[3], 103)] },
    ];
    assert_eq!(energy(&mutants, None), 2);
    assert_eq!(energy(&mutants, Some(MoveMutation { from: 0, mutation: 1, into: 1 })), 2);
    assert_eq!(energy(&mutants, Some(MoveMutation { from: 1, mutation: 0, into: 0 })), 1);
}

#[test]
fn apply_move_moves_one_mutation() {
    let targets = four_targets();
    let mut mutants = vec![
        Mutant { id: MutantId(1), mutations: vec![mutation(2, &targets[1], 101), mutation(3, &targets[2], 102)] },
        Mutant { id: MutantId(2), mutations: vec![mutation(4, &targets[3], 103)] },
    ];
    apply_move(&mut mutants, MoveMutation { from: 0, mutation: 0, into: 1 });
    assert_eq!(ids(&mutants), vec![vec![3], vec![4, 2]]);
    assert_eq!(mutant_ids(&mutants), vec![1, 2]);
    apply_move(&mut mutants, MoveMutation { from: 0, mutation: 0, into: 1 });
    assert_eq!(ids(&mutants), vec![vec![4, 2, 3]]);
    assert_eq!(mutant_ids(&mutants), vec![2]);
}

#[test]
fn random_neighbour_state_proposes_only_valid_steps() {
    let targets = four_targets();
    let graph = generate_mutation_conflict_graph(&four_mutations(&targets), UnsafeTargeting::All);
    let mutants = batch_mutations_dummy(four_mutations(&targets));
    let mut proposed = 0;
    for seed in 0..40 {
        if let Some(step) = random_neighbour_state(&mutants, &graph, 2, &mut rng(seed)) {
            proposed += 1;
            assert_ne!(step.from, step.into);
            let moved = &mutants[step.from].mutations[step.mutation];
            assert!(compatible_mutant(moved, &mutants[step.into], &graph, 2));
        }
        // With a cap of one no mutant can take a second mutation.
        assert_eq!(random_neighbour_state(&mutants, &graph, 1, &mut rng(seed)), None);
    }
    assert!(proposed > 0);
    assert_eq!(random_neighbour_state::<u8>(&vec![], &graph, 2, &mut rng(0)), None);
}

#[test]
fn validation_reports_each_conflicting_pair() {
    let targets = four_targets();
    let graph = generate_mutation_conflict_graph(&four_mutations(&targets), UnsafeTargeting::All);
    let mutants = vec![
        Mutant { id: MutantId(1), mutations: vec![mutation(4, &targets[3], 103)] },
        Mutant {
            id: MutantId(2),
            mutations: vec![
                mutation(2, &targets[1], 101),
                mutation(1, &targets[0], 100),
                mutation(3, &targets[2], 102),
            ],
        },
    ];
    let errors = match validate_mutation_batches(&mutants, &graph) {
        Ok(()) => panic!("the conflicts went unnoticed"),
        Err(errors) => errors,
    };
    let found: Vec<(u32, u32, u32)> = errors
        .iter()
        .map(|error| match error {
            MutationBatchesValidationError::ConflictingMutationsInBatch(mutant, a, b) => {
                (mutant.id.index(), a.id.index(), b.id.index())
            }
        })
        .collect();
    assert_eq!(found, vec![(2, 2, 1), (2, 1, 3)]);
    assert!(validate_mutation_batches(&mutants[..1], &graph).is_ok());
    assert!(validate_mutation_batches::<u8>(&[], &graph).is_ok());
}

#[test]
fn mutants_list_their_mutations_and_substitutions() {
    let targets = four_targets();
    let mut second = mutation(3, &targets[2], 102);
    second.mutation = 9;
    second.substs.push(replace(300));
    let mutant = Mutant { id: MutantId(1), mutations: vec![mutation(2, &targets[1], 101), second] };
    assert_eq!(mutant.iter_mutations(), vec![&0, &9]);
    let anchors: Vec<SubstLoc> = mutant.iter_substitutions().iter().map(|s| s.location).collect();
    assert_eq!(
        anchors,
        vec![
            SubstLoc::Replace(NodeId(101)),
            SubstLoc::Replace(NodeId(102)),
            SubstLoc::Replace(NodeId(300)),
        ]
    );
    assert_eq!(mutant.mutations[1].substs.len(), 2);
    assert_eq!(mutant.mutations[1].substs.as_slice().len(), 2);
}

#[test]
fn a_step_is_proposed_for_certain_where_every_mutation_can_move() {
    let targets = four_targets();
    let graph = generate_mutation_conflict_graph(&four_mutations(&targets), UnsafeTargeting::All);
    // Every mutation on its own: each can join the mutant of the fourth
    // at least, and the fourth any other.
    let mutants = batch_mutations_dummy(four_mutations(&targets));
    for seed in 0..40 {
        assert!(random_neighbour_state(&mutants, &graph, 2, &mut rng(seed)).is_some());
    }
}

#[test]
fn move_targets_are_the_other_mutants_that_can_take_the_mutation() {
    let targets = four_targets();
    let graph = generate_mutation_conflict_graph(&four_mutations(&targets), UnsafeTargeting::All);
    let mutants = batch_mutations_dummy(four_mutations(&targets));
    assert_eq!(move_targets(&mutants, &graph, 2, 0, 0), vec![3]);
    assert_eq!(move_targets(&mutants, &graph, 2, 1, 0), vec![2, 3]);
    assert_eq!(move_targets(&mutants, &graph, 2, 2, 0), vec![1, 3]);
    assert_eq!(move_targets(&mutants, &graph, 2, 3, 0), vec![0, 1, 2]);
    // With a cap of one no mutant takes a second mutation.
    assert_eq!(move_targets(&mutants, &graph, 1, 3, 0), Vec::<usize>::new());
}

#[test]
fn an_unsafe_mutation_has_no_move_targets() {
    let targets = vec![target(10, Unsafety::Unsafe(UnsafeSource::Unsafe), &[1]), target(11, Unsafety::Safe, &[2])];
    let mutations = || vec![mutation(1, &targets[0], 100), mutation(2, &targets[1], 101)];
    let graph = generate_mutation_conflict_graph(&mutations(), UnsafeTargeting::All);
    let mutants = batch_mutations_dummy(mutations());
    assert!(graph.is_unsafe(MutId(1)));
    assert_eq!(move_targets(&mutants, &graph, 4, 0, 0), Vec::<usize>::new());
    // Nor does a mutant with an unsafe mutation take another.
    assert_eq!(move_targets(&mutants, &graph, 4, 1, 0), Vec::<usize>::new());
    for seed in 0..20 {
        assert_eq!(random_neighbour_state(&mutants, &graph, 4, &mut rng(seed)), None);
    }
}

#[test]
fn never_worse_takes_what_does_not_raise_the_number_of_mutants() {
    let mut rule = NeverWorse;
    let mut generator = rng(1);
    assert!(rule.accept(3, 2, 0, 10, &mut generator));
    assert!(rule.accept(3, 3, 9, 10, &mut generator));
    assert!(!rule.accept(3, 4, 0, 10, &mut generator));
    assert!(!rule.accept(0, 1, 5, 10, &mut generator));
}
