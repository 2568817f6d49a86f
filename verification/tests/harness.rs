use mutest::harness::combined;
use mutest::harness::maximize_mutation_parallelism;
use mutest::harness::prioritize_tests_by_distance;
use mutest::harness::record_test_result;
use mutest::harness::mutant_holds;
use mutest::harness::select_tests;
use mutest::harness::simulated_mutant;
use mutest::harness::sort_profiled_tests_by_exec_time;
use mutest::harness::start_run;
use mutest::harness::verdict;
use mutest::harness::Flow;
use mutest::harness::MutationAnalysisResults;
use mutest::harness::MutationOpStats;
use mutest::harness::MutationTestResult;
use mutest::harness::MutationTestResults;
use mutest::harness::ProfiledTest;
use mutest::harness::SimulationError;
use mutest::harness::SimulationTally;
use mutest::harness::TestEntry;
use mutest::harness::TestResult;
use mutest::metadata::MutantMeta;
use mutest::metadata::MutationMeta;
use mutest::metadata::MutationSafety;

fn distances(entries: &[(&'static str, usize)]) -> phf::Map<&'static str, usize> {
    if entries.is_empty() {
        return phf::Map::new();
    }
    let keys: Vec<&'static str> = entries.iter().map(|entry| entry.0).collect();
    let state = phf_generator::generate_hash(&keys);
    let ordered: Vec<(&'static str, usize)> = state.map.iter().map(|&i| entries[i]).collect();
    phf::Map {
        key: state.key,
        disps: Box::leak(state.disps.into_boxed_slice()),
        entries: Box::leak(ordered.into_boxed_slice()),
    }
}

fn mutation(id: u32, safety: MutationSafety, op_name: &'static str, tests: &[(&'static str, usize)]) -> &'static MutationMeta {
    Box::leak(Box::new(MutationMeta {
        id,
        safety,
        op_name,
        display_name: "swap",
        display_location: "src/lib.rs:1:1",
        reachable_from: distances(tests),
        undetected_diagnostic: "",
    }))
}

fn mutant(mutations: Vec<&'static MutationMeta>) -> MutantMeta<()> {
    MutantMeta { id: 1, mutations: Box::leak(mutations.into_boxed_slice()), substitutions: () }
}

fn entries(names: &[&str]) -> Vec<TestEntry<usize>> {
    names.iter().enumerate().map(|(i, name)| TestEntry { name: name.to_string(), test: i }).collect()
}

fn names(tests: &[TestEntry<usize>]) -> Vec<&str> {
    tests.iter().map(|t| t.name.as_str()).collect()
}

#[test]
fn mutations_know_the_tests_that_reach_them() {
    let reached = mutation(1, MutationSafety::Safe, "op", &[("a::t1", 0), ("a::t2", 3), ("b::t", 1)]);
    assert_eq!(reached.distance_from("a::t1"), Some(0));
    assert_eq!(reached.distance_from("a::t2"), Some(3));
    assert_eq!(reached.distance_from("b::t"), Some(1));
    assert_eq!(reached.distance_from("a::t"), None);
    assert_eq!(reached.distance_from(""), None);
    assert!(reached.is_reached_by("b::t"));
    assert!(!reached.is_reached_by("b::t2"));
    let unreached = mutation(2, MutationSafety::Safe, "op", &[]);
    assert_eq!(unreached.distance_from("a::t1"), None);
    assert!(!unreached.is_reached_by("a::t1"));
}

#[test]
fn a_mutant_is_unsafe_where_a_mutation_is_not_safe() {
    let safe = mutation(1, MutationSafety::Safe, "op", &[]);
    let tainted = mutation(2, MutationSafety::Tainted, "op", &[]);
    let unsafe_one = mutation(3, MutationSafety::Unsafe, "op", &[]);
    assert!(!mutant(vec![]).is_unsafe());
    assert!(!mutant(vec![safe, safe]).is_unsafe());
    assert!(mutant(vec![safe, tainted]).is_unsafe());
    assert!(mutant(vec![unsafe_one, safe]).is_unsafe());
}

#[test]
fn the_first_mutation_that_a_test_reaches() {
    let first = mutation(1, MutationSafety::Safe, "op", &[("t1", 0)]);
    let second = mutation(2, MutationSafety::Safe, "op", &[("t1", 0), ("t2", 0)]);
    let both = mutant(vec![first, second]);
    assert_eq!(both.first_reached_by("t1"), Some(0));
    assert_eq!(both.first_reached_by("t2"), Some(1));
    assert_eq!(both.first_reached_by("t3"), None);
}

#[test]
fn what_a_test_result_says_of_a_mutation() {
    assert_eq!(verdict(&TestResult::Ignored), MutationTestResult::Undetected);
    assert_eq!(verdict(&TestResult::Passed), MutationTestResult::Undetected);
    assert_eq!(verdict(&TestResult::Failed), MutationTestResult::Detected);
    assert_eq!(verdict(&TestResult::FailedMsg("no".to_string())), MutationTestResult::Detected);
    assert_eq!(verdict(&TestResult::CrashedMsg("signal".to_string())), MutationTestResult::Crashed);
    assert_eq!(verdict(&TestResult::TimedOut), MutationTestResult::TimedOut);
    assert_eq!(MutationTestResult::default(), MutationTestResult::Undetected);
}

#[test]
fn findings_combine() {
    let undetected = MutationTestResult::Undetected;
    let detected = MutationTestResult::Detected;
    let timed_out = MutationTestResult::TimedOut;
    let crashed = MutationTestResult::Crashed;
    // Rows: the finding so far; columns: what one more test found.
    let all = [undetected, detected, timed_out, crashed];
    let expected = [
        [undetected, detected, timed_out, crashed],
        [detected, detected, detected, detected],
        [timed_out, detected, timed_out, crashed],
        [crashed, detected, timed_out, crashed],
    ];
    for (so_far, row) in all.iter().zip(expected) {
        for (found, result) in all.iter().zip(row) {
            assert_eq!(combined(*so_far, *found), result, "{so_far:?} then {found:?}");
        }
    }
}

#[test]
fn results_per_test_are_kept_by_name() {
    let mut results = MutationTestResults::new();
    assert_eq!(results.result, MutationTestResult::Undetected);
    assert_eq!(results.result_of("t1"), None);
    results.insert("t1", Some(MutationTestResult::Undetected));
    results.insert("t2", None);
    results.insert("t1", Some(MutationTestResult::Crashed));
    assert_eq!(results.result_of("t1"), Some(Some(MutationTestResult::Crashed)));
    assert_eq!(results.result_of("t2"), Some(None));
    assert_eq!(results.result_of("t3"), None);
    assert_eq!(results.results_per_test.len(), 2);
    assert_eq!(results.result, MutationTestResult::Undetected);
}

#[test]
fn tests_are_selected_that_reach_the_mutant() {
    let first = mutation(1, MutationSafety::Safe, "op", &[("t1", 0)]);
    let second = mutation(2, MutationSafety::Safe, "op", &[("t3", 0), ("t4", 1)]);
    let selected = select_tests(entries(&["t4", "t0", "t1", "t2", "t3", "t1"]), &mutant(vec![first, second]));
    assert_eq!(names(&selected), vec!["t4", "t1", "t3", "t1"]);
    assert_eq!(selected.iter().map(|t| t.test).collect::<Vec<_>>(), vec![0, 2, 4, 5]);
    assert!(select_tests(entries(&["t1"]), &mutant(vec![])).is_empty());
}

fn two_mutations() -> MutantMeta<()> {
    mutant(vec![
        mutation(7, MutationSafety::Safe, "op", &[("a1", 0), ("a2", 0), ("both", 1)]),
        mutation(9, MutationSafety::Safe, "op", &[("b1", 0), ("both", 0)]),
    ])
}

#[test]
fn a_run_starts_with_nothing_detected() {
    let results = start_run(&two_mutations());
    assert_eq!(results.len(), 2);
    assert_eq!(results[&7].result, MutationTestResult::Undetected);
    assert!(results[&7].results_per_test.is_empty());
    assert_eq!(results[&9].result, MutationTestResult::Undetected);
    assert!(start_run(&mutant(vec![])).is_empty());
}

#[test]
fn a_passing_test_changes_nothing_but_its_own_entry() {
    let mutant = two_mutations();
    let mut results = start_run(&mutant);
    let mut remaining = entries(&["a2", "b1", "both"]);
    for exhaustive in [false, true] {
        let flow = record_test_result(&mut results, &mutant, "a1", &TestResult::Passed, exhaustive, &mut remaining);
        assert_eq!(flow, Flow::Continue);
        assert_eq!(names(&remaining), vec!["a2", "b1", "both"]);
        assert_eq!(results[&7].result, MutationTestResult::Undetected);
        assert_eq!(results[&7].result_of("a1"), Some(Some(MutationTestResult::Undetected)));
        assert_eq!(results[&7].results_per_test.len(), 1);
        assert!(results[&9].results_per_test.is_empty());
    }
    let flow = record_test_result(&mut results, &mutant, "a2", &TestResult::Ignored, false, &mut remaining);
    assert_eq!(flow, Flow::Continue);
    assert_eq!(results[&7].result_of("a2"), Some(Some(MutationTestResult::Undetected)));
}

#[test]
fn a_detection_drops_the_other_tests_of_the_mutation() {
    let mutant = two_mutations();
    let mut results = start_run(&mutant);
    let mut remaining = entries(&["a2", "b1", "both", "other"]);
    let flow = record_test_result(&mut results, &mutant, "a1", &TestResult::Failed, false, &mut remaining);
    assert_eq!(flow, Flow::Continue);
    assert_eq!(names(&remaining), vec!["b1", "other"]);
    assert_eq!(results[&7].result, MutationTestResult::Detected);
    assert_eq!(results[&7].result_of("a1"), Some(Some(MutationTestResult::Detected)));
    assert_eq!(results[&9].result, MutationTestResult::Undetected);
    // A test that reaches both mutations counts for the first.
    let flow = record_test_result(&mut results, &mutant, "both", &TestResult::TimedOut, false, &mut remaining);
    assert_eq!(flow, Flow::Continue);
    assert_eq!(results[&7].result, MutationTestResult::Detected);
    assert_eq!(results[&7].result_of("both"), Some(Some(MutationTestResult::TimedOut)));
    assert!(results[&9].results_per_test.is_empty());
    // The run stops once every mutation has a finding.
    let flow = record_test_result(
        &mut results,
        &mutant,
        "b1",
        &TestResult::CrashedMsg("abort".to_string()),
        false,
        &mut remaining,
    );
    assert_eq!(flow, Flow::Stop);
    assert_eq!(results[&9].result, MutationTestResult::Crashed);
    assert_eq!(names(&remaining), vec!["other"]);
}

#[test]
fn an_exhaustive_run_drops_no_test_and_does_not_stop() {
    let mutant = two_mutations();
    let mut results = start_run(&mutant);
    let mut remaining = entries(&["a2", "b1", "both"]);
    for (test, result) in [
        ("a1", TestResult::TimedOut),
        ("b1", TestResult::FailedMsg("assertion".to_string())),
        ("a2", TestResult::Failed),
        ("both", TestResult::CrashedMsg("abort".to_string())),
    ] {
        let flow = record_test_result(&mut results, &mutant, test, &result, true, &mut remaining);
        assert_eq!(flow, Flow::Continue);
        assert_eq!(names(&remaining), vec!["a2", "b1", "both"]);
    }
    assert_eq!(results[&7].result, MutationTestResult::Detected);
    assert_eq!(results[&7].result_of("a1"), Some(Some(MutationTestResult::TimedOut)));
    assert_eq!(results[&7].result_of("both"), Some(Some(MutationTestResult::Crashed)));
    assert_eq!(results[&9].result, MutationTestResult::Detected);
}

#[test]
fn crashes_and_timeouts_count_until_a_test_fails() {
    let mutant = mutant(vec![mutation(7, MutationSafety::Safe, "op", &[("t1", 0), ("t2", 0), ("t3", 0)])]);
    let mut results = start_run(&mutant);
    let mut remaining: Vec<TestEntry<usize>> = vec![];
    record_test_result(&mut results, &mutant, "t1", &TestResult::TimedOut, true, &mut remaining);
    assert_eq!(results[&7].result, MutationTestResult::TimedOut);
    record_test_result(&mut results, &mutant, "t2", &TestResult::CrashedMsg(String::new()), true, &mut remaining);
    assert_eq!(results[&7].result, MutationTestResult::Crashed);
    record_test_result(&mut results, &mutant, "t3", &TestResult::Failed, true, &mut remaining);
    assert_eq!(results[&7].result, MutationTestResult::Detected);
    record_test_result(&mut results, &mutant, "t1", &TestResult::TimedOut, true, &mut remaining);
    assert_eq!(results[&7].result, MutationTestResult::Detected);
    assert_eq!(results[&7].results_per_test.len(), 3);
}

#[test]
fn results_add_up() {
    let mut results = MutationAnalysisResults::new();
    assert!(results.all_test_runs_failed_successfully);
    let swap = |safety| mutation(1, safety, "swap", &[]);
    let invert = |safety| mutation(2, safety, "invert", &[]);
    results.record(swap(MutationSafety::Safe), MutationTestResult::Detected);
    assert!(results.all_test_runs_failed_successfully);
    results.record(swap(MutationSafety::Unsafe), MutationTestResult::Undetected);
    assert!(!results.all_test_runs_failed_successfully);
    results.record(invert(MutationSafety::Safe), MutationTestResult::TimedOut);
    results.record(invert(MutationSafety::Tainted), MutationTestResult::Crashed);
    results.record(swap(MutationSafety::Safe), MutationTestResult::Undetected);
    results.record(invert(MutationSafety::Safe), MutationTestResult::Crashed);
    results.record(invert(MutationSafety::Safe), MutationTestResult::Detected);
    assert!(!results.all_test_runs_failed_successfully);
    assert_eq!(results.total_mutations_count, 7);
    assert_eq!(results.total_safe_mutations_count, 5);
    assert_eq!(results.undetected_mutations_count, 2);
    assert_eq!(results.undetected_safe_mutations_count, 1);
    assert_eq!(results.timed_out_mutations_count, 1);
    assert_eq!(results.timed_out_safe_mutations_count, 1);
    assert_eq!(results.crashed_mutations_count, 2);
    assert_eq!(results.crashed_safe_mutations_count, 1);
    assert_eq!(
        results.mutation_op_stats,
        vec![
            (
                "swap",
                MutationOpStats {
                    total_mutations_count: 3,
                    undetected_mutations_count: 2,
                    timed_out_mutations_count: 0,
                    crashed_mutations_count: 0,
                }
            ),
            (
                "invert",
                MutationOpStats {
                    total_mutations_count: 4,
                    undetected_mutations_count: 0,
                    timed_out_mutations_count: 1,
                    crashed_mutations_count: 2,
                }
            ),
        ]
    );
    assert_eq!(MutationOpStats::default().total_mutations_count, 0);
    let counted = MutationOpStats::default().count(MutationTestResult::TimedOut);
    assert_eq!(counted.total_mutations_count, 1);
    assert_eq!(counted.timed_out_mutations_count, 1);
    assert_eq!(counted.undetected_mutations_count, 0);
    assert_eq!(counted.crashed_mutations_count, 0);
}

#[test]
fn profiled_tests_are_sorted_by_their_time() {
    let profiled = |test: usize, exec_time: Option<u128>| ProfiledTest { test, result: TestResult::Passed, exec_time };
    let mut tests = vec![
        profiled(0, Some(30)),
        profiled(1, None),
        profiled(2, Some(10)),
        profiled(3, Some(30)),
        profiled(4, None),
        profiled(5, Some(0)),
        profiled(6, Some(u128::MAX)),
        profiled(7, Some(10)),
    ];
    sort_profiled_tests_by_exec_time(&mut tests);
    assert_eq!(tests.iter().map(|t| t.test).collect::<Vec<_>>(), vec![5, 2, 7, 0, 3, 6, 1, 4]);
    let mut none: Vec<ProfiledTest<usize>> = vec![];
    sort_profiled_tests_by_exec_time(&mut none);
    assert!(none.is_empty());
}

fn meta(mutations: Vec<&'static MutationMeta>) -> &'static [&'static MutationMeta] {
    Box::leak(mutations.into_boxed_slice())
}

#[test]
fn tests_are_prioritized_by_their_distance() {
    let mutations = meta(vec![
        mutation(1, MutationSafety::Safe, "op", &[("far", 5), ("near", 2), ("both", 4)]),
        mutation(2, MutationSafety::Safe, "op", &[("both", 1), ("nearest", 0), ("near2", 2)]),
    ]);
    let mut tests = entries(&["unreached", "far", "near", "both", "unreached2", "near2", "nearest"]);
    prioritize_tests_by_distance(&mut tests, mutations);
    assert_eq!(names(&tests), vec!["nearest", "both", "near", "near2", "far", "unreached", "unreached2"]);
    let mut tests = entries(&["b", "a"]);
    prioritize_tests_by_distance(&mut tests, meta(vec![]));
    assert_eq!(names(&tests), vec!["b", "a"]);
}

#[test]
fn tests_of_different_mutations_alternate() {
    let mutations = meta(vec![
        mutation(1, MutationSafety::Safe, "op", &[("a1", 0), ("a2", 0), ("a3", 0), ("ab", 0)]),
        mutation(2, MutationSafety::Safe, "op", &[("b1", 0), ("ab", 0)]),
        mutation(3, MutationSafety::Safe, "op", &[]),
        mutation(4, MutationSafety::Safe, "op", &[("c1", 0), ("c2", 0)]),
    ]);
    let mut tests = entries(&["a1", "a2", "ab", "a3", "b1", "c1", "c2"]);
    maximize_mutation_parallelism(&mut tests, mutations);
    assert_eq!(names(&tests), vec!["a1", "ab", "c1", "a2", "b1", "c2", "a3"]);
    let mut none: Vec<TestEntry<usize>> = vec![];
    maximize_mutation_parallelism(&mut none, mutations);
    assert!(none.is_empty());
    maximize_mutation_parallelism(&mut none, meta(vec![]));
    assert!(none.is_empty());
}

fn leaked(mutations: Vec<&'static MutationMeta>) -> &'static MutantMeta<()> {
    Box::leak(Box::new(mutant(mutations)))
}

#[test]
fn a_mutant_holds_its_mutations() {
    let both = mutant(vec![mutation(3, MutationSafety::Safe, "swap", &[]), mutation(5, MutationSafety::Safe, "swap", &[])]);
    assert!(mutant_holds(&both, 3));
    assert!(mutant_holds(&both, 5));
    assert!(!mutant_holds(&both, 4));
    assert!(!mutant_holds(&mutant(vec![]), 3));
}

#[test]
fn a_mutation_on_its_own_is_simulated_in_its_mutant() {
    let mutants = vec![
        leaked(vec![mutation(1, MutationSafety::Safe, "swap", &[])]),
        leaked(vec![mutation(2, MutationSafety::Safe, "swap", &[]), mutation(3, MutationSafety::Safe, "swap", &[])]),
        leaked(vec![mutation(4, MutationSafety::Unsafe, "swap", &[])]),
    ];
    assert_eq!(simulated_mutant(&mutants, 1), Ok(0));
    assert_eq!(simulated_mutant(&mutants, 4), Ok(2));
}

#[test]
fn a_batched_mutation_cannot_be_simulated() {
    let mutants = vec![
        leaked(vec![mutation(1, MutationSafety::Safe, "swap", &[])]),
        leaked(vec![mutation(2, MutationSafety::Safe, "swap", &[]), mutation(3, MutationSafety::Safe, "swap", &[])]),
    ];
    assert_eq!(simulated_mutant(&mutants, 2), Err(SimulationError::BatchedMutation));
    assert_eq!(simulated_mutant(&mutants, 3), Err(SimulationError::BatchedMutation));
}

#[test]
fn an_unknown_mutation_cannot_be_simulated() {
    let mutants = vec![leaked(vec![mutation(1, MutationSafety::Safe, "swap", &[])]), leaked(vec![])];
    assert_eq!(simulated_mutant(&mutants, 7), Err(SimulationError::UnknownMutation));
    assert_eq!(simulated_mutant::<()>(&[], 1), Err(SimulationError::UnknownMutation));
}

#[test]
fn the_first_mutant_with_the_mutation_counts() {
    let mutants = vec![
        leaked(vec![mutation(1, MutationSafety::Safe, "swap", &[]), mutation(2, MutationSafety::Safe, "swap", &[])]),
        leaked(vec![mutation(1, MutationSafety::Safe, "swap", &[])]),
    ];
    assert_eq!(simulated_mutant(&mutants, 1), Err(SimulationError::BatchedMutation));
}

#[test]
fn a_simulation_counts_failed_and_ignored_tests() {
    let mut tally = SimulationTally::new(5);
    assert_eq!(tally, SimulationTally { total: 5, failed: 0, ignored: 0 });
    assert!(tally.succeeded());
    assert_eq!(tally.passed(), 5);
    tally.record(&TestResult::Passed);
    tally.record(&TestResult::Ignored);
    assert!(tally.succeeded());
    tally.record(&TestResult::Failed);
    tally.record(&TestResult::FailedMsg("wrong".to_string()));
    tally.record(&TestResult::CrashedMsg("gone".to_string()));
    assert_eq!(tally, SimulationTally { total: 5, failed: 3, ignored: 1 });
    assert!(!tally.succeeded());
    // Tests that were left out count among those that did not fail.
    assert_eq!(tally.passed(), 2);
}

#[test]
fn a_mutation_that_no_test_reaches() {
    let meta = MutationMeta::reached_by_none(7, MutationSafety::Tainted, "swap", "swap + for -", "src/lib.rs:3:5", "warning");
    assert_eq!(meta.id, 7);
    assert_eq!(meta.safety, MutationSafety::Tainted);
    assert_eq!(meta.op_name, "swap");
    assert_eq!(meta.display_name, "swap + for -");
    assert_eq!(meta.display_location, "src/lib.rs:3:5");
    assert_eq!(meta.undetected_diagnostic, "warning");
    assert!(!meta.is_reached_by("tests::a"));
    assert_eq!(meta.distance_from(""), None);
    let alone = MutantMeta { id: 1, mutations: Box::leak(vec![&*Box::leak(Box::new(meta))].into_boxed_slice()), substitutions: () };
    assert_eq!(alone.first_reached_by("tests::a"), None);
    assert_eq!(select_tests(entries(&["tests::a", "tests::b"]), &alone).len(), 0);
}
