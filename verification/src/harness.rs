//! The decisions of the harness that runs the tests against the mutants:
//! which tests to run and in what order, what a test's result says of a
//! mutation, when to stop, and how the results add up.
//!
//! Running the tests is left to the caller, who hands each result in.

use vstd::prelude::*;
use vstd::multiset::Multiset;
use std::collections::HashMap;
use crate::assoc::lemma_lookup_none;
use crate::assoc::lemma_lookup_push;
use crate::assoc::lemma_lookup_some;
use crate::assoc::lemma_lookup_update;
use crate::assoc::lookup;
use crate::metadata::all_wf;
use crate::metadata::distances;
use crate::metadata::MutantMeta;
use crate::metadata::MutationMeta;
use crate::metadata::MutationSafety;
use crate::order::rank;
use crate::order::sort_by_keys;
use crate::order::sorted_by_key;

verus! {

broadcast use vstd::std_specs::hash::group_hash_axioms;

/// What the tests found of a mutation.
#[derive(Clone, Copy, Debug, PartialEq, Eq, Hash, Structural)]
pub enum MutationTestResult {
    Undetected,
    Detected,
    TimedOut,
    Crashed,
}

impl Default for MutationTestResult {
    fn default() -> (result: Self)
        ensures
            result == MutationTestResult::Undetected,
    {
        MutationTestResult::Undetected
    }
}

/// How a test ended.
#[derive(Debug, PartialEq, Eq)]
pub enum TestResult {
    Ignored,
    Passed,
    Failed,
    FailedMsg(String),
    CrashedMsg(String),
    TimedOut,
}

/// Whether the tests go on.
#[derive(Clone, Copy, Debug, PartialEq, Eq, Structural)]
pub enum Flow {
    Continue,
    Stop,
}

/// What the result of one test says of a mutation that the test reaches: a
/// test that passes or is ignored has not detected it; a test that fails
/// has; a test that crashes or runs out of time says so.
pub open spec fn spec_verdict(result: TestResult) -> MutationTestResult {
    match result {
        TestResult::Ignored | TestResult::Passed => MutationTestResult::Undetected,
        TestResult::Failed | TestResult::FailedMsg(_) => MutationTestResult::Detected,
        TestResult::CrashedMsg(_) => MutationTestResult::Crashed,
        TestResult::TimedOut => MutationTestResult::TimedOut,
    }
}

/// What the result of one test says of a mutation that the test reaches.
pub fn verdict(result: &TestResult) -> (found: MutationTestResult)
    ensures
        found == spec_verdict(*result),
{
    match result {
        TestResult::Ignored | TestResult::Passed => MutationTestResult::Undetected,
        TestResult::Failed | TestResult::FailedMsg(_) => MutationTestResult::Detected,
        TestResult::CrashedMsg(_) => MutationTestResult::Crashed,
        TestResult::TimedOut => MutationTestResult::TimedOut,
    }
}

/// The finding for a mutation after one more test: a test that has not
/// detected the mutation changes nothing; a test that fails settles that
/// the mutation is detected; a crash or a timeout counts unless a test has
/// detected the mutation before.
pub open spec fn spec_combined(so_far: MutationTestResult, found: MutationTestResult) -> MutationTestResult {
    match found {
        MutationTestResult::Undetected => so_far,
        MutationTestResult::Detected => MutationTestResult::Detected,
        _ => if so_far == MutationTestResult::Detected {
            so_far
        } else {
            found
        },
    }
}

/// The finding for a mutation after one more test.
pub fn combined(so_far: MutationTestResult, found: MutationTestResult) -> (result: MutationTestResult)
    ensures
        result == spec_combined(so_far, found),
{
    match found {
        MutationTestResult::Undetected => so_far,
        MutationTestResult::Detected => MutationTestResult::Detected,
        _ => if matches!(so_far, MutationTestResult::Detected) {
            so_far
        } else {
            found
        },
    }
}

/// Once a mutation is detected, no further result changes that.
pub proof fn lemma_detected_stays(found: MutationTestResult)
    ensures
        spec_combined(MutationTestResult::Detected, found) == MutationTestResult::Detected,
{
}

/// The results of the tests for one mutation: the finding, and what each
/// test found, by the name of the test. No name occurs twice.
pub struct MutationTestResults {
    pub result: MutationTestResult,
    pub results_per_test: Vec<(String, Option<MutationTestResult>)>,
}

impl MutationTestResults {
    /// No result yet.
    pub fn new() -> (results: Self)
        ensures
            results.result == MutationTestResult::Undetected,
            results.results_per_test@.len() == 0,
    {
        MutationTestResults { result: MutationTestResult::Undetected, results_per_test: Vec::new() }
    }

    /// What the test with the name found, where it was run.
    pub open spec fn spec_result_of(&self, test: Seq<char>) -> Option<Option<MutationTestResult>> {
        lookup(self.results_per_test@, test, 0)
    }

    /// What the test with the name found, where it was run.
    pub fn result_of(&self, test: &str) -> (found: Option<Option<MutationTestResult>>)
        ensures
            found == self.spec_result_of(test@),
    {
        let name = String::from_str(test);
        let mut i: usize = 0;
        while i < self.results_per_test.len()
            invariant
                0 <= i <= self.results_per_test.len(),
                name@ == test@,
                lookup(self.results_per_test@, test@, 0) == lookup(
                    self.results_per_test@,
                    test@,
                    i as int,
                ),
            decreases self.results_per_test.len() - i,
        {
            if self.results_per_test[i].0 == name {
                return Some(self.results_per_test[i].1);
            }
            i += 1;
        }
        None
    }

    /// Notes what the test with the name found: in place of what was noted
    /// of the test before, or as a new entry at the end.
    pub fn insert(&mut self, test: &str, found: Option<MutationTestResult>)
        ensures
            final(self).result == old(self).result,
            final(self).spec_result_of(test@) == Some(found),
            forall|other: Seq<char>|
                other != test@ ==> #[trigger] final(self).spec_result_of(other) == old(
                    self,
                ).spec_result_of(other),
            final(self).results_per_test@.len() == old(self).results_per_test@.len() + (if old(
                self,
            ).spec_result_of(test@) is Some {
                0int
            } else {
                1int
            }),
    {
        let name = String::from_str(test);
        let ghost before = self.results_per_test@;
        let mut i: usize = 0;
        while i < self.results_per_test.len()
            invariant
                0 <= i <= self.results_per_test.len(),
                name@ == test@,
                self.results_per_test@ == before,
                before == old(self).results_per_test@,
                self.result == old(self).result,
                forall|k: int| 0 <= k < i ==> (#[trigger] before[k]).0@ != test@,
            decreases self.results_per_test.len() - i,
        {
            if self.results_per_test[i].0 == name {
                self.results_per_test[i].1 = found;
                proof {
                    let after = self.results_per_test@;
                    assert(after.len() == before.len());
                    assert(after[i as int].0 == before[i as int].0);
                    assert(after[i as int].1 == found);
                    assert forall|k: int| 0 <= k < before.len() && k != i implies #[trigger] after[k]
                        == before[k] by {}
                    lemma_lookup_update(before, after, i as int, found, test@, 0);
                    assert forall|other: Seq<char>| other != test@ implies #[trigger] self.spec_result_of(
                        other,
                    ) == old(self).spec_result_of(other) by {
                        lemma_lookup_update(before, after, i as int, found, other, 0);
                    }
                    lemma_lookup_some(before, test@, 0, i as int);
                    assert(old(self).spec_result_of(test@) is Some);
                }
                return ;
            }
            i += 1;
        }
        self.results_per_test.push((name, found));
        proof {
            let after = self.results_per_test@;
            lemma_lookup_push(before, after, name, found, test@, 0);
            assert forall|other: Seq<char>| other != test@ implies #[trigger] self.spec_result_of(
                other,
            ) == old(self).spec_result_of(other) by {
                lemma_lookup_push(before, after, name, found, other, 0);
            }
            lemma_lookup_none(before, test@, 0);
        }
    }
}


/// A test with its name.
pub struct TestEntry<T> {
    pub name: String,
    pub test: T,
}

/// The mutant has the number among the numbers of its mutations.
pub open spec fn has_mutation<S>(mutant: MutantMeta<S>, id: u32) -> bool {
    exists|i: int| 0 <= i < mutant.mutations@.len() && (#[trigger] mutant.mutations@[i]).id == id
}

/// The results hold a place for every mutation of the mutant, by its
/// number.
pub open spec fn run_covers<S>(results: Map<u32, MutationTestResults>, mutant: MutantMeta<S>) -> bool {
    forall|i: int|
        0 <= i < mutant.mutations@.len() ==> results.contains_key((#[trigger] mutant.mutations@[i]).id)
}

/// The results before any test has run: for every mutation of the mutant,
/// by its number, that nothing has detected it.
pub fn start_run<S>(mutant: &MutantMeta<S>) -> (results: HashMap<u32, MutationTestResults>)
    ensures
        forall|id: u32| #[trigger] results@.contains_key(id) <==> has_mutation(*mutant, id),
        forall|id: u32| #[trigger]
            results@.contains_key(id) ==> results@[id].result == MutationTestResult::Undetected
                && results@[id].results_per_test@.len() == 0,
{
    let mut results: HashMap<u32, MutationTestResults> = HashMap::new();
    let mut i: usize = 0;
    while i < mutant.mutations.len()
        invariant
            0 <= i <= mutant.mutations.len(),
            forall|id: u32| #[trigger]
                results@.contains_key(id) <==> exists|k: int|
                    0 <= k < i && (#[trigger] mutant.mutations@[k]).id == id,
            forall|id: u32| #[trigger]
                results@.contains_key(id) ==> results@[id].result == MutationTestResult::Undetected
                    && results@[id].results_per_test@.len() == 0,
        decreases mutant.mutations.len() - i,
    {
        let ghost before = results@;
        results.insert(mutant.mutations[i].id, MutationTestResults::new());
        proof {
            assert forall|id: u32| #[trigger]
                results@.contains_key(id) <==> exists|k: int|
                    0 <= k < i + 1 && (#[trigger] mutant.mutations@[k]).id == id by {
                if results@.contains_key(id) {
                    if before.contains_key(id) {
                        let k = choose|k: int| 0 <= k < i && (#[trigger] mutant.mutations@[k]).id == id;
                        assert(mutant.mutations@[k].id == id);
                    } else {
                        assert(mutant.mutations@[i as int].id == id);
                    }
                }
            }
        }
        i += 1;
    }
    results
}

/// The tests that reach some mutation of the mutant, in the order of the
/// list.
pub fn select_tests<S, T>(tests: Vec<TestEntry<T>>, mutant: &MutantMeta<S>) -> (selected: Vec<
    TestEntry<T>,
>)
    requires
        mutant.wf(),
    ensures
        selected@ == tests@.filter(|t: TestEntry<T>| mutant.reached_by(t.name@)),
{
    let ghost keep = |t: TestEntry<T>| mutant.reached_by(t.name@);
    let ghost all = tests@;
    let mut selected: Vec<TestEntry<T>> = Vec::new();
    proof {
        assert(all.take(0).filter(keep) =~= Seq::empty()) by {
            reveal(Seq::filter);
        }
    }
    for test in it: tests
        invariant
            mutant.wf(),
            it.seq() == all,
            keep == |t: TestEntry<T>| mutant.reached_by(t.name@),
            selected@ == all.take(it.index() as int).filter(keep),
    {
        proof {
            crate::text::lemma_filter_next(all, keep, it.index() as int);
        }
        if mutant.first_reached_by(test.name.as_str()).is_some() {
            selected.push(test);
        }
    }
    assert(all.take(all.len() as int) =~= all);
    selected
}

/// The tests of the list that do not reach the mutation, in the order of
/// the list.
fn without_tests_of<T>(tests: &mut Vec<TestEntry<T>>, mutation: &MutationMeta)
    requires
        mutation.wf(),
    ensures
        final(tests)@ == old(tests)@.filter(|t: TestEntry<T>| !mutation.reached_by(t.name@)),
{
    let ghost keep = |t: TestEntry<T>| !mutation.reached_by(t.name@);
    let mut all: Vec<TestEntry<T>> = Vec::new();
    std::mem::swap(tests, &mut all);
    let ghost given = all@;
    proof {
        assert(given.take(0).filter(keep) =~= Seq::empty()) by {
            reveal(Seq::filter);
        }
    }
    for test in it: all
        invariant
            mutation.wf(),
            it.seq() == given,
            keep == |t: TestEntry<T>| !mutation.reached_by(t.name@),
            tests@ == given.take(it.index() as int).filter(keep),
    {
        proof {
            crate::text::lemma_filter_next(given, keep, it.index() as int);
        }
        if !mutation.is_reached_by(test.name.as_str()) {
            tests.push(test);
        }
    }
    assert(given.take(given.len() as int) =~= given);
}

/// Every mutation of the mutant has a finding other than that nothing has
/// detected it.
pub open spec fn all_found<S>(results: Map<u32, MutationTestResults>, mutant: MutantMeta<S>) -> bool {
    forall|i: int|
        0 <= i < mutant.mutations@.len() ==> results[(#[trigger] mutant.mutations@[i]).id].result
            != MutationTestResult::Undetected
}

fn is_all_found<S>(results: &HashMap<u32, MutationTestResults>, mutant: &MutantMeta<S>) -> (r: bool)
    requires
        run_covers(results@, *mutant),
    ensures
        r == all_found(results@, *mutant),
{
    let mut i: usize = 0;
    while i < mutant.mutations.len()
        invariant
            0 <= i <= mutant.mutations.len(),
            run_covers(results@, *mutant),
            forall|k: int|
                0 <= k < i ==> results@[(#[trigger] mutant.mutations@[k]).id].result
                    != MutationTestResult::Undetected,
        decreases mutant.mutations.len() - i,
    {
        let id = mutant.mutations[i].id;
        assert(results@.contains_key(mutant.mutations@[i as int].id));
        match results.get(&id) {
            Some(slot) => {
                if matches!(slot.result, MutationTestResult::Undetected) {
                    return false;
                }
            },
            None => {},
        }
        i += 1;
    }
    true
}

/// Takes in the result of one test of a run against a mutant.
///
/// The result counts for the first mutation of the mutant that the test
/// reaches: it is noted under the name of the test, and the finding for the
/// mutation is brought up to date. Where the test detected the mutation in
/// some way and the run is not exhaustive, the tests that reach the
/// mutation leave the tests that remain, and the run stops once every
/// mutation has a finding.
pub fn record_test_result<S, T>(
    results: &mut HashMap<u32, MutationTestResults>,
    mutant: &MutantMeta<S>,
    test: &str,
    result: &TestResult,
    exhaustive: bool,
    remaining_tests: &mut Vec<TestEntry<T>>,
) -> (flow: Flow)
    requires
        mutant.wf(),
        mutant.reached_by(test@),
        run_covers(old(results)@, *mutant),
    ensures
        run_covers(final(results)@, *mutant),
        final(results)@.dom() == old(results)@.dom(),
        ({
            let mutation = mutant.mutations@[mutant.spec_first_reached_by(test@)->0];
            let found = spec_verdict(*result);
            let narrows = !exhaustive && found != MutationTestResult::Undetected;
            &&& forall|id: u32|
                id != mutation.id && old(results)@.contains_key(id) ==> #[trigger] final(results)@[id]
                    == old(results)@[id]
            &&& final(results)@[mutation.id].result == spec_combined(
                old(results)@[mutation.id].result,
                found,
            )
            &&& final(results)@[mutation.id].spec_result_of(test@) == Some(Some(found))
            &&& forall|other: Seq<char>|
                other != test@ ==> #[trigger] final(results)@[mutation.id].spec_result_of(other) == old(
                    results,
                )@[mutation.id].spec_result_of(other)
            &&& final(remaining_tests)@ == (if narrows {
                old(remaining_tests)@.filter(|t: TestEntry<T>| !mutation.reached_by(t.name@))
            } else {
                old(remaining_tests)@
            })
            &&& flow == Flow::Stop <==> narrows && all_found(final(results)@, *mutant)
        }),
{
    let index = mutant.first_reached_by(test).unwrap();
    let mutation = mutant.mutations[index];
    let found = verdict(result);
    assert(old(results)@.contains_key(mutant.mutations@[index as int].id));
    let mut slot = results.remove(&mutation.id).unwrap();
    let ghost taken = slot;
    slot.insert(test, Some(found));
    let ghost noted = slot;
    slot.result = combined(slot.result, found);
    let ghost slot_view = slot;
    proof {
        assert(taken == old(results)@[mutation.id]);
        assert(slot_view.results_per_test == noted.results_per_test);
        assert forall|other: Seq<char>| other != test@ implies #[trigger] slot_view.spec_result_of(other)
            == taken.spec_result_of(other) by {
            assert(noted.spec_result_of(other) == taken.spec_result_of(other));
        }
    }
    results.insert(mutation.id, slot);
    proof {
        assert(mutation == mutant.mutations@[mutant.spec_first_reached_by(test@)->0]);
        assert(results@[mutation.id] == slot_view);
        assert(slot_view.result == spec_combined(old(results)@[mutation.id].result, found));
        assert(slot_view.spec_result_of(test@) == Some(Some(found)));
        assert forall|id: u32| id != mutation.id && old(results)@.contains_key(id) implies #[trigger] results@[id]
            == old(results)@[id] by {}
        assert forall|other: Seq<char>| other != test@ implies #[trigger] results@[mutation.id].spec_result_of(
            other,
        ) == old(results)@[mutation.id].spec_result_of(other) by {}
        assert(results@.dom() =~= old(results)@.dom());
        assert forall|i: int| 0 <= i < mutant.mutations@.len() implies results@.contains_key(
            (#[trigger] mutant.mutations@[i]).id,
        ) by {
            assert(old(results)@.contains_key(mutant.mutations@[i].id));
        }
    }
    if matches!(found, MutationTestResult::Undetected) {
        return Flow::Continue;
    }
    // By default, the tests for a mutation are only run until one of them detects the
    // mutation, and the run ends early once all mutations are detected.
    if !exhaustive {
        without_tests_of(remaining_tests, mutation);
        if is_all_found(results, mutant) {
            return Flow::Stop;
        }
    }
    Flow::Continue
}

/// The counts for the mutations of one operator.
#[derive(Clone, Copy, Debug, PartialEq, Eq, Structural)]
pub struct MutationOpStats {
    pub total_mutations_count: usize,
    pub undetected_mutations_count: usize,
    pub timed_out_mutations_count: usize,
    pub crashed_mutations_count: usize,
}

impl Default for MutationOpStats {
    fn default() -> (stats: Self)
        ensures
            stats == MutationOpStats::spec_zero(),
    {
        MutationOpStats {
            total_mutations_count: 0,
            undetected_mutations_count: 0,
            timed_out_mutations_count: 0,
            crashed_mutations_count: 0,
        }
    }
}

impl MutationOpStats {
    pub open spec fn spec_zero() -> MutationOpStats {
        MutationOpStats {
            total_mutations_count: 0,
            undetected_mutations_count: 0,
            timed_out_mutations_count: 0,
            crashed_mutations_count: 0,
        }
    }

    /// No count is above the total.
    pub open spec fn wf(self) -> bool {
        &&& self.undetected_mutations_count <= self.total_mutations_count
        &&& self.timed_out_mutations_count <= self.total_mutations_count
        &&& self.crashed_mutations_count <= self.total_mutations_count
    }

    /// The counts with one more mutation of the finding.
    pub open spec fn with(self, result: MutationTestResult) -> MutationOpStats {
        MutationOpStats {
            total_mutations_count: (self.total_mutations_count + 1) as usize,
            undetected_mutations_count: (self.undetected_mutations_count + (if result
                == MutationTestResult::Undetected {
                1int
            } else {
                0int
            })) as usize,
            timed_out_mutations_count: (self.timed_out_mutations_count + (if result
                == MutationTestResult::TimedOut {
                1int
            } else {
                0int
            })) as usize,
            crashed_mutations_count: (self.crashed_mutations_count + (if result
                == MutationTestResult::Crashed {
                1int
            } else {
                0int
            })) as usize,
        }
    }

    /// The counts with one more mutation of the finding.
    pub fn count(self, result: MutationTestResult) -> (stats: MutationOpStats)
        requires
            self.wf(),
            self.total_mutations_count < usize::MAX,
        ensures
            stats == self.with(result),
            stats.wf(),
    {
        let mut stats = self;
        stats.total_mutations_count += 1;
        match result {
            MutationTestResult::Undetected => {
                stats.undetected_mutations_count += 1;
            },
            MutationTestResult::Detected => {},
            MutationTestResult::TimedOut => {
                stats.timed_out_mutations_count += 1;
            },
            MutationTestResult::Crashed => {
                stats.crashed_mutations_count += 1;
            },
        }
        stats
    }
}

/// What the analysis of all mutants found: the counts over all mutations,
/// over the safe ones among them, and for each operator by its name.
pub struct MutationAnalysisResults {
    /// No mutation went undetected.
    pub all_test_runs_failed_successfully: bool,
    pub total_mutations_count: usize,
    pub total_safe_mutations_count: usize,
    pub undetected_mutations_count: usize,
    pub undetected_safe_mutations_count: usize,
    pub timed_out_mutations_count: usize,
    pub timed_out_safe_mutations_count: usize,
    pub crashed_mutations_count: usize,
    pub crashed_safe_mutations_count: usize,
    /// No name occurs twice.
    pub mutation_op_stats: Vec<(&'static str, MutationOpStats)>,
}

impl MutationAnalysisResults {
    /// The counts over all mutations.
    pub open spec fn all(&self) -> MutationOpStats {
        MutationOpStats {
            total_mutations_count: self.total_mutations_count,
            undetected_mutations_count: self.undetected_mutations_count,
            timed_out_mutations_count: self.timed_out_mutations_count,
            crashed_mutations_count: self.crashed_mutations_count,
        }
    }

    /// The counts over the safe mutations.
    pub open spec fn safe(&self) -> MutationOpStats {
        MutationOpStats {
            total_mutations_count: self.total_safe_mutations_count,
            undetected_mutations_count: self.undetected_safe_mutations_count,
            timed_out_mutations_count: self.timed_out_safe_mutations_count,
            crashed_mutations_count: self.crashed_safe_mutations_count,
        }
    }

    /// The counts for the operator with the name.
    pub open spec fn op_stats(&self, op_name: Seq<char>) -> Option<MutationOpStats> {
        lookup(self.mutation_op_stats@, op_name, 0)
    }

    /// No count is above the number of all mutations, and no name occurs
    /// twice among the operators.
    pub open spec fn wf(&self) -> bool {
        &&& self.all().wf()
        &&& self.safe().wf()
        &&& self.total_safe_mutations_count <= self.total_mutations_count
        &&& forall|i: int|
            0 <= i < self.mutation_op_stats@.len() ==> {
                &&& (#[trigger] self.mutation_op_stats@[i]).1.wf()
                &&& self.mutation_op_stats@[i].1.total_mutations_count <= self.total_mutations_count
            }
        &&& forall|i: int, j: int|
            0 <= i < j < self.mutation_op_stats@.len() ==> (#[trigger] self.mutation_op_stats@[i]).0@
                != (#[trigger] self.mutation_op_stats@[j]).0@
    }

    /// The results before any mutation is counted.
    pub fn new() -> (results: Self)
        ensures
            results.wf(),
            results.all_test_runs_failed_successfully,
            results.all() == MutationOpStats::spec_zero(),
            results.safe() == MutationOpStats::spec_zero(),
            results.mutation_op_stats@.len() == 0,
    {
        MutationAnalysisResults {
            all_test_runs_failed_successfully: true,
            total_mutations_count: 0,
            total_safe_mutations_count: 0,
            undetected_mutations_count: 0,
            undetected_safe_mutations_count: 0,
            timed_out_mutations_count: 0,
            timed_out_safe_mutations_count: 0,
            crashed_mutations_count: 0,
            crashed_safe_mutations_count: 0,
            mutation_op_stats: Vec::new(),
        }
    }

    /// Counts one mutation with its finding: among all mutations, among the
    /// safe ones if it is safe, and for its operator. A mutation that went
    /// undetected means that the tests did not all do their work.
    pub fn record(&mut self, mutation: &MutationMeta, result: MutationTestResult)
        requires
            old(self).wf(),
            old(self).total_mutations_count < usize::MAX,
        ensures
            final(self).wf(),
            final(self).all() == old(self).all().with(result),
            final(self).safe() == (if mutation.safety == MutationSafety::Safe {
                old(self).safe().with(result)
            } else {
                old(self).safe()
            }),
            final(self).all_test_runs_failed_successfully == (old(
                self,
            ).all_test_runs_failed_successfully && result != MutationTestResult::Undetected),
            final(self).op_stats(mutation.op_name@) == Some(
                (match old(self).op_stats(mutation.op_name@) {
                    Some(stats) => stats,
                    None => MutationOpStats::spec_zero(),
                }).with(result),
            ),
            forall|other: Seq<char>|
                other != mutation.op_name@ ==> #[trigger] final(self).op_stats(other) == old(
                    self,
                ).op_stats(other),
    {
        let ghost before = self.mutation_op_stats@;
        let all = MutationOpStats {
            total_mutations_count: self.total_mutations_count,
            undetected_mutations_count: self.undetected_mutations_count,
            timed_out_mutations_count: self.timed_out_mutations_count,
            crashed_mutations_count: self.crashed_mutations_count,
        }.count(result);
        self.total_mutations_count = all.total_mutations_count;
        self.undetected_mutations_count = all.undetected_mutations_count;
        self.timed_out_mutations_count = all.timed_out_mutations_count;
        self.crashed_mutations_count = all.crashed_mutations_count;
        if matches!(mutation.safety, MutationSafety::Safe) {
            let safe = MutationOpStats {
                total_mutations_count: self.total_safe_mutations_count,
                undetected_mutations_count: self.undetected_safe_mutations_count,
                timed_out_mutations_count: self.timed_out_safe_mutations_count,
                crashed_mutations_count: self.crashed_safe_mutations_count,
            }.count(result);
            self.total_safe_mutations_count = safe.total_mutations_count;
            self.undetected_safe_mutations_count = safe.undetected_mutations_count;
            self.timed_out_safe_mutations_count = safe.timed_out_mutations_count;
            self.crashed_safe_mutations_count = safe.crashed_mutations_count;
        }
        if matches!(result, MutationTestResult::Undetected) {
            self.all_test_runs_failed_successfully = false;
        }
        match position_of(&self.mutation_op_stats, mutation.op_name) {
            Some(i) => {
                let stats = self.mutation_op_stats[i].1.count(result);
                self.mutation_op_stats[i].1 = stats;
                proof {
                    let after = self.mutation_op_stats@;
                    assert(after[i as int].0 == before[i as int].0);
                    assert forall|k: int| 0 <= k < before.len() && k != i implies #[trigger] after[k]
                        == before[k] by {}
                    lemma_lookup_update(before, after, i as int, stats, mutation.op_name@, 0);
                    lemma_lookup_update(
                        before,
                        before,
                        i as int,
                        before[i as int].1,
                        mutation.op_name@,
                        0,
                    );
                    assert forall|other: Seq<char>| other != mutation.op_name@ implies #[trigger] self.op_stats(
                        other,
                    ) == old(self).op_stats(other) by {
                        lemma_lookup_update(before, after, i as int, stats, other, 0);
                    }
                    assert forall|a: int, b: int| 0 <= a < b < after.len() implies (
                    #[trigger] after[a]).0@ != (#[trigger] after[b]).0@ by {
                        assert(after[a].0 == before[a].0);
                        assert(after[b].0 == before[b].0);
                        assert(before[a].0@ != before[b].0@);
                    }
                    assert forall|k: int| 0 <= k < after.len() implies {
                        &&& (#[trigger] after[k]).1.wf()
                        &&& after[k].1.total_mutations_count <= self.total_mutations_count
                    } by {
                        if k != i {
                            assert(after[k] == before[k]);
                        }
                    }
                }
            },
            None => {
                let stats = MutationOpStats::default().count(result);
                self.mutation_op_stats.push((mutation.op_name, stats));
                proof {
                    let after = self.mutation_op_stats@;
                    lemma_lookup_push(before, after, mutation.op_name, stats, mutation.op_name@, 0);
                    lemma_lookup_none(before, mutation.op_name@, 0);
                    assert forall|other: Seq<char>| other != mutation.op_name@ implies #[trigger] self.op_stats(
                        other,
                    ) == old(self).op_stats(other) by {
                        lemma_lookup_push(before, after, mutation.op_name, stats, other, 0);
                    }
                    assert forall|a: int, b: int| 0 <= a < b < after.len() implies (
                    #[trigger] after[a]).0@ != (#[trigger] after[b]).0@ by {
                        assert(after[a] == before[a]);
                        if b < before.len() {
                            assert(after[b] == before[b]);
                        }
                    }
                    assert forall|k: int| 0 <= k < after.len() implies {
                        &&& (#[trigger] after[k]).1.wf()
                        &&& after[k].1.total_mutations_count <= self.total_mutations_count
                    } by {
                        if k < before.len() {
                            assert(after[k] == before[k]);
                        }
                    }
                }
            },
        }
    }
}

/// The position of the first pair with the name.
fn position_of(entries: &Vec<(&'static str, MutationOpStats)>, name: &str) -> (found: Option<usize>)
    ensures
        found matches Some(i) ==> i < entries@.len() && entries@[i as int].0@ == name@ && forall|
            k: int,
        |
            0 <= k < i ==> (#[trigger] entries@[k]).0@ != name@,
        found is None ==> forall|k: int| 0 <= k < entries@.len() ==> (#[trigger] entries@[k]).0@ != name@,
{
    let wanted = String::from_str(name);
    let mut i: usize = 0;
    while i < entries.len()
        invariant
            0 <= i <= entries.len(),
            wanted@ == name@,
            forall|k: int| 0 <= k < i ==> (#[trigger] entries@[k]).0@ != name@,
        decreases entries.len() - i,
    {
        let other = String::from_str(entries[i].0);
        if other == wanted {
            return Some(i);
        }
        i += 1;
    }
    None
}


/// A test with what the reference run without mutations found: how it
/// ended, and how long it took in nanoseconds, where that was measured.
pub struct ProfiledTest<T> {
    pub test: T,
    pub result: TestResult,
    pub exec_time: Option<u128>,
}

/// Sorts the tests by the time they took, shortest first, tests without a
/// time last, and tests of equal time in the order of the list.
pub fn sort_profiled_tests_by_exec_time<T>(profiled_tests: &mut Vec<ProfiledTest<T>>)
    ensures
        final(profiled_tests)@ == sorted_by_key(
            old(profiled_tests)@,
            |t: ProfiledTest<T>| rank(t.exec_time),
        ),
        final(profiled_tests)@.to_multiset() == old(profiled_tests)@.to_multiset(),
{
    let mut given: Vec<ProfiledTest<T>> = Vec::new();
    std::mem::swap(profiled_tests, &mut given);
    let mut keys: Vec<Option<u128>> = Vec::new();
    let mut i: usize = 0;
    while i < given.len()
        invariant
            0 <= i <= given.len(),
            keys@.len() == i,
            forall|k: int| 0 <= k < i ==> #[trigger] keys@[k] == given@[k].exec_time,
        decreases given.len() - i,
    {
        keys.push(given[i].exec_time);
        i += 1;
    }
    let sorted = sort_by_keys(given, &keys, Ghost(|t: ProfiledTest<T>| rank(t.exec_time)));
    *profiled_tests = sorted;
}

/// The shortest call distance from the test with the path to any of the
/// first `upto` mutations; nothing where the test reaches none of them.
pub open spec fn least_distance(mutations: Seq<&'static MutationMeta>, test: Seq<char>, upto: int) -> Option<
    usize,
>
    decreases upto,
{
    if upto <= 0 {
        None
    } else {
        let before = least_distance(mutations, test, upto - 1);
        if mutations[upto - 1].reached_by(test) {
            let distance = distances(mutations[upto - 1].reachable_from)[test];
            match before {
                Some(least) => if distance < least {
                    Some(distance)
                } else {
                    before
                },
                None => Some(distance),
            }
        } else {
            before
        }
    }
}

/// The key by which tests are ordered by distance.
pub open spec fn distance_key(distance: Option<usize>) -> Option<u128> {
    match distance {
        Some(distance) => Some(distance as u128),
        None => None,
    }
}

fn least_distance_of(mutations: &'static [&'static MutationMeta], test: &str) -> (least: Option<usize>)
    requires
        all_wf(mutations@),
    ensures
        least == least_distance(mutations@, test@, mutations@.len() as int),
{
    let mut least: Option<usize> = None;
    let mut i: usize = 0;
    while i < mutations.len()
        invariant
            all_wf(mutations@),
            0 <= i <= mutations.len(),
            least == least_distance(mutations@, test@, i as int),
        decreases mutations.len() - i,
    {
        match mutations[i].distance_from(test) {
            Some(distance) => {
                least = match least {
                    Some(so_far) => if distance < so_far {
                        Some(distance)
                    } else {
                        least
                    },
                    None => Some(distance),
                };
            },
            None => {},
        }
        i += 1;
    }
    least
}

/// Sorts the tests by their shortest call distance to any of the
/// mutations, nearest first, tests that reach none of them last, and tests
/// of equal distance in the order of the list.
pub fn prioritize_tests_by_distance<T>(
    tests: &mut Vec<TestEntry<T>>,
    mutations: &'static [&'static MutationMeta],
)
    requires
        all_wf(mutations@),
    ensures
        final(tests)@ == sorted_by_key(
            old(tests)@,
            |t: TestEntry<T>|
                rank(distance_key(least_distance(mutations@, t.name@, mutations@.len() as int))),
        ),
        final(tests)@.to_multiset() == old(tests)@.to_multiset(),
{
    let mut given: Vec<TestEntry<T>> = Vec::new();
    std::mem::swap(tests, &mut given);
    let mut keys: Vec<Option<u128>> = Vec::new();
    let mut i: usize = 0;
    while i < given.len()
        invariant
            all_wf(mutations@),
            0 <= i <= given.len(),
            keys@.len() == i,
            forall|k: int|
                0 <= k < i ==> #[trigger] keys@[k] == distance_key(
                    least_distance(mutations@, given@[k].name@, mutations@.len() as int),
                ),
        decreases given.len() - i,
    {
        let key = match least_distance_of(mutations, given[i].name.as_str()) {
            Some(distance) => Some(distance as u128),
            None => None,
        };
        keys.push(key);
        i += 1;
    }
    let sorted = sort_by_keys(
        given,
        &keys,
        Ghost(
            |t: TestEntry<T>|
                rank(distance_key(least_distance(mutations@, t.name@, mutations@.len() as int))),
        ),
    );
    *tests = sorted;
}


/// The position of the first test at or after `from` that reaches the
/// mutation.
pub open spec fn first_test_of<T>(tests: Seq<TestEntry<T>>, mutation: &MutationMeta, from: int) -> Option<
    int,
>
    decreases tests.len() - from,
{
    if from < 0 || from >= tests.len() {
        None
    } else if mutation.reached_by(tests[from].name@) {
        Some(from)
    } else {
        first_test_of(tests, mutation, from + 1)
    }
}

/// One round over the mutations from number `from` on: each mutation in
/// turn takes the first test left that reaches it, if there is one. The
/// result is the tests taken, in the order in which they were taken, and
/// the tests left.
pub open spec fn round<T>(tests: Seq<TestEntry<T>>, mutations: Seq<&'static MutationMeta>, from: int) -> (
    Seq<TestEntry<T>>,
    Seq<TestEntry<T>>,
)
    decreases mutations.len() - from,
{
    if from < 0 || from >= mutations.len() {
        (Seq::empty(), tests)
    } else {
        match first_test_of(tests, mutations[from], 0) {
            Some(i) => {
                let rest = round(tests.remove(i), mutations, from + 1);
                (seq![tests[i]] + rest.0, rest.1)
            },
            None => round(tests, mutations, from + 1),
        }
    }
}

/// The tests in the order of at most `rounds` rounds over the mutations:
/// what the first round takes, then what the second takes of the rest, and
/// so on.
pub open spec fn in_rounds<T>(
    tests: Seq<TestEntry<T>>,
    mutations: Seq<&'static MutationMeta>,
    rounds: nat,
) -> Seq<TestEntry<T>>
    decreases rounds,
{
    if rounds == 0 || tests.len() == 0 {
        Seq::empty()
    } else {
        let taken = round(tests, mutations, 0);
        taken.0 + in_rounds(taken.1, mutations, (rounds - 1) as nat)
    }
}

/// Every test reaches some mutation.
pub open spec fn all_reach<T>(tests: Seq<TestEntry<T>>, mutations: Seq<&'static MutationMeta>) -> bool {
    forall|i: int| 0 <= i < tests.len() ==> reaches_some(mutations, (#[trigger] tests[i]).name@)
}

/// The test with the path reaches some mutation.
pub open spec fn reaches_some(mutations: Seq<&'static MutationMeta>, test: Seq<char>) -> bool {
    exists|m: int| 0 <= m < mutations.len() && #[trigger] reaches(mutations, m, test)
}

/// Mutation number `m` is reached by the test with the path.
pub open spec fn reaches(mutations: Seq<&'static MutationMeta>, m: int, test: Seq<char>) -> bool {
    mutations[m].reached_by(test)
}

proof fn lemma_first_test_of<T>(tests: Seq<TestEntry<T>>, mutation: &MutationMeta, from: int)
    requires
        0 <= from,
    ensures
        match first_test_of(tests, mutation, from) {
            Some(i) => from <= i < tests.len() && mutation.reached_by(tests[i].name@),
            None => forall|k: int| from <= k < tests.len() ==> !mutation.reached_by(#[trigger] tests[k].name@),
        },
    decreases tests.len() - from,
{
    if from < tests.len() && !mutation.reached_by(tests[from].name@) {
        lemma_first_test_of(tests, mutation, from + 1);
    }
}

/// A round neither loses nor adds a test, leaves only tests that reach some
/// mutation where all did, and takes a test where a test reaches a mutation
/// of the round.
proof fn lemma_round<T>(tests: Seq<TestEntry<T>>, mutations: Seq<&'static MutationMeta>, from: int)
    requires
        0 <= from,
    ensures
        round(tests, mutations, from).0.len() + round(tests, mutations, from).1.len() == tests.len(),
        round(tests, mutations, from).0.to_multiset().add(round(tests, mutations, from).1.to_multiset())
            == tests.to_multiset(),
        all_reach(tests, mutations) ==> all_reach(round(tests, mutations, from).1, mutations),
        (exists|i: int, m: int|
            0 <= i < tests.len() && from <= m < mutations.len() && #[trigger] reaches(
                mutations,
                m,
                (#[trigger] tests[i]).name@,
            )) ==> round(tests, mutations, from).0.len() >= 1,
    decreases mutations.len() - from,
{
    broadcast use vstd::multiset::group_multiset_axioms;

    let taken = round(tests, mutations, from);
    if from >= mutations.len() {
        assert(taken.0.to_multiset() =~= Multiset::empty()) by {
            vstd::seq_lib::to_multiset_len(taken.0);
            vstd::multiset::lemma_multiset_empty_len(taken.0.to_multiset());
        }
        assert(taken.0.to_multiset().add(taken.1.to_multiset()) =~= tests.to_multiset());
    } else {
        lemma_first_test_of(tests, mutations[from], 0);
        match first_test_of(tests, mutations[from], 0) {
            Some(i) => {
                let left = tests.remove(i);
                let rest = round(left, mutations, from + 1);
                lemma_round(left, mutations, from + 1);
                vstd::seq_lib::to_multiset_remove(tests, i);
                vstd::seq_lib::to_multiset_len(tests);
                assert(tests.to_multiset().count(tests[i]) > 0) by {
                    broadcast use vstd::seq_lib::group_to_multiset_ensures;

                    assert(tests.contains(tests[i]));
                }
                assert(left.len() == tests.len() - 1);
                assert(taken.0 =~= rest.0.insert(0, tests[i]));
                assert(taken.1 == rest.1);
                vstd::seq_lib::to_multiset_insert(rest.0, 0, tests[i]);
                assert forall|v: TestEntry<T>|
                    taken.0.to_multiset().add(taken.1.to_multiset()).count(v)
                        == #[trigger] tests.to_multiset().count(v) by {
                    assert(rest.0.to_multiset().add(rest.1.to_multiset()).count(v)
                        == left.to_multiset().count(v));
                    assert(taken.0.to_multiset().count(v) == rest.0.to_multiset().insert(
                        tests[i],
                    ).count(v));
                }
                assert(taken.0.to_multiset().add(taken.1.to_multiset()) =~= tests.to_multiset());
                if all_reach(tests, mutations) {
                    assert forall|k: int| 0 <= k < left.len() implies reaches_some(
                        mutations,
                        (#[trigger] left[k]).name@,
                    ) by {
                        let origin = if k < i { k } else { k + 1 };
                        assert(left[k] == tests[origin]);
                        assert(reaches_some(mutations, tests[origin].name@));
                    }
                    assert(all_reach(left, mutations));
                    assert(all_reach(rest.1, mutations));
                }
            },
            None => {
                lemma_round(tests, mutations, from + 1);
                if exists|i: int, m: int|
                    0 <= i < tests.len() && from <= m < mutations.len() && #[trigger] reaches(
                        mutations,
                        m,
                        (#[trigger] tests[i]).name@,
                    ) {
                    let (i, m) = choose|i: int, m: int|
                        0 <= i < tests.len() && from <= m < mutations.len() && #[trigger] reaches(
                            mutations,
                            m,
                            (#[trigger] tests[i]).name@,
                        );
                    assert(m != from);
                    assert(reaches(mutations, m, tests[i].name@));
                }
            },
        }
    }
}

/// More rounds than there are tests change nothing, where every test
/// reaches some mutation.
proof fn lemma_enough_rounds<T>(
    tests: Seq<TestEntry<T>>,
    mutations: Seq<&'static MutationMeta>,
    rounds: nat,
)
    requires
        all_reach(tests, mutations),
        rounds >= tests.len(),
    ensures
        in_rounds(tests, mutations, rounds) == in_rounds(tests, mutations, tests.len()),
        in_rounds(tests, mutations, rounds).to_multiset() == tests.to_multiset(),
    decreases rounds,
{
    broadcast use vstd::multiset::group_multiset_axioms;

    if tests.len() == 0 {
        assert(in_rounds(tests, mutations, rounds).to_multiset() =~= tests.to_multiset()) by {
            vstd::seq_lib::to_multiset_len(tests);
            vstd::seq_lib::to_multiset_len(Seq::<TestEntry<T>>::empty());
            vstd::multiset::lemma_multiset_empty_len(tests.to_multiset());
            vstd::multiset::lemma_multiset_empty_len(Seq::<TestEntry<T>>::empty().to_multiset());
        }
    } else {
        let taken = round(tests, mutations, 0);
        lemma_round(tests, mutations, 0);
        assert(reaches_some(mutations, tests[0].name@));
        let m = choose|m: int|
            0 <= m < mutations.len() && #[trigger] reaches(mutations, m, tests[0].name@);
        assert(reaches(mutations, m, tests[0].name@));
        assert(taken.0.len() >= 1);
        lemma_enough_rounds(taken.1, mutations, (rounds - 1) as nat);
        lemma_enough_rounds(taken.1, mutations, (tests.len() - 1) as nat);
        vstd::seq_lib::lemma_multiset_commutative(
            taken.0,
            in_rounds(taken.1, mutations, (rounds - 1) as nat),
        );
    }
}

fn position_of_test<T>(tests: &Vec<TestEntry<T>>, mutation: &MutationMeta) -> (found: Option<usize>)
    requires
        mutation.wf(),
    ensures
        as_position(found) == first_test_of(tests@, mutation, 0),
        found matches Some(i) ==> i < tests@.len(),
{
    let mut i: usize = 0;
    while i < tests.len()
        invariant
            mutation.wf(),
            0 <= i <= tests.len(),
            first_test_of(tests@, mutation, 0) == first_test_of(tests@, mutation, i as int),
        decreases tests.len() - i,
    {
        if mutation.is_reached_by(tests[i].name.as_str()) {
            return Some(i);
        }
        i += 1;
    }
    None
}

/// A position as a mathematical integer.
pub open spec fn as_position(position: Option<usize>) -> Option<int> {
    match position {
        Some(i) => Some(i as int),
        None => None,
    }
}

/// Orders the tests so that tests of different mutations alternate: round
/// after round, each mutation in turn takes the first test left that
/// reaches it.
///
/// Every test has to reach some mutation: a test that reaches none would
/// never be taken.
pub fn maximize_mutation_parallelism<T>(
    tests: &mut Vec<TestEntry<T>>,
    mutations: &'static [&'static MutationMeta],
)
    requires
        all_wf(mutations@),
        all_reach(old(tests)@, mutations@),
    ensures
        final(tests)@ == in_rounds(old(tests)@, mutations@, old(tests)@.len()),
        final(tests)@.to_multiset() == old(tests)@.to_multiset(),
{
    let ghost given = tests@;
    let mut parallelized_tests: Vec<TestEntry<T>> = Vec::new();
    proof {
        lemma_enough_rounds(given, mutations@, given.len());
        assert(parallelized_tests@ + in_rounds(given, mutations@, given.len()) =~= in_rounds(
            given,
            mutations@,
            given.len(),
        ));
    }
    while tests.len() > 0
        invariant
            all_wf(mutations@),
            all_reach(tests@, mutations@),
            parallelized_tests@ + in_rounds(tests@, mutations@, tests@.len()) == in_rounds(
                given,
                mutations@,
                given.len(),
            ),
        decreases tests@.len(),
    {
        let ghost start = tests@;
        let ghost done = parallelized_tests@;
        let mut m: usize = 0;
        proof {
            assert(done + Seq::<TestEntry<T>>::empty() =~= done);
        }
        while m < mutations.len()
            invariant
                all_wf(mutations@),
                0 <= m <= mutations.len(),
                round(start, mutations@, 0).1 == round(tests@, mutations@, m as int).1,
                parallelized_tests@ + round(tests@, mutations@, m as int).0 == done + round(
                    start,
                    mutations@,
                    0,
                ).0,
            decreases mutations.len() - m,
        {
            let ghost before = tests@;
            let ghost so_far = parallelized_tests@;
            match position_of_test(tests, mutations[m]) {
                Some(i) => {
                    let test = tests.remove(i);
                    parallelized_tests.push(test);
                    proof {
                        let rest = round(before.remove(i as int), mutations@, m + 1);
                        assert((so_far.push(before[i as int])) + rest.0 =~= so_far + (
                        seq![before[i as int]] + rest.0));
                    }
                },
                None => {},
            }
            m += 1;
        }
        proof {
            let taken = round(start, mutations@, 0);
            assert(parallelized_tests@ + Seq::<TestEntry<T>>::empty() =~= parallelized_tests@);
            assert(tests@ == taken.1);
            assert(parallelized_tests@ == done + taken.0);
            lemma_round(start, mutations@, 0);
            assert(reaches_some(mutations@, start[0].name@));
            let w = choose|w: int|
                0 <= w < mutations@.len() && #[trigger] reaches(mutations@, w, start[0].name@);
            assert(reaches(mutations@, w, start[0].name@));
            assert(taken.0.len() >= 1);
            lemma_enough_rounds(taken.1, mutations@, (start.len() - 1) as nat);
            assert((done + taken.0) + in_rounds(taken.1, mutations@, taken.1.len()) =~= done + (taken.0
                + in_rounds(taken.1, mutations@, (start.len() - 1) as nat)));
        }
    }
    proof {
        assert(parallelized_tests@ + Seq::<TestEntry<T>>::empty() =~= parallelized_tests@);
    }
    *tests = parallelized_tests;
}

/// The mutant holds the mutation with the number.
pub open spec fn holds_mutation<S>(mutant: &MutantMeta<S>, mutation_id: u32) -> bool {
    exists|i: int|
        0 <= i < mutant.mutations@.len() && (#[trigger] mutant.mutations@[i]).id == mutation_id
}

/// The position of the first mutant at or after `from` that holds the
/// mutation with the number.
pub open spec fn first_holding<S>(
    mutants: Seq<&'static MutantMeta<S>>,
    mutation_id: u32,
    from: int,
) -> Option<int>
    decreases mutants.len() - from,
{
    if from < 0 || from >= mutants.len() {
        None
    } else if holds_mutation(mutants[from], mutation_id) {
        Some(from)
    } else {
        first_holding(mutants, mutation_id, from + 1)
    }
}

/// Why a mutation cannot be run on its own.
#[derive(Clone, Copy, Debug, PartialEq, Eq, Structural)]
pub enum SimulationError {
    /// No mutant holds the mutation.
    UnknownMutation,
    /// The mutant of the mutation holds other mutations too.
    BatchedMutation,
}

/// The mutant to activate for running one mutation on its own: the first
/// mutant that holds the mutation, which has to hold nothing else.
pub open spec fn spec_simulated_mutant<S>(
    mutants: Seq<&'static MutantMeta<S>>,
    mutation_id: u32,
) -> Result<int, SimulationError> {
    match first_holding(mutants, mutation_id, 0) {
        None => Err(SimulationError::UnknownMutation),
        Some(k) => if mutants[k].mutations@.len() > 1 {
            Err(SimulationError::BatchedMutation)
        } else {
            Ok(k)
        },
    }
}

/// Whether the mutant holds the mutation with the number.
pub fn mutant_holds<S>(mutant: &MutantMeta<S>, mutation_id: u32) -> (found: bool)
    ensures
        found == holds_mutation(mutant, mutation_id),
{
    let mut i: usize = 0;
    while i < mutant.mutations.len()
        invariant
            0 <= i <= mutant.mutations.len(),
            forall|k: int| 0 <= k < i ==> (#[trigger] mutant.mutations@[k]).id != mutation_id,
        decreases mutant.mutations.len() - i,
    {
        if mutant.mutations[i].id == mutation_id {
            return true;
        }
        i += 1;
    }
    false
}

/// Finds the mutant to activate for running the mutation with the number
/// on its own.
pub fn simulated_mutant<S>(mutants: &[&'static MutantMeta<S>], mutation_id: u32) -> (result: Result<
    usize,
    SimulationError,
>)
    ensures
        match result {
            Ok(k) => spec_simulated_mutant(mutants@, mutation_id) == Ok::<int, SimulationError>(
                k as int,
            ) && k < mutants@.len(),
            Err(error) => spec_simulated_mutant(mutants@, mutation_id) == Err::<
                int,
                SimulationError,
            >(error),
        },
{
    let mut k: usize = 0;
    while k < mutants.len()
        invariant
            0 <= k <= mutants.len(),
            first_holding(mutants@, mutation_id, 0) == first_holding(mutants@, mutation_id, k as int),
        decreases mutants.len() - k,
    {
        if mutant_holds(mutants[k], mutation_id) {
            if mutants[k].mutations.len() > 1 {
                return Err(SimulationError::BatchedMutation);
            }
            return Ok(k);
        }
        k += 1;
    }
    Err(SimulationError::UnknownMutation)
}

/// The count of the tests of a run of one mutation on its own.
#[derive(Clone, Copy, Debug, PartialEq, Eq, Structural)]
pub struct SimulationTally {
    /// The tests of the run.
    pub total: usize,
    /// The tests that failed or crashed, so far.
    pub failed: usize,
    /// The tests that were left out, so far.
    pub ignored: usize,
}

impl SimulationTally {
    /// No more tests are counted than the run has.
    pub open spec fn wf(&self) -> bool {
        self.failed + self.ignored <= self.total
    }

    /// The count after the result of one more test.
    pub open spec fn with(self, result: TestResult) -> SimulationTally {
        match result {
            TestResult::Ignored => SimulationTally { ignored: (self.ignored + 1) as usize, ..self },
            TestResult::Passed => self,
            TestResult::TimedOut => self,
            _ => SimulationTally { failed: (self.failed + 1) as usize, ..self },
        }
    }

    /// The count before the first result of a run of `total` tests.
    pub fn new(total: usize) -> (tally: Self)
        ensures
            tally == (SimulationTally { total, failed: 0, ignored: 0 }),
            tally.wf(),
    {
        SimulationTally { total, failed: 0, ignored: 0 }
    }

    /// Counts the result of one more test. Such a run has no timeouts.
    pub fn record(&mut self, result: &TestResult)
        requires
            old(self).failed + old(self).ignored < old(self).total,
            !(result is TimedOut),
        ensures
            *final(self) == old(self).with(*result),
            final(self).wf(),
    {
        match result {
            TestResult::Ignored => {
                self.ignored += 1;
            },
            TestResult::Passed => {},
            TestResult::TimedOut => {},
            _ => {
                self.failed += 1;
            },
        }
    }

    /// The tests that did not fail: those that passed and those that were
    /// left out.
    pub fn passed(&self) -> (count: usize)
        requires
            self.wf(),
        ensures
            count == self.total - self.failed,
    {
        self.total - self.failed
    }

    /// Whether no test failed.
    pub fn succeeded(&self) -> (r: bool)
        ensures
            r == (self.failed == 0),
    {
        self.failed == 0
    }
}

} // verus!
