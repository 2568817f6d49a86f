//! What a run is asked to do.

use vstd::prelude::*;
use rand::rngs::StdRng;
use crate::batching::Epsilon;
use crate::batching::GreedyMutationBatchingOrderingHeuristic;
use crate::random::rng_from_seed;
use crate::unsafety::UnsafeTargeting;

verus! {

/// How a conflict graph is written out.
#[derive(Clone, Copy, Debug, PartialEq, Eq, Structural)]
pub enum GraphFormat {
    Simple,
    Graphviz,
}

/// What is written out of the conflict graph.
#[derive(Clone, Copy, Debug, PartialEq, Eq, Structural)]
pub struct ConflictGraphOptions {
    /// The pairs without conflict instead of those in conflict.
    pub compatibility_graph: bool,
    /// Leave out the mutations that count as unsafe.
    pub exclude_unsafe: bool,
    pub format: GraphFormat,
}

/// What a run prints.
#[derive(Clone, Copy, Debug)]
pub struct PrintOptions {
    pub print_headers: bool,
    pub mutation_targets: Option<()>,
    pub conflict_graph: Option<ConflictGraphOptions>,
    pub mutants: Option<()>,
    pub code: Option<()>,
}

impl PrintOptions {
    /// Whether nothing is asked to be printed.
    pub fn is_empty(&self) -> (r: bool)
        ensures
            r == (self.mutation_targets is None && self.conflict_graph is None && self.mutants
                is None && self.code is None),
    {
        self.mutation_targets.is_none() && self.conflict_graph.is_none() && self.mutants.is_none()
            && self.code.is_none()
    }
}

/// Whether a run prints or builds.
#[derive(Clone, Copy, Debug, PartialEq, Eq, Structural)]
pub enum Mode {
    Print,
    Build,
}

/// How mutations are packed into mutants.
#[derive(Clone, Copy, Debug, PartialEq, Eq, Structural)]
pub enum MutationBatchingAlgorithm {
    /// Every mutation in a mutant of its own.
    Unbatched,
    Greedy { ordering_heuristic: Option<GreedyMutationBatchingOrderingHeuristic>, epsilon: Option<Epsilon> },
    Random,
    SimulatedAnnealing,
}

/// The seed of a random generator.
pub type RandomSeed = [u8; 32];

/// Where the randomness of batching comes from.
#[derive(Clone, Copy, Debug)]
pub struct MutationBatchingRandomness {
    /// A seed makes a run repeatable. Without one the generator is to be
    /// seeded from the system.
    pub seed: Option<RandomSeed>,
}

impl MutationBatchingRandomness {
    /// The generator of the seed, where there is a seed.
    pub fn rng(&self) -> (rng: Option<StdRng>)
        ensures
            rng is Some <==> self.seed is Some,
    {
        match self.seed {
            Some(seed) => Some(rng_from_seed(seed)),
            None => None,
        }
    }
}

/// The options of a run.
pub struct Options<'op, O> {
    pub mode: Mode,
    pub verbosity: u8,
    pub report_timings: bool,
    pub print_opts: PrintOptions,
    pub unsafe_targeting: UnsafeTargeting,
    pub operators: &'op [O],
    pub call_graph_depth: usize,
    pub mutation_depth: usize,
    pub mutation_batching_algorithm: MutationBatchingAlgorithm,
    pub mutation_batching_randomness: MutationBatchingRandomness,
    pub mutant_max_mutations_count: usize,
    pub sanitize_macro_expns: bool,
}

} // verus!
