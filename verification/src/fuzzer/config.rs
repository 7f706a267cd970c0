//! The configuration of a fuzzing campaign.

use vstd::prelude::*;

verus! {

/// The bounds on the size of the terms that are mutated.
#[derive(Clone, Copy, Debug, PartialEq, Eq, Structural)]
pub struct TermConstraints {
    /// A term with fewer nodes is not mutated.
    pub min_term_size: usize,
    /// No mutation gives a term with more nodes.
    pub max_term_size: usize,
}

/// How much a mutation stage does.
#[derive(Clone, Copy, Debug, PartialEq, Eq, Structural)]
pub struct MutationStageConfig {
    /// How many iterations each stage gets, as an upper bound. Each iteration
    /// works on another input of the corpus.
    pub max_iterations_per_stage: u64,
    /// How many mutations an iteration applies, as an upper bound.
    pub max_mutations_per_iteration: u64,
}

impl Default for MutationStageConfig {
    fn default() -> (config: Self)
        ensures
            config == (MutationStageConfig {
                max_iterations_per_stage: 256,
                max_mutations_per_iteration: 16,
            }),
    {
        MutationStageConfig { max_iterations_per_stage: 256, max_mutations_per_iteration: 16 }
    }
}

/// The bounds that the mutation operators keep.
#[derive(Clone, Copy, Debug, PartialEq, Eq, Structural)]
pub struct MutationConfig {
    /// After how many invocations the pool of candidate subterms is drawn
    /// anew from the corpus.
    pub fresh_zoo_after: u64,
    /// No mutation gives a trace with more steps.
    pub max_trace_length: usize,
    /// No mutation gives a trace with fewer steps.
    pub min_trace_length: usize,
    pub term_constraints: TermConstraints,
}

impl Default for MutationConfig {
    fn default() -> (config: Self)
        ensures
            config == (MutationConfig {
                fresh_zoo_after: 100000,
                max_trace_length: 15,
                min_trace_length: 2,
                term_constraints: TermConstraints { min_term_size: 0, max_term_size: 300 },
            }),
    {
        MutationConfig {
            fresh_zoo_after: 100000,
            max_trace_length: 15,
            min_trace_length: 2,
            term_constraints: TermConstraints { min_term_size: 0, max_term_size: 300 },
        }
    }
}

/// The configuration of a campaign: where its files are, how it is seeded
/// and how it mutates.
pub struct FuzzerConfig {
    pub initial_corpus_dir: String,
    pub static_seed: Option<u64>,
    pub max_iters: Option<u64>,
    pub core_definition: String,
    pub monitor_file: String,
    pub corpus_dir: String,
    pub objective_dir: String,
    pub broker_port: u16,
    pub minimizer: bool,
    pub mutation_stage_config: MutationStageConfig,
    pub mutation_config: MutationConfig,
    pub monitor: bool,
    pub no_launcher: bool,
    pub log_file: String,
}

impl FuzzerConfig {
    /// The seed of the campaign: the configured one, or `fallback`.
    pub fn seed(&self, fallback: u64) -> (seed: u64)
        ensures
            seed == (match self.static_seed {
                Some(configured) => configured,
                None => fallback,
            }),
    {
        match self.static_seed {
            Some(configured) => configured,
            None => fallback,
        }
    }
}

} // verus!
