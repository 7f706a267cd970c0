//! The scheduled mutator: it applies to a trace a bounded number of mutations
//! drawn at random, and draws its pool of candidate subterms anew from the
//! corpus from time to time.

use crate::algebra::{lemma_size_positive, Signature, SymbolView, Term, TermView};
use crate::fuzzer::config::{MutationConfig, MutationStageConfig};
use crate::fuzzer::mutations::{
    applied_all, apply, lemma_applied_all_agree, within_lengths, Mutation, MutationView,
};
use crate::subterms::{copy_path, lemma_paths_count, lemma_paths_lead_to_subterms, path_views};
use crate::trace::{Action, ActionView, StepView, Trace, TraceView};
use vstd::prelude::*;

verus! {

/// The generator of random numbers of the `rand` crate.
#[verifier::external_type_specification]
#[verifier::external_body]
pub struct ExStdRng(rand::rngs::StdRng);

/// A generator seeded with `seed`, by `SeedableRng::seed_from_u64`.
#[verifier::external_body]
fn seeded(seed: u64) -> (rng: rand::rngs::StdRng) {
    rand::SeedableRng::seed_from_u64(seed)
}

/// A number below `bound`, drawn by `Rng::gen_range`, which refuses an empty
/// range.
#[verifier::external_body]
fn roll_below(rng: &mut rand::rngs::StdRng, bound: u64) -> (r: u64)
    requires
        bound > 0,
    ensures
        r < bound,
{
    rand::Rng::gen_range(rng, 0..bound)
}

/// The subterms of a term, in the order of its paths.
pub open spec fn subterms(t: TermView) -> Seq<TermView> {
    t.paths().map_values(|p: Seq<usize>| t.subterm(p).unwrap())
}

/// The subterms of the terms of the first `n` steps.
pub open spec fn harvest_of_steps(steps: Seq<StepView>, n: nat) -> Seq<TermView>
    decreases n,
{
    if n == 0 || n > steps.len() {
        Seq::empty()
    } else {
        harvest_of_steps(steps, (n - 1) as nat) + match steps[n - 1].action {
            ActionView::Input(recipe) => subterms(recipe),
            ActionView::Output(_) => Seq::empty(),
        }
    }
}

/// The subterms of the terms of the steps of the first `n` traces.
pub open spec fn harvest_of(corpus: Seq<TraceView>, n: nat) -> Seq<TermView>
    decreases n,
{
    if n == 0 || n > corpus.len() {
        Seq::empty()
    } else {
        harvest_of(corpus, (n - 1) as nat) + harvest_of_steps(
            corpus[n - 1].steps,
            corpus[n - 1].steps.len(),
        )
    }
}

/// The mathematical models of the traces of a corpus.
pub open spec fn trace_views(corpus: Seq<Trace>) -> Seq<TraceView> {
    corpus.map_values(|t: Trace| t@)
}

/// The mathematical models of the terms of a pool.
pub open spec fn pool_view(zoo: Seq<Term>) -> Seq<TermView> {
    zoo.map_values(|t: Term| t@)
}

/// Appends to `zoo` a copy of every subterm of `recipe`.
fn harvest_term(recipe: &Term, zoo: &mut Vec<Term>)
    ensures
        pool_view(final(zoo)@) == pool_view(old(zoo)@) + subterms(recipe@),
{
    let paths = recipe.paths();
    let ghost start = pool_view(zoo@);
    let ghost all = subterms(recipe@);
    let mut k: usize = 0;
    assert(all.take(0) =~= Seq::<TermView>::empty());
    while k < paths.len()
        invariant
            k <= paths.len(),
            crate::subterms::path_views(paths@) == recipe@.paths(),
            all == subterms(recipe@),
            pool_view(zoo@) == start + all.take(k as int),
        decreases paths.len() - k,
    {
        proof {
            recipe.lemma_representable();
            crate::subterms::lemma_paths_lead_to_subterms(recipe@, k as int);
            assert(crate::subterms::path_views(paths@)[k as int] == paths@[k as int]@);
        }
        match recipe.subterm(&paths[k]) {
            Some(found) => {
                let ghost before = pool_view(zoo@);
                zoo.push(found.duplicate());
                assert(pool_view(zoo@) =~= before.push(found@));
                assert(all.take(k + 1) =~= all.take(k as int).push(all[k as int]));
            },
            None => {},
        }
        k += 1;
    }
    assert(all.take(paths.len() as int) =~= all);
}

/// The pool of candidate subterms of a corpus: a copy of every subterm of
/// every term of its traces.
pub fn harvest(corpus: &Vec<Trace>) -> (zoo: Vec<Term>)
    ensures
        pool_view(zoo@) == harvest_of(trace_views(corpus@), corpus@.len()),
{
    let mut zoo: Vec<Term> = Vec::new();
    let mut c: usize = 0;
    assert(pool_view(zoo@) =~= Seq::<TermView>::empty());
    while c < corpus.len()
        invariant
            c <= corpus.len(),
            pool_view(zoo@) == harvest_of(trace_views(corpus@), c as nat),
        decreases corpus.len() - c,
    {
        let trace = &corpus[c];
        proof {
            trace.lemma_view_parts();
        }
        let ghost start = pool_view(zoo@);
        let mut i: usize = 0;
        assert(start + harvest_of_steps(trace@.steps, 0) =~= start);
        while i < trace.steps.len()
            invariant
                i <= trace.steps.len(),
                trace@.steps.len() == trace.steps@.len(),
                forall|k: int|
                    0 <= k < trace.steps@.len() ==> #[trigger] trace@.steps[k] == trace.steps@[k]@,
                pool_view(zoo@) == start + harvest_of_steps(trace@.steps, i as nat),
            decreases trace.steps.len() - i,
        {
            match &trace.steps[i].action {
                Action::Input(input) => {
                    harvest_term(&input.recipe, &mut zoo);
                    assert(pool_view(zoo@) =~= start + harvest_of_steps(
                        trace@.steps,
                        (i + 1) as nat,
                    ));
                },
                Action::Output(_) => {
                    assert(pool_view(zoo@) =~= start + harvest_of_steps(
                        trace@.steps,
                        (i + 1) as nat,
                    ));
                },
            }
            i += 1;
        }
        assert(trace_views(corpus@)[c as int] == trace@);
        c += 1;
    }
    zoo
}

/// The place is one of the trace: the position of an input step, and one of
/// the paths of its term, which leads to a subterm.
pub open spec fn is_place(trace: TraceView, step: int, path: Seq<usize>) -> bool {
    &&& 0 <= step < trace.steps.len()
    &&& trace.steps[step].action matches ActionView::Input(recipe)
    &&& recipe.paths().contains(path)
    &&& recipe.subterm(path) is Some
}

/// The trace has no input step.
pub open spec fn no_input_step(trace: TraceView) -> bool {
    forall|i: int| 0 <= i < trace.steps.len() ==> !((#[trigger] trace.steps[i]).action is Input)
}

/// The trace has steps, and all of them are input steps.
pub open spec fn only_input_steps(trace: TraceView) -> bool {
    &&& trace.steps.len() > 0
    &&& forall|i: int| 0 <= i < trace.steps.len() ==> (#[trigger] trace.steps[i]).action is Input
}

/// The mutation is one that is drawn for the trace: its places are places of
/// the trace, a candidate is a term of the pool, the copy of a step stands
/// behind the step and within the trace, a step that is removed is a step of
/// the trace, and a term is generated no deeper than a term may have nodes,
/// from as many rolls.
pub open spec fn drawn_for(
    mutation: MutationView,
    trace: TraceView,
    zoo: Seq<TermView>,
    config: MutationConfig,
) -> bool {
    match mutation {
        MutationView::Replace { step, path, candidate } => is_place(trace, step, path)
            && zoo.contains(candidate),
        MutationView::Swap { step_a, path_a, step_b, path_b } => is_place(trace, step_a, path_a)
            && is_place(trace, step_b, path_b),
        MutationView::Repeat { step, at, fresh } => 0 <= step < at <= trace.steps.len(),
        MutationView::Remove { step } => 0 <= step < trace.steps.len(),
        MutationView::Generate { step, path, depth, rolls } => is_place(trace, step, path)
            && depth == config.term_constraints.max_term_size && rolls.len() == depth,
    }
}

/// The mutation at position `k` is one that is drawn for the trace that the
/// mutations before it make of `trace`.
pub open spec fn drawn_at(
    trace: TraceView,
    mutations: Seq<MutationView>,
    k: int,
    zoo: Seq<TermView>,
    sig: Seq<SymbolView>,
    config: MutationConfig,
) -> bool {
    applied_all(trace, mutations, k as nat, sig, config) matches Some(before) && drawn_for(
        mutations[k],
        before,
        zoo,
        config,
    )
}

/// The mutations lead from the trace `from` to the trace `to`: applied one
/// after another they make `to` of `from`, and each is one that is drawn for
/// the trace that it is applied to.
pub open spec fn leads(
    mutations: Seq<MutationView>,
    from: TraceView,
    to: TraceView,
    zoo: Seq<TermView>,
    sig: Seq<SymbolView>,
    config: MutationConfig,
) -> bool {
    &&& applied_all(from, mutations, mutations.len(), sig, config) == Some(to)
    &&& forall|k: int|
        0 <= k < mutations.len() ==> #[trigger] drawn_at(from, mutations, k, zoo, sig, config)
}

/// A mutator that applies, at each invocation, up to a fixed number of
/// mutations drawn at random.
pub struct ScheduledMutator {
    pub config: MutationConfig,
    pub max_mutations: u64,
    pub zoo: Vec<Term>,
    pub invocations: u64,
    pub rng: rand::rngs::StdRng,
}

impl ScheduledMutator {
    /// The pool is drawn anew at this invocation: at the first one, and then
    /// each time the configured number of invocations has passed.
    pub open spec fn refresh_due(&self) -> bool {
        self.config.fresh_zoo_after == 0 || self.invocations % self.config.fresh_zoo_after == 0
    }

    /// A mutator that has not been invoked, with an empty pool and a
    /// generator of random numbers seeded with `seed`.
    pub fn new(config: MutationConfig, stage: MutationStageConfig, seed: u64) -> (mutator: Self)
        ensures
            mutator.config == config,
            mutator.max_mutations == stage.max_mutations_per_iteration,
            mutator.zoo@.len() == 0,
            mutator.invocations == 0,
    {
        ScheduledMutator {
            config,
            max_mutations: stage.max_mutations_per_iteration,
            zoo: Vec::new(),
            invocations: 0,
            rng: seeded(seed),
        }
    }

    /// Draws a place of the trace: the position of a step at random and,
    /// where the step is an input step, one of the paths into its term at
    /// random. There is none where the step that was drawn is an output step.
    fn draw_place(&mut self, trace: &Trace) -> (r: Option<(usize, Vec<usize>)>)
        ensures
            r matches Some((step, path)) ==> is_place(trace@, step as int, path@),
            no_input_step(trace@) ==> r is None,
            only_input_steps(trace@) ==> r is Some,
            final(self).config == old(self).config,
            final(self).max_mutations == old(self).max_mutations,
            final(self).zoo == old(self).zoo,
            final(self).invocations == old(self).invocations,
    {
        proof {
            trace.lemma_view_parts();
        }
        if trace.steps.len() == 0 {
            return None;
        }
        let step = roll_below(&mut self.rng, trace.steps.len() as u64) as usize;
        assert(trace@.steps[step as int] == trace.steps@[step as int]@);
        match &trace.steps[step].action {
            Action::Output(_) => None,
            Action::Input(input) => {
                let paths = input.recipe.paths();
                proof {
                    lemma_paths_count(input.recipe@);
                    lemma_size_positive(input.recipe@);
                    assert(path_views(paths@).len() == paths@.len());
                }
                let k = roll_below(&mut self.rng, paths.len() as u64) as usize;
                proof {
                    input.recipe.lemma_representable();
                    lemma_paths_lead_to_subterms(input.recipe@, k as int);
                    assert(path_views(paths@)[k as int] == paths@[k as int]@);
                }
                Some((step, copy_path(&paths[k])))
            },
        }
    }

    /// Draws a mutation for the trace: an operator at random, and at random
    /// what it is applied to. The places are places of the trace, a candidate
    /// is a copy of a term of the pool, a copy of a step stands behind the
    /// step, and a term is generated from as many rolls as a term may have
    /// nodes. Whether the mutation fits is decided when it is applied.
    fn draw(&mut self, trace: &Trace) -> (r: Option<Mutation>)
        ensures
            r matches Some(mutation) ==> drawn_for(
                mutation@,
                trace@,
                pool_view(old(self).zoo@),
                old(self).config,
            ),
            trace@.steps.len() == 0 ==> r is None,
            only_input_steps(trace@) && old(self).zoo@.len() > 0 ==> r is Some,
            final(self).config == old(self).config,
            final(self).max_mutations == old(self).max_mutations,
            final(self).zoo == old(self).zoo,
            final(self).invocations == old(self).invocations,
    {
        proof {
            trace.lemma_view_parts();
        }
        let operator = roll_below(&mut self.rng, 5);
        if operator == 0 {
            if self.zoo.len() == 0 {
                return None;
            }
            match self.draw_place(trace) {
                None => None,
                Some((step, path)) => {
                    let k = roll_below(&mut self.rng, self.zoo.len() as u64) as usize;
                    let candidate = self.zoo[k].duplicate();
                    assert(pool_view(self.zoo@)[k as int] == candidate@);
                    Some(Mutation::Replace { step, path, candidate })
                },
            }
        } else if operator == 1 {
            match self.draw_place(trace) {
                None => None,
                Some((step_a, path_a)) => match self.draw_place(trace) {
                    None => None,
                    Some((step_b, path_b)) => Some(
                        Mutation::Swap { step_a, path_a, step_b, path_b },
                    ),
                },
            }
        } else if operator == 2 {
            if trace.steps.len() == 0 {
                return None;
            }
            let step = roll_below(&mut self.rng, trace.steps.len() as u64) as usize;
            let behind = roll_below(&mut self.rng, (trace.steps.len() - step) as u64) as usize;
            let fresh = roll_below(&mut self.rng, u64::MAX);
            Some(Mutation::Repeat { step, at: step + 1 + behind, fresh })
        } else if operator == 3 {
            if trace.steps.len() == 0 {
                return None;
            }
            let step = roll_below(&mut self.rng, trace.steps.len() as u64) as usize;
            Some(Mutation::Remove { step })
        } else {
            match self.draw_place(trace) {
                None => None,
                Some((step, path)) => {
                    let budget = self.config.term_constraints.max_term_size;
                    let mut rolls: Vec<u64> = Vec::new();
                    let mut n: usize = 0;
                    while n < budget
                        invariant
                            n <= budget,
                            rolls@.len() == n,
                            self.config == old(self).config,
                            self.max_mutations == old(self).max_mutations,
                            self.zoo == old(self).zoo,
                            self.invocations == old(self).invocations,
                        decreases budget - n,
                    {
                        rolls.push(roll_below(&mut self.rng, u64::MAX));
                        n += 1;
                    }
                    Some(Mutation::Generate { step, path, depth: budget, rolls })
                },
            }
        }
    }

    /// Mutates the trace: draws mutations and applies those that fit, up to
    /// the configured number, and stops early at random. Before that, the
    /// pool of candidate subterms is drawn anew from the corpus where that is
    /// due. Returns how many mutations were applied: the trace is what that
    /// many mutations, each drawn for the trace that it was applied to, make
    /// of the trace that was handed in.
    pub fn mutate(&mut self, trace: &mut Trace, corpus: &Vec<Trace>, sig: &Signature) -> (count:
        u64)
        ensures
            exists|mutations: Seq<MutationView>|
                mutations.len() == count && #[trigger] leads(
                    mutations,
                    old(trace)@,
                    final(trace)@,
                    pool_view(final(self).zoo@),
                    sig@,
                    old(self).config,
                ),
            old(trace)@.well_typed(sig@) ==> final(trace)@.well_typed(sig@),
            within_lengths(final(trace)@, old(trace)@.steps.len(), old(self).config),
            final(trace)@.prior_traces == old(trace)@.prior_traces,
            final(trace)@.descriptors == old(trace)@.descriptors,
            count == 0 ==> final(trace)@ == old(trace)@,
            count <= old(self).max_mutations,
            final(self).config == old(self).config,
            final(self).max_mutations == old(self).max_mutations,
            final(self).invocations == (if old(self).invocations == u64::MAX {
                0
            } else {
                old(self).invocations + 1
            }),
            pool_view(final(self).zoo@) == (if old(self).refresh_due() {
                harvest_of(trace_views(corpus@), corpus@.len())
            } else {
                pool_view(old(self).zoo@)
            }),
    {
        let due = self.config.fresh_zoo_after == 0 || self.invocations
            % self.config.fresh_zoo_after == 0;
        if due {
            self.zoo = harvest(corpus);
        }
        self.invocations = if self.invocations == u64::MAX {
            0
        } else {
            self.invocations + 1
        };
        let ghost pool = self.zoo;
        let ghost invocations = self.invocations;
        let ghost start = trace@;
        let ghost mut done: Seq<MutationView> = Seq::empty();
        let mut count: u64 = 0;
        let mut round: u64 = 0;
        while round < self.max_mutations
            invariant
                count <= round <= self.max_mutations,
                start == old(trace)@,
                done.len() == count,
                leads(done, start, trace@, pool_view(pool@), sig@, self.config),
                old(trace)@.well_typed(sig@) ==> trace@.well_typed(sig@),
                within_lengths(trace@, old(trace)@.steps.len(), self.config),
                trace@.prior_traces == old(trace)@.prior_traces,
                trace@.descriptors == old(trace)@.descriptors,
                count == 0 ==> trace@ == old(trace)@,
                self.config == old(self).config,
                self.max_mutations == old(self).max_mutations,
                self.zoo == pool,
                self.invocations == invocations,
            decreases self.max_mutations - round,
        {
            match self.draw(trace) {
                None => {},
                Some(mutation) => match apply(trace, &mutation, sig, &self.config) {
                    None => {},
                    Some(mutant) => {
                        proof {
                            let longer = done.push(mutation@);
                            assert forall|k: int| 0 <= k < longer.len() implies #[trigger] drawn_at(
                                start,
                                longer,
                                k,
                                pool_view(pool@),
                                sig@,
                                self.config,
                            ) by {
                                lemma_applied_all_agree(
                                    start,
                                    done,
                                    longer,
                                    k as nat,
                                    sig@,
                                    self.config,
                                );
                                if k < done.len() {
                                    assert(drawn_at(
                                        start,
                                        done,
                                        k,
                                        pool_view(pool@),
                                        sig@,
                                        self.config,
                                    ));
                                }
                            }
                            lemma_applied_all_agree(
                                start,
                                done,
                                longer,
                                done.len(),
                                sig@,
                                self.config,
                            );
                            done = longer;
                        }
                        *trace = mutant;
                        count += 1;
                    },
                },
            }
            round += 1;
            if roll_below(&mut self.rng, 2) == 0 {
                break ;
            }
        }
        count
    }
}

} // verus!
