//! The mutation operators. Each gives a new trace, or nothing where it does
//! not apply; none gives a trace that is not well-typed.

use crate::algebra::{Signature, SymbolView, Term, TermView};
use crate::fuzzer::config::{MutationConfig, TermConstraints};
use crate::fuzzer::generate::{generate, generated};
use crate::subterms::{lemma_replace_refers_within, lemma_replace_well_typed};
use crate::trace::{
    lemma_available_grows, lemma_insert_step, lemma_refers_within_subset, lemma_remove_step,
    lemma_with_recipe, output_step, Action, ActionView, InputAction, OutputAction, Step,
    StepView, Trace, TraceView,
};
use vstd::prelude::*;

verus! {

/// `candidate` may take the place of the subterm at `path` of the term of
/// step `step`: the step is an input step whose term is large enough to be
/// mutated, the candidate is a well-typed term of the type of the subterm,
/// it names only what is produced before the step, and the term that
/// results is not too large.
pub open spec fn replaceable(
    trace: TraceView,
    step: int,
    path: Seq<usize>,
    candidate: TermView,
    sig: Seq<SymbolView>,
    constraints: TermConstraints,
) -> bool {
    &&& 0 <= step < trace.steps.len()
    &&& trace.steps[step].action matches ActionView::Input(recipe)
    &&& recipe.subterm(path) matches Some(target)
    &&& target.root_known(sig)
    &&& candidate.well_typed(sig)
    &&& candidate.result_type(sig) == target.result_type(sig)
    &&& candidate.refers_within(trace.available(step))
    &&& constraints.min_term_size <= recipe.size()
    &&& recipe.replace(path, candidate).size() <= constraints.max_term_size
}

/// The trace with `candidate` in place of the subterm at `path` of the term
/// of step `step`, where it may take that place.
pub open spec fn replaced(
    trace: TraceView,
    step: int,
    path: Seq<usize>,
    candidate: TermView,
    sig: Seq<SymbolView>,
    constraints: TermConstraints,
) -> Option<TraceView> {
    if replaceable(trace, step, path, candidate, sig, constraints) {
        Some(
            trace.with_recipe(
                step,
                trace.steps[step].action->Input_0.replace(path, candidate),
            ),
        )
    } else {
        None
    }
}

/// Replacing a subterm keeps a trace well-typed.
pub proof fn lemma_replaced_well_typed(
    trace: TraceView,
    step: int,
    path: Seq<usize>,
    candidate: TermView,
    sig: Seq<SymbolView>,
    constraints: TermConstraints,
)
    requires
        trace.well_typed(sig),
        replaceable(trace, step, path, candidate, sig, constraints),
    ensures
        replaced(trace, step, path, candidate, sig, constraints).unwrap().well_typed(sig),
{
    let recipe = trace.steps[step].action->Input_0;
    assert(trace.step_valid(step, sig));
    lemma_replace_well_typed(recipe, path, candidate, sig);
    lemma_replace_refers_within(recipe, path, candidate, trace.available(step));
    lemma_with_recipe(trace, step, recipe.replace(path, candidate), sig);
}

/// The replace operator: splices a copy of `candidate` in place of the
/// subterm at `path` of the term of step `step`.
pub fn replace(
    trace: &Trace,
    step: usize,
    path: &Vec<usize>,
    candidate: &Term,
    sig: &Signature,
    constraints: &TermConstraints,
) -> (r: Option<Trace>)
    ensures
        r is Some <==> replaceable(trace@, step as int, path@, candidate@, sig@, *constraints),
        r matches Some(mutant) ==> Some(mutant@) == replaced(
            trace@,
            step as int,
            path@,
            candidate@,
            sig@,
            *constraints,
        ),
        r matches Some(mutant) ==> (trace@.well_typed(sig@) ==> mutant@.well_typed(sig@)),
{
    proof {
        trace.lemma_view_parts();
    }
    if step >= trace.steps.len() {
        return None;
    }
    let recipe = match &trace.steps[step].action {
        Action::Output(_) => {
            return None;
        },
        Action::Input(input) => &input.recipe,
    };
    let target = match recipe.subterm(path) {
        None => {
            return None;
        },
        Some(target) => target,
    };
    let wanted = match target.result_type(sig) {
        None => {
            return None;
        },
        Some(wanted) => wanted,
    };
    if !candidate.well_typed(sig) {
        return None;
    }
    match candidate.result_type(sig) {
        None => {
            return None;
        },
        Some(offered) => {
            if offered != wanted {
                return None;
            }
        },
    }
    let ids = trace.available_ids(step);
    if !candidate.refers_within(&ids) {
        return None;
    }
    if constraints.min_term_size > 0 && recipe.size_within(
        constraints.min_term_size - 1,
    ).is_some() {
        return None;
    }
    let spliced = recipe.replaced(path, candidate);
    if spliced.size_within(constraints.max_term_size).is_none() {
        return None;
    }
    let mut mutant = trace.duplicate();
    mutant.set_recipe(step, spliced);
    proof {
        if trace@.well_typed(sig@) {
            lemma_replaced_well_typed(trace@, step as int, path@, candidate@, sig@, *constraints);
        }
    }
    Some(mutant)
}

/// One of the paths leads into the subterm of the other, or to it.
pub open spec fn overlapping(a: Seq<usize>, b: Seq<usize>) -> bool {
    a.is_prefix_of(b) || b.is_prefix_of(a)
}

/// The two places hold subterms that lie apart: in the terms of two steps,
/// or in one term with neither inside the other.
pub open spec fn apart(
    trace: TraceView,
    step_a: int,
    path_a: Seq<usize>,
    step_b: int,
    path_b: Seq<usize>,
) -> bool {
    &&& 0 <= step_a < trace.steps.len()
    &&& 0 <= step_b < trace.steps.len()
    &&& trace.steps[step_a].action matches ActionView::Input(recipe_a)
    &&& trace.steps[step_b].action matches ActionView::Input(recipe_b)
    &&& recipe_a.subterm(path_a) is Some
    &&& recipe_b.subterm(path_b) is Some
    &&& step_a != step_b || !overlapping(path_a, path_b)
}

/// The trace with the two subterms exchanged: the second takes the place of
/// the first, then the first takes the place of the second, each where it
/// may.
pub open spec fn swapped(
    trace: TraceView,
    step_a: int,
    path_a: Seq<usize>,
    step_b: int,
    path_b: Seq<usize>,
    sig: Seq<SymbolView>,
    constraints: TermConstraints,
) -> Option<TraceView> {
    if apart(trace, step_a, path_a, step_b, path_b) {
        let first = trace.steps[step_a].action->Input_0.subterm(path_a).unwrap();
        let second = trace.steps[step_b].action->Input_0.subterm(path_b).unwrap();
        match replaced(trace, step_a, path_a, second, sig, constraints) {
            Some(half) => replaced(half, step_b, path_b, first, sig, constraints),
            None => None,
        }
    } else {
        None
    }
}

/// Is `a` the beginning of `b`?
pub fn is_prefix(a: &Vec<usize>, b: &Vec<usize>) -> (r: bool)
    ensures
        r == a@.is_prefix_of(b@),
{
    if a.len() > b.len() {
        return false;
    }
    let mut i: usize = 0;
    while i < a.len()
        invariant
            i <= a.len() <= b.len(),
            forall|k: int| 0 <= k < i ==> a@[k] == b@[k],
        decreases a.len() - i,
    {
        if a[i] != b[i] {
            assert(a@ != b@.subrange(0, a@.len() as int)) by {
                assert(b@.subrange(0, a@.len() as int)[i as int] == b@[i as int]);
            }
            return false;
        }
        i += 1;
    }
    assert(a@ =~= b@.subrange(0, a@.len() as int));
    true
}

/// The swap operator: exchanges the subterm at `path_a` of the term of step
/// `step_a` and the subterm at `path_b` of the term of step `step_b`.
pub fn swap(
    trace: &Trace,
    step_a: usize,
    path_a: &Vec<usize>,
    step_b: usize,
    path_b: &Vec<usize>,
    sig: &Signature,
    constraints: &TermConstraints,
) -> (r: Option<Trace>)
    ensures
        (match r {
            Some(mutant) => Some(mutant@),
            None => None,
        }) == swapped(
            trace@,
            step_a as int,
            path_a@,
            step_b as int,
            path_b@,
            sig@,
            *constraints,
        ),
        r matches Some(mutant) ==> (trace@.well_typed(sig@) ==> mutant@.well_typed(sig@)),
{
    proof {
        trace.lemma_view_parts();
    }
    if step_a >= trace.steps.len() || step_b >= trace.steps.len() {
        return None;
    }
    let recipe_a = match &trace.steps[step_a].action {
        Action::Output(_) => {
            return None;
        },
        Action::Input(input) => &input.recipe,
    };
    let recipe_b = match &trace.steps[step_b].action {
        Action::Output(_) => {
            return None;
        },
        Action::Input(input) => &input.recipe,
    };
    let first = match recipe_a.subterm(path_a) {
        None => {
            return None;
        },
        Some(first) => first,
    };
    let second = match recipe_b.subterm(path_b) {
        None => {
            return None;
        },
        Some(second) => second,
    };
    if step_a == step_b && (is_prefix(path_a, path_b) || is_prefix(path_b, path_a)) {
        return None;
    }
    match replace(trace, step_a, path_a, second, sig, constraints) {
        None => None,
        Some(half) => replace(&half, step_b, path_b, first, sig, constraints),
    }
}

/// The step at `step` may be repeated at position `at`: the copy stands
/// behind the step, an output step gets an identifier that the trace does not
/// use, and the trace does not grow beyond its longest length.
pub open spec fn repeatable(
    trace: TraceView,
    step: int,
    at: int,
    fresh: u64,
    config: MutationConfig,
) -> bool {
    &&& 0 <= step < at <= trace.steps.len()
    &&& trace.steps.len() < config.max_trace_length
    &&& trace.steps[step].action is Output ==> !trace.produces(fresh)
}

/// The copy of a step: an input step as it is, an output step under the
/// identifier `fresh`.
pub open spec fn renumbered(step: StepView, fresh: u64) -> StepView {
    match step.action {
        ActionView::Input(_) => step,
        ActionView::Output(_) => output_step(step.agent, fresh),
    }
}

/// The trace with the step at `step` repeated at position `at`, where it may
/// be.
pub open spec fn repeated(
    trace: TraceView,
    step: int,
    at: int,
    fresh: u64,
    config: MutationConfig,
) -> Option<TraceView> {
    if repeatable(trace, step, at, fresh, config) {
        Some(trace.insert_step(at, renumbered(trace.steps[step], fresh)))
    } else {
        None
    }
}

/// Repeating a step keeps a trace well-typed.
pub proof fn lemma_repeated_well_typed(
    trace: TraceView,
    step: int,
    at: int,
    fresh: u64,
    config: MutationConfig,
    sig: Seq<SymbolView>,
)
    requires
        trace.well_typed(sig),
        repeatable(trace, step, at, fresh, config),
    ensures
        repeated(trace, step, at, fresh, config).unwrap().well_typed(sig),
{
    assert(trace.step_valid(step, sig));
    match trace.steps[step].action {
        ActionView::Input(recipe) => {
            lemma_available_grows(trace, step, at);
            lemma_refers_within_subset(recipe, trace.available(step), trace.available(at));
        },
        ActionView::Output(_) => {},
    }
    lemma_insert_step(trace, at, renumbered(trace.steps[step], fresh), sig);
}

/// The repeat operator: inserts at position `at` a copy of the step at
/// `step`. The copy of an output step stores what it observes under `fresh`.
pub fn repeat(
    trace: &Trace,
    step: usize,
    at: usize,
    fresh: u64,
    sig: &Signature,
    config: &MutationConfig,
) -> (r: Option<Trace>)
    ensures
        (match r {
            Some(mutant) => Some(mutant@),
            None => None,
        }) == repeated(trace@, step as int, at as int, fresh, *config),
        r matches Some(mutant) ==> (trace@.well_typed(sig@) ==> mutant@.well_typed(sig@)),
{
    proof {
        trace.lemma_view_parts();
    }
    if step >= at || at > trace.steps.len() || trace.steps.len() >= config.max_trace_length {
        return None;
    }
    let copy = match &trace.steps[step].action {
        Action::Input(_) => trace.steps[step].duplicate(),
        Action::Output(_) => {
            if trace.produces(fresh) {
                return None;
            }
            OutputAction::new_step(trace.steps[step].agent, fresh)
        },
    };
    let mut mutant = trace.duplicate();
    mutant.insert_step(at, copy);
    proof {
        if trace@.well_typed(sig@) {
            lemma_repeated_well_typed(trace@, step as int, at as int, fresh, *config, sig@);
        }
    }
    Some(mutant)
}

/// The step at `step` may be removed: the trace does not shrink below its
/// shortest length, and no later step names what the step produces.
pub open spec fn removable(trace: TraceView, step: int, config: MutationConfig) -> bool {
    &&& 0 <= step < trace.steps.len()
    &&& trace.steps.len() > config.min_trace_length
    &&& trace.unused_after(step)
}

/// The trace without the step at `step`, where it may be removed.
pub open spec fn removed(trace: TraceView, step: int, config: MutationConfig) -> Option<
    TraceView,
> {
    if removable(trace, step, config) {
        Some(trace.remove_step(step))
    } else {
        None
    }
}

/// The remove operator: drops the step at `step`.
pub fn remove(trace: &Trace, step: usize, sig: &Signature, config: &MutationConfig) -> (r: Option<
    Trace,
>)
    ensures
        (match r {
            Some(mutant) => Some(mutant@),
            None => None,
        }) == removed(trace@, step as int, *config),
        r matches Some(mutant) ==> (trace@.well_typed(sig@) ==> mutant@.well_typed(sig@)),
{
    proof {
        trace.lemma_view_parts();
    }
    if step >= trace.steps.len() || trace.steps.len() <= config.min_trace_length {
        return None;
    }
    match &trace.steps[step].action {
        Action::Input(_) => {},
        Action::Output(output) => {
            let mut k: usize = step + 1;
            while k < trace.steps.len()
                invariant
                    step < k <= trace.steps.len(),
                    trace@.steps.len() == trace.steps@.len(),
                    trace@.steps[step as int].action == ActionView::Output(output.id),
                    forall|j: int|
                        0 <= j < trace.steps@.len() ==> #[trigger] trace@.steps[j]
                            == trace.steps@[j]@,
                    forall|j: int| step < j < k ==> !(#[trigger] trace@.steps[j]).names(output.id),
                decreases trace.steps.len() - k,
            {
                match &trace.steps[k].action {
                    Action::Input(input) => {
                        if input.recipe.mentions(output.id) {
                            assert(trace@.steps[k as int].names(output.id));
                            return None;
                        }
                    },
                    Action::Output(_) => {},
                }
                k += 1;
            }
        },
    }
    let mut mutant = trace.duplicate();
    mutant.remove_step(step);
    proof {
        if trace@.well_typed(sig@) {
            lemma_remove_step(trace@, step as int, sig@);
        }
    }
    Some(mutant)
}

/// One application of a mutation operator: the operator and what it is
/// applied to.
pub enum Mutation {
    /// Splice `candidate` in place of the subterm at `path` of step `step`.
    Replace { step: usize, path: Vec<usize>, candidate: Term },
    /// Exchange two subterms.
    Swap { step_a: usize, path_a: Vec<usize>, step_b: usize, path_b: Vec<usize> },
    /// Insert at position `at` a copy of the step at `step`; the copy of an
    /// output step stores what it observes under `fresh`.
    Repeat { step: usize, at: usize, fresh: u64 },
    /// Drop the step at `step`.
    Remove { step: usize },
    /// Splice, in place of the subterm at `path` of step `step`, the term of
    /// its type that the rolls lead to.
    Generate { step: usize, path: Vec<usize>, depth: usize, rolls: Vec<u64> },
}

/// The mathematical model of a [`Mutation`].
pub enum MutationView {
    Replace { step: int, path: Seq<usize>, candidate: TermView },
    Swap { step_a: int, path_a: Seq<usize>, step_b: int, path_b: Seq<usize> },
    Repeat { step: int, at: int, fresh: u64 },
    Remove { step: int },
    Generate { step: int, path: Seq<usize>, depth: nat, rolls: Seq<u64> },
}

impl View for Mutation {
    type V = MutationView;

    open spec fn view(&self) -> MutationView {
        match self {
            Mutation::Replace { step, path, candidate } => MutationView::Replace {
                step: *step as int,
                path: path@,
                candidate: candidate@,
            },
            Mutation::Swap { step_a, path_a, step_b, path_b } => MutationView::Swap {
                step_a: *step_a as int,
                path_a: path_a@,
                step_b: *step_b as int,
                path_b: path_b@,
            },
            Mutation::Repeat { step, at, fresh } => MutationView::Repeat {
                step: *step as int,
                at: *at as int,
                fresh: *fresh,
            },
            Mutation::Remove { step } => MutationView::Remove { step: *step as int },
            Mutation::Generate { step, path, depth, rolls } => MutationView::Generate {
                step: *step as int,
                path: path@,
                depth: *depth as nat,
                rolls: rolls@,
            },
        }
    }
}

/// The trace with, in place of the subterm at `path` of step `step`, the
/// term of the subterm's type that the rolls lead to, where there is such a
/// term and it may take that place.
pub open spec fn regenerated(
    trace: TraceView,
    step: int,
    path: Seq<usize>,
    depth: nat,
    rolls: Seq<u64>,
    sig: Seq<SymbolView>,
    constraints: TermConstraints,
) -> Option<TraceView> {
    if 0 <= step < trace.steps.len() && trace.steps[step].action is Input
        && trace.steps[step].action->Input_0.subterm(path) is Some
        && trace.steps[step].action->Input_0.subterm(path).unwrap().root_known(sig) {
        let target = trace.steps[step].action->Input_0.subterm(path).unwrap();
        match generated(sig, target.result_type(sig), depth, rolls) {
            Some((candidate, _)) => replaced(trace, step, path, candidate, sig, constraints),
            None => None,
        }
    } else {
        None
    }
}

/// What the mutation makes of the trace: the mutated trace, or nothing where
/// the operator does not apply.
pub open spec fn applied(
    trace: TraceView,
    mutation: MutationView,
    sig: Seq<SymbolView>,
    config: MutationConfig,
) -> Option<TraceView> {
    match mutation {
        MutationView::Replace { step, path, candidate } => replaced(
            trace,
            step,
            path,
            candidate,
            sig,
            config.term_constraints,
        ),
        MutationView::Swap { step_a, path_a, step_b, path_b } => swapped(
            trace,
            step_a,
            path_a,
            step_b,
            path_b,
            sig,
            config.term_constraints,
        ),
        MutationView::Repeat { step, at, fresh } => repeated(trace, step, at, fresh, config),
        MutationView::Remove { step } => removed(trace, step, config),
        MutationView::Generate { step, path, depth, rolls } => regenerated(
            trace,
            step,
            path,
            depth,
            rolls,
            sig,
            config.term_constraints,
        ),
    }
}

/// Type preservation: whatever a mutation operator makes of a well-typed
/// trace is a well-typed trace.
pub proof fn lemma_type_preservation(
    trace: TraceView,
    mutation: MutationView,
    sig: Seq<SymbolView>,
    config: MutationConfig,
)
    requires
        trace.well_typed(sig),
        applied(trace, mutation, sig, config) is Some,
    ensures
        applied(trace, mutation, sig, config).unwrap().well_typed(sig),
{
    let constraints = config.term_constraints;
    match mutation {
        MutationView::Replace { step, path, candidate } => {
            lemma_replaced_well_typed(trace, step, path, candidate, sig, constraints);
        },
        MutationView::Swap { step_a, path_a, step_b, path_b } => {
            let first = trace.steps[step_a].action->Input_0.subterm(path_a).unwrap();
            let second = trace.steps[step_b].action->Input_0.subterm(path_b).unwrap();
            lemma_replaced_well_typed(trace, step_a, path_a, second, sig, constraints);
            let half = replaced(trace, step_a, path_a, second, sig, constraints).unwrap();
            lemma_replaced_well_typed(half, step_b, path_b, first, sig, constraints);
        },
        MutationView::Repeat { step, at, fresh } => {
            lemma_repeated_well_typed(trace, step, at, fresh, config, sig);
        },
        MutationView::Remove { step } => {
            lemma_remove_step(trace, step, sig);
        },
        MutationView::Generate { step, path, depth, rolls } => {
            let target = trace.steps[step].action->Input_0.subterm(path).unwrap();
            let candidate = generated(sig, target.result_type(sig), depth, rolls).unwrap().0;
            lemma_replaced_well_typed(trace, step, path, candidate, sig, constraints);
        },
    }
}

/// What the first `n` of the mutations, applied one after another, make of
/// the trace; nothing where one of them does not apply.
pub open spec fn applied_all(
    trace: TraceView,
    mutations: Seq<MutationView>,
    n: nat,
    sig: Seq<SymbolView>,
    config: MutationConfig,
) -> Option<TraceView>
    decreases n,
{
    if n == 0 {
        Some(trace)
    } else if n > mutations.len() {
        None
    } else {
        match applied_all(trace, mutations, (n - 1) as nat, sig, config) {
            Some(before) => applied(before, mutations[n - 1], sig, config),
            None => None,
        }
    }
}

/// What the first `n` mutations make of a trace depends on those mutations
/// alone.
pub proof fn lemma_applied_all_agree(
    trace: TraceView,
    a: Seq<MutationView>,
    b: Seq<MutationView>,
    n: nat,
    sig: Seq<SymbolView>,
    config: MutationConfig,
)
    requires
        n <= a.len(),
        n <= b.len(),
        forall|k: int| 0 <= k < n ==> a[k] == b[k],
    ensures
        applied_all(trace, a, n, sig, config) == applied_all(trace, b, n, sig, config),
    decreases n,
{
    if n > 0 {
        lemma_applied_all_agree(trace, a, b, (n - 1) as nat, sig, config);
    }
}

/// The trace has at least as many steps as the shorter of `before` and the
/// shortest length, and at most as many as the longer of `before` and the
/// longest length.
pub open spec fn within_lengths(trace: TraceView, before: nat, config: MutationConfig) -> bool {
    &&& trace.steps.len() <= before || trace.steps.len() <= config.max_trace_length
    &&& trace.steps.len() >= before || trace.steps.len() >= config.min_trace_length
}

/// No mutation makes a trace longer than the longest length or shorter than
/// the shortest, and none changes the traces that run first or the
/// descriptors.
pub proof fn lemma_applied_bounds(
    trace: TraceView,
    mutation: MutationView,
    sig: Seq<SymbolView>,
    config: MutationConfig,
)
    requires
        applied(trace, mutation, sig, config) is Some,
    ensures
        within_lengths(applied(trace, mutation, sig, config).unwrap(), trace.steps.len(), config),
        applied(trace, mutation, sig, config).unwrap().prior_traces == trace.prior_traces,
        applied(trace, mutation, sig, config).unwrap().descriptors == trace.descriptors,
{
}

/// Applies one mutation to a trace.
pub fn apply(trace: &Trace, mutation: &Mutation, sig: &Signature, config: &MutationConfig) -> (r:
    Option<Trace>)
    ensures
        (match r {
            Some(mutant) => Some(mutant@),
            None => None,
        }) == applied(trace@, mutation@, sig@, *config),
        r matches Some(mutant) ==> (trace@.well_typed(sig@) ==> mutant@.well_typed(sig@)),
        r matches Some(mutant) ==> within_lengths(mutant@, trace@.steps.len(), *config),
        r matches Some(mutant) ==> mutant@.prior_traces == trace@.prior_traces && mutant@.descriptors
            == trace@.descriptors,
{
    proof {
        if applied(trace@, mutation@, sig@, *config) is Some {
            lemma_applied_bounds(trace@, mutation@, sig@, *config);
        }
    }
    match mutation {
        Mutation::Replace { step, path, candidate } => replace(
            trace,
            *step,
            path,
            candidate,
            sig,
            &config.term_constraints,
        ),
        Mutation::Swap { step_a, path_a, step_b, path_b } => swap(
            trace,
            *step_a,
            path_a,
            *step_b,
            path_b,
            sig,
            &config.term_constraints,
        ),
        Mutation::Repeat { step, at, fresh } => repeat(trace, *step, *at, *fresh, sig, config),
        Mutation::Remove { step } => remove(trace, *step, sig, config),
        Mutation::Generate { step, path, depth, rolls } => {
            proof {
                trace.lemma_view_parts();
            }
            if *step >= trace.steps.len() {
                return None;
            }
            let recipe = match &trace.steps[*step].action {
                Action::Output(_) => {
                    return None;
                },
                Action::Input(input) => &input.recipe,
            };
            let target = match recipe.subterm(path) {
                None => {
                    return None;
                },
                Some(target) => target,
            };
            let wanted = match target.result_type(sig) {
                None => {
                    return None;
                },
                Some(wanted) => wanted,
            };
            match generate(sig, wanted, *depth, rolls) {
                None => None,
                Some(candidate) => replace(
                    trace,
                    *step,
                    path,
                    &candidate,
                    sig,
                    &config.term_constraints,
                ),
            }
        },
    }
}

} // verus!
