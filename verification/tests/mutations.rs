use tlspuffin::agent::AgentName;
use tlspuffin::algebra::{Signature, Symbol, Term, TypeShape};
use tlspuffin::fuzzer::config::{
    FuzzerConfig, MutationConfig, MutationStageConfig, TermConstraints,
};
use tlspuffin::fuzzer::generate::generate;
use tlspuffin::fuzzer::mutations::{apply, is_prefix, remove, repeat, replace, swap, Mutation};
use tlspuffin::fuzzer::scheduled::{harvest, ScheduledMutator};
use tlspuffin::fuzzer::seeds::{
    seed_client_attacker, seed_client_attacker12, seed_session_resumption_dhe, seed_successful,
    seed_successful12,
};
use tlspuffin::tls::signature::tls_signature;
use tlspuffin::trace::{Action, InputAction, OutputAction, Trace};

const NUMBER: u32 = 1;
const TEXT: u32 = 2;

fn number() -> TypeShape {
    TypeShape::single(NUMBER)
}

fn text() -> TypeShape {
    TypeShape::single(TEXT)
}

/// 0: zero() -> number, 1: add(number, number) -> number, 2: show(number) -> text,
/// 3: one() -> number
fn signature() -> Signature {
    Signature {
        functions: vec![
            Symbol { name: "zero".to_string(), inputs: vec![], output: number() },
            Symbol { name: "add".to_string(), inputs: vec![number(), number()], output: number() },
            Symbol { name: "show".to_string(), inputs: vec![number()], output: text() },
            Symbol { name: "one".to_string(), inputs: vec![], output: number() },
        ],
    }
}

fn zero() -> Term {
    Term::apply(0, vec![])
}

fn one() -> Term {
    Term::apply(3, vec![])
}

fn add(a: Term, b: Term) -> Term {
    Term::apply(1, vec![a, b])
}

fn show(a: Term) -> Term {
    Term::apply(2, vec![a])
}

fn seen(step: u64) -> Term {
    Term::variable(step, 0, number())
}

fn write(t: &Term) -> String {
    match t {
        Term::Variable { step, index, .. } => format!("v{}.{}", step, index),
        Term::Application { symbol, args } => {
            let inner: Vec<String> = args.iter().map(write).collect();
            format!("f{}({})", symbol, inner.join(","))
        },
    }
}

fn outline(trace: &Trace) -> Vec<String> {
    trace
        .steps
        .iter()
        .map(|s| match &s.action {
            Action::Output(o) => format!("out{}", o.id),
            Action::Input(i) => write(&i.recipe),
        })
        .collect()
}

const A: AgentName = AgentName(1);

/// out0, show(add(zero, v0.0)), out1, show(v1.0)
fn trace() -> Trace {
    Trace {
        prior_traces: vec![],
        descriptors: vec![],
        steps: vec![
            OutputAction::new_step(A, 0),
            InputAction::new_step(A, show(add(zero(), seen(0)))),
            OutputAction::new_step(A, 1),
            InputAction::new_step(A, show(seen(1))),
        ],
    }
}

fn free() -> TermConstraints {
    TermConstraints { min_term_size: 0, max_term_size: 300 }
}

fn config() -> MutationConfig {
    MutationConfig {
        fresh_zoo_after: 3,
        max_trace_length: 6,
        min_trace_length: 2,
        term_constraints: free(),
    }
}

#[test]
fn defaults_are_those_of_a_campaign() {
    let stage = MutationStageConfig::default();
    assert_eq!(stage.max_iterations_per_stage, 256);
    assert_eq!(stage.max_mutations_per_iteration, 16);
    let mutation = MutationConfig::default();
    assert_eq!(mutation.fresh_zoo_after, 100000);
    assert_eq!(mutation.max_trace_length, 15);
    assert_eq!(mutation.min_trace_length, 2);
    assert_eq!(mutation.term_constraints, free());
    let mut fuzzer = FuzzerConfig {
        initial_corpus_dir: "corpus".to_string(),
        static_seed: None,
        max_iters: None,
        core_definition: "0".to_string(),
        monitor_file: "stats.json".to_string(),
        corpus_dir: "corpus".to_string(),
        objective_dir: "objective".to_string(),
        broker_port: 1337,
        minimizer: false,
        mutation_stage_config: stage,
        mutation_config: mutation,
        monitor: false,
        no_launcher: false,
        log_file: "log".to_string(),
    };
    assert_eq!(fuzzer.seed(7), 7);
    fuzzer.static_seed = Some(42);
    assert_eq!(fuzzer.seed(7), 42);
}

#[test]
fn replace_splices_a_candidate_of_the_same_type() {
    let sig = signature();
    let r = replace(&trace(), 1, &vec![0, 0], &add(one(), seen(0)), &sig, &free()).unwrap();
    assert_eq!(outline(&r), vec!["out0", "f2(f1(f1(f3(),v0.0),v0.0))", "out1", "f2(v1.0)"]);
    assert!(r.well_typed(&sig));
    // The trace that was mutated is as it was.
    let t = trace();
    let _ = replace(&t, 3, &vec![0], &zero(), &sig, &free()).unwrap();
    assert_eq!(outline(&t), outline(&trace()));
}

#[test]
fn replace_refuses_what_does_not_fit() {
    let sig = signature();
    let t = trace();
    // Another type.
    assert!(replace(&t, 1, &vec![0], &show(zero()), &sig, &free()).is_none());
    // A candidate that is not well-typed.
    assert!(replace(&t, 1, &vec![0], &Term::apply(1, vec![zero()]), &sig, &free()).is_none());
    // A candidate that names what is produced later.
    assert!(replace(&t, 1, &vec![0], &seen(1), &sig, &free()).is_none());
    assert!(replace(&t, 3, &vec![0], &seen(0), &sig, &free()).is_some());
    // An output step, a step that is not there, a path that leads nowhere.
    assert!(replace(&t, 0, &vec![], &zero(), &sig, &free()).is_none());
    assert!(replace(&t, 4, &vec![], &zero(), &sig, &free()).is_none());
    assert!(replace(&t, 1, &vec![1], &zero(), &sig, &free()).is_none());
}

#[test]
fn replace_keeps_the_bounds_on_the_size_of_terms() {
    let sig = signature();
    let t = trace();
    let small = TermConstraints { min_term_size: 0, max_term_size: 4 };
    assert!(replace(&t, 1, &vec![0, 0], &one(), &sig, &small).is_some());
    assert!(replace(&t, 1, &vec![0, 0], &add(one(), one()), &sig, &small).is_none());
    let exact = TermConstraints { min_term_size: 0, max_term_size: 6 };
    assert!(replace(&t, 1, &vec![0, 0], &add(one(), one()), &sig, &exact).is_some());
    let large = TermConstraints { min_term_size: 4, max_term_size: 300 };
    assert!(replace(&t, 1, &vec![0, 0], &one(), &sig, &large).is_some());
    assert!(replace(&t, 3, &vec![0], &one(), &sig, &large).is_none());
    let larger = TermConstraints { min_term_size: 5, max_term_size: 300 };
    assert!(replace(&t, 1, &vec![0, 0], &one(), &sig, &larger).is_none());
}

#[test]
fn swap_exchanges_two_subterms() {
    let sig = signature();
    let mut t = trace();
    t.set_recipe(3, show(add(one(), seen(0))));
    let r = swap(&t, 1, &vec![0, 0], 3, &vec![0], &sig, &free()).unwrap();
    assert_eq!(
        outline(&r),
        vec!["out0", "f2(f1(f1(f3(),v0.0),v0.0))", "out1", "f2(f0())"]
    );
    assert!(r.well_typed(&sig));
    let within = swap(&t, 1, &vec![0, 0], 1, &vec![0, 1], &sig, &free()).unwrap();
    assert_eq!(outline(&within)[1], "f2(f1(v0.0,f0()))");
}

#[test]
fn swap_refuses_what_does_not_fit() {
    let sig = signature();
    let t = trace();
    // One inside the other.
    assert!(swap(&t, 1, &vec![0], 1, &vec![0, 1], &sig, &free()).is_none());
    assert!(swap(&t, 1, &vec![0], 1, &vec![0], &sig, &free()).is_none());
    // Different types.
    assert!(swap(&t, 1, &vec![], 3, &vec![0], &sig, &free()).is_none());
    // What step 3 observes is not there yet for step 1.
    assert!(swap(&t, 1, &vec![0, 0], 3, &vec![0], &sig, &free()).is_none());
    // Output steps and paths that lead nowhere.
    assert!(swap(&t, 0, &vec![], 1, &vec![], &sig, &free()).is_none());
    assert!(swap(&t, 1, &vec![], 1, &vec![5], &sig, &free()).is_none());
    assert!(swap(&t, 1, &vec![], 9, &vec![], &sig, &free()).is_none());
}

#[test]
fn prefixes_are_recognised() {
    assert!(is_prefix(&vec![], &vec![]));
    assert!(is_prefix(&vec![], &vec![1]));
    assert!(is_prefix(&vec![1, 2], &vec![1, 2, 3]));
    assert!(is_prefix(&vec![1, 2], &vec![1, 2]));
    assert!(!is_prefix(&vec![1, 3], &vec![1, 2, 3]));
    assert!(!is_prefix(&vec![1, 2, 3], &vec![1, 2]));
}

#[test]
fn repeat_copies_a_step_behind_itself() {
    let sig = signature();
    let t = trace();
    let input = repeat(&t, 1, 4, 9, &sig, &config()).unwrap();
    assert_eq!(
        outline(&input),
        vec!["out0", "f2(f1(f0(),v0.0))", "out1", "f2(v1.0)", "f2(f1(f0(),v0.0))"]
    );
    assert!(input.well_typed(&sig));
    let output = repeat(&t, 0, 1, 9, &sig, &config()).unwrap();
    assert_eq!(
        outline(&output),
        vec!["out0", "out9", "f2(f1(f0(),v0.0))", "out1", "f2(v1.0)"]
    );
    assert_eq!(output.steps[1].agent, A);
    assert!(output.well_typed(&sig));
}

#[test]
fn repeat_refuses_what_does_not_fit() {
    let sig = signature();
    let t = trace();
    // The copy does not stand behind the step.
    assert!(repeat(&t, 1, 1, 9, &sig, &config()).is_none());
    assert!(repeat(&t, 1, 0, 9, &sig, &config()).is_none());
    assert!(repeat(&t, 1, 5, 9, &sig, &config()).is_none());
    assert!(repeat(&t, 4, 5, 9, &sig, &config()).is_none());
    // The identifier is in use.
    assert!(repeat(&t, 0, 1, 1, &sig, &config()).is_none());
    assert!(repeat(&t, 0, 1, 0, &sig, &config()).is_none());
    assert!(repeat(&t, 1, 2, 1, &sig, &config()).is_some());
    // The trace is as long as it may be.
    let mut full = config();
    full.max_trace_length = 4;
    assert!(repeat(&t, 1, 2, 9, &sig, &full).is_none());
    full.max_trace_length = 5;
    assert!(repeat(&t, 1, 2, 9, &sig, &full).is_some());
}

#[test]
fn remove_drops_a_step_that_nothing_depends_on() {
    let sig = signature();
    let t = trace();
    let r = remove(&t, 3, &sig, &config()).unwrap();
    assert_eq!(outline(&r), vec!["out0", "f2(f1(f0(),v0.0))", "out1"]);
    assert!(r.well_typed(&sig));
    let again = remove(&r, 2, &sig, &config()).unwrap();
    assert_eq!(outline(&again), vec!["out0", "f2(f1(f0(),v0.0))"]);
    assert!(again.well_typed(&sig));
}

#[test]
fn remove_refuses_what_does_not_fit() {
    let sig = signature();
    let t = trace();
    // Later steps name what the step produces.
    assert!(remove(&t, 0, &sig, &config()).is_none());
    assert!(remove(&t, 2, &sig, &config()).is_none());
    // No such step.
    assert!(remove(&t, 4, &sig, &config()).is_none());
    // The trace is as short as it may be.
    let mut short = config();
    short.min_trace_length = 4;
    assert!(remove(&t, 3, &sig, &short).is_none());
    short.min_trace_length = 3;
    assert!(remove(&t, 3, &sig, &short).is_some());
}

#[test]
fn generate_follows_the_rolls() {
    let sig = signature();
    // The symbols that give a number are zero, add and one, in this order.
    assert_eq!(sig.producers(number()), vec![0, 1, 3]);
    assert_eq!(sig.producers(text()), vec![2]);
    assert!(sig.producers(TypeShape::single(9)).is_empty());
    assert_eq!(write(&generate(&sig, number(), 5, &vec![0]).unwrap()), "f0()");
    assert_eq!(write(&generate(&sig, number(), 5, &vec![5]).unwrap()), "f3()");
    assert_eq!(write(&generate(&sig, number(), 5, &vec![1, 3, 2]).unwrap()), "f1(f0(),f3())");
    assert_eq!(
        write(&generate(&sig, text(), 5, &vec![7, 1, 4, 0, 2, 9, 9]).unwrap()),
        "f2(f1(f1(f0(),f3()),f0()))"
    );
}

#[test]
fn generate_gives_nothing_without_rolls_depth_or_symbols() {
    let sig = signature();
    assert!(generate(&sig, number(), 5, &vec![]).is_none());
    assert!(generate(&sig, number(), 0, &vec![0]).is_none());
    assert!(generate(&sig, number(), 5, &vec![1, 0]).is_none());
    assert!(generate(&sig, number(), 1, &vec![1, 0, 0]).is_none());
    assert!(generate(&sig, number(), 2, &vec![1, 0, 0]).is_some());
    assert!(generate(&sig, TypeShape::single(9), 5, &vec![0, 0]).is_none());
    assert!(generate(&sig, TypeShape::many(NUMBER), 5, &vec![0, 0]).is_none());
}

#[test]
fn generated_terms_are_well_typed_closed_and_no_larger_than_the_rolls() {
    let sig = tls_signature();
    let mut state: u64 = 11;
    let mut found = 0;
    for n in 0..60usize {
        let mut rolls = vec![];
        for _ in 0..(1 + n % 40) {
            state = state.wrapping_mul(6364136223846793005).wrapping_add(1442695040888963407);
            rolls.push(state >> 33);
        }
        let output = sig.functions[n % sig.functions.len()].output;
        if let Some(t) = generate(&sig, output, 8, &rolls) {
            found += 1;
            assert!(t.well_typed(&sig));
            assert_eq!(t.result_type(&sig), Some(output));
            assert!(t.refers_within(&vec![]));
            assert!(t.size_within(rolls.len()).is_some());
        }
    }
    assert!(found > 0);
}

#[test]
fn mutations_are_applied_by_description() {
    let sig = signature();
    let t = trace();
    let c = config();
    let r = apply(&t, &Mutation::Remove { step: 3 }, &sig, &c).unwrap();
    assert_eq!(outline(&r), outline(&remove(&t, 3, &sig, &c).unwrap()));
    let r = apply(&t, &Mutation::Repeat { step: 0, at: 2, fresh: 5 }, &sig, &c).unwrap();
    assert_eq!(outline(&r), outline(&repeat(&t, 0, 2, 5, &sig, &c).unwrap()));
    let m = Mutation::Replace { step: 3, path: vec![0], candidate: one() };
    assert_eq!(outline(&apply(&t, &m, &sig, &c).unwrap())[3], "f2(f3())");
    let m = Mutation::Swap { step_a: 1, path_a: vec![0, 0], step_b: 1, path_b: vec![0, 1] };
    assert_eq!(outline(&apply(&t, &m, &sig, &c).unwrap())[1], "f2(f1(v0.0,f0()))");
    let m = Mutation::Generate { step: 3, path: vec![0], depth: 4, rolls: vec![1, 0, 2] };
    assert_eq!(outline(&apply(&t, &m, &sig, &c).unwrap())[3], "f2(f1(f0(),f3()))");
    let m = Mutation::Generate { step: 3, path: vec![0], depth: 4, rolls: vec![] };
    assert!(apply(&t, &m, &sig, &c).is_none());
    let m = Mutation::Generate { step: 2, path: vec![], depth: 4, rolls: vec![0] };
    assert!(apply(&t, &m, &sig, &c).is_none());
    assert!(apply(&t, &Mutation::Remove { step: 0 }, &sig, &c).is_none());
}

#[test]
fn every_mutation_of_a_well_typed_trace_is_well_typed() {
    let sig = signature();
    let t = trace();
    let c = config();
    let candidates = vec![zero(), one(), seen(0), seen(1), add(one(), seen(0)), show(zero())];
    let mut applied = 0;
    for step in 0..5 {
        for at in 0..6 {
            for m in [Mutation::Repeat { step, at, fresh: 7 }, Mutation::Remove { step }] {
                if let Some(r) = apply(&t, &m, &sig, &c) {
                    applied += 1;
                    assert!(r.well_typed(&sig));
                }
            }
        }
        for path in [vec![], vec![0], vec![0, 0], vec![0, 1], vec![1]] {
            for candidate in &candidates {
                let m = Mutation::Replace {
                    step,
                    path: path.clone(),
                    candidate: candidate.duplicate(),
                };
                if let Some(r) = apply(&t, &m, &sig, &c) {
                    applied += 1;
                    assert!(r.well_typed(&sig));
                }
            }
            for other in [vec![], vec![0], vec![0, 0], vec![0, 1]] {
                for step_b in 0..4 {
                    let m = Mutation::Swap {
                        step_a: step,
                        path_a: path.clone(),
                        step_b,
                        path_b: other.clone(),
                    };
                    if let Some(r) = apply(&t, &m, &sig, &c) {
                        applied += 1;
                        assert!(r.well_typed(&sig));
                    }
                }
            }
        }
    }
    assert!(applied > 20);
}

#[test]
fn the_pool_holds_every_subterm_of_the_corpus() {
    let corpus = vec![trace(), trace()];
    let zoo: Vec<String> = harvest(&corpus).iter().map(write).collect();
    let once = vec!["f2(f1(f0(),v0.0))", "f1(f0(),v0.0)", "f0()", "v0.0", "f2(v1.0)", "v1.0"];
    let twice: Vec<String> = once.iter().chain(once.iter()).map(|s| s.to_string()).collect();
    assert_eq!(zoo, twice);
    assert!(harvest(&vec![]).is_empty());
}

#[test]
fn the_mutator_keeps_traces_well_typed_and_within_bounds() {
    let sig = tls_signature();
    let corpus = vec![
        seed_successful(AgentName(1), AgentName(2)),
        seed_successful12(AgentName(1), AgentName(2)),
        seed_client_attacker(AgentName(2)),
        seed_client_attacker12(AgentName(2)),
        seed_session_resumption_dhe(AgentName(2)),
    ];
    let config = MutationConfig {
        fresh_zoo_after: 10,
        max_trace_length: 15,
        min_trace_length: 2,
        term_constraints: TermConstraints { min_term_size: 0, max_term_size: 60 },
    };
    let stage = MutationStageConfig { max_iterations_per_stage: 1, max_mutations_per_iteration: 8 };
    let mut mutator = ScheduledMutator::new(config, stage, 42);
    assert!(mutator.zoo.is_empty());
    let mut total = 0;
    for round in 0..40 {
        let mut trace = corpus[round % corpus.len()].duplicate();
        let before = trace.len();
        let count = mutator.mutate(&mut trace, &corpus, &sig);
        assert!(count <= 8);
        total += count;
        assert!(trace.well_typed(&sig));
        assert!(trace.len() <= before.max(15));
        assert!(trace.len() >= before.min(2));
        assert_eq!(mutator.invocations, round as u64 + 1);
        assert!(!mutator.zoo.is_empty());
    }
    assert!(total > 0);
}

#[test]
fn the_mutator_is_reproducible_from_its_seed() {
    let sig = tls_signature();
    let corpus = vec![seed_successful(AgentName(1), AgentName(2))];
    let stage = MutationStageConfig { max_iterations_per_stage: 1, max_mutations_per_iteration: 8 };
    let mut outlines = vec![];
    for _ in 0..2 {
        let mut mutator = ScheduledMutator::new(MutationConfig::default(), stage, 7);
        let mut trace = corpus[0].duplicate();
        let mut counts = vec![];
        for _ in 0..10 {
            counts.push(mutator.mutate(&mut trace, &corpus, &sig));
        }
        outlines.push((counts, outline(&trace)));
    }
    assert_eq!(outlines[0], outlines[1]);
}

#[test]
fn the_pool_is_drawn_anew_when_it_is_due() {
    let sig = signature();
    let stage = MutationStageConfig { max_iterations_per_stage: 1, max_mutations_per_iteration: 0 };
    let mut mutator = ScheduledMutator::new(config(), stage, 1);
    let mut t = trace();
    let first = vec![trace()];
    let second: Vec<Trace> = vec![];
    // Due at the first invocation, then at every third.
    assert_eq!(mutator.mutate(&mut t, &first, &sig), 0);
    assert_eq!(mutator.zoo.len(), 6);
    assert_eq!(mutator.mutate(&mut t, &second, &sig), 0);
    assert_eq!(mutator.mutate(&mut t, &second, &sig), 0);
    assert_eq!(mutator.zoo.len(), 6);
    assert_eq!(mutator.invocations, 3);
    assert_eq!(mutator.mutate(&mut t, &second, &sig), 0);
    assert_eq!(mutator.zoo.len(), 0);
    assert_eq!(outline(&t), outline(&trace()));
    mutator.invocations = u64::MAX;
    mutator.mutate(&mut t, &first, &sig);
    assert_eq!(mutator.invocations, 0);
}
