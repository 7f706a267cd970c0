use tlspuffin::agent::{no_agent, AgentDescriptor, AgentName, TLSVersion};
use tlspuffin::algebra::{Signature, Symbol, Term, TypeShape};
use tlspuffin::trace::{Action, InputAction, OutputAction, Step, Trace};

const SESSION_ID: u32 = 2;

fn session_id() -> TypeShape {
    TypeShape::single(SESSION_ID)
}

/// 0: resume(session id) -> message
fn signature() -> Signature {
    Signature {
        functions: vec![Symbol {
            name: "resume".to_string(),
            inputs: vec![session_id()],
            output: TypeShape::single(8),
        }],
    }
}

fn resume(step: u64, index: u64) -> Term {
    Term::apply(0, vec![Term::variable(step, index, session_id())])
}

fn agent() -> AgentName {
    AgentName(7)
}

fn trace(steps: Vec<Step>) -> Trace {
    Trace {
        prior_traces: vec![],
        descriptors: vec![AgentDescriptor {
            name: agent(),
            tls_version: TLSVersion::V1_3,
            server: true,
        }],
        steps,
    }
}

fn ids(trace: &Trace) -> Vec<String> {
    trace
        .steps
        .iter()
        .map(|s| match &s.action {
            Action::Output(o) => format!("out{}", o.id),
            Action::Input(i) => match &i.recipe {
                Term::Application { args, .. } => match &args[0] {
                    Term::Variable { step, index, .. } => format!("in{}.{}", step, index),
                    _ => "in".to_string(),
                },
                _ => "in".to_string(),
            },
        })
        .collect()
}

#[test]
fn no_agent_is_zero() {
    assert_eq!(no_agent(), AgentName(0));
}

#[test]
fn steps_are_built_as_asked() {
    let out = OutputAction::new_step(agent(), 3);
    assert_eq!(out.agent, agent());
    assert!(matches!(out.action, Action::Output(OutputAction { id: 3 })));
    let input = InputAction::new_step(agent(), resume(3, 0));
    assert_eq!(input.agent, agent());
    assert!(matches!(input.action, Action::Input(_)));
}

#[test]
fn reference_to_an_earlier_output_is_valid() {
    let t = trace(vec![
        OutputAction::new_step(agent(), 0),
        InputAction::new_step(agent(), resume(0, 0)),
    ]);
    assert!(t.well_typed(&signature()));
    assert_eq!(t.len(), 2);
}

#[test]
fn forward_reference_fails_validation() {
    // The term of step 2 names step 5, which is produced later.
    let t = trace(vec![
        OutputAction::new_step(agent(), 0),
        OutputAction::new_step(agent(), 1),
        InputAction::new_step(agent(), resume(5, 0)),
        OutputAction::new_step(agent(), 3),
        OutputAction::new_step(agent(), 4),
        OutputAction::new_step(agent(), 5),
    ]);
    assert!(!t.well_typed(&signature()));
}

#[test]
fn reference_to_the_own_step_fails_validation() {
    let t = trace(vec![InputAction::new_step(agent(), resume(0, 0))]);
    assert!(!t.well_typed(&signature()));
}

#[test]
fn reference_to_what_is_never_produced_fails_validation() {
    let t = trace(vec![
        OutputAction::new_step(agent(), 0),
        InputAction::new_step(agent(), resume(1, 0)),
    ]);
    assert!(!t.well_typed(&signature()));
}

#[test]
fn ill_typed_term_fails_validation() {
    let t = trace(vec![
        OutputAction::new_step(agent(), 0),
        InputAction::new_step(
            agent(),
            Term::apply(0, vec![Term::variable(0, 0, TypeShape::single(9))]),
        ),
    ]);
    assert!(!t.well_typed(&signature()));
}

#[test]
fn prior_traces_produce_for_the_trace_that_follows() {
    let first = trace(vec![OutputAction::new_step(agent(), 4)]);
    let mut second = trace(vec![InputAction::new_step(agent(), resume(4, 0))]);
    assert!(!second.well_typed(&signature()));
    second.prior_traces.push(first);
    assert!(second.well_typed(&signature()));
    assert!(second.produces(4));
    assert!(!second.produces(5));
    assert_eq!(second.available_ids(0), vec![4]);
}

#[test]
fn an_ill_typed_prior_trace_fails_validation() {
    let first = trace(vec![InputAction::new_step(agent(), resume(0, 0))]);
    let mut second = trace(vec![OutputAction::new_step(agent(), 0)]);
    assert!(second.well_typed(&signature()));
    second.prior_traces.push(first);
    assert!(!second.well_typed(&signature()));
}

#[test]
fn available_ids_grow_with_the_position() {
    let t = trace(vec![
        OutputAction::new_step(agent(), 0),
        InputAction::new_step(agent(), resume(0, 0)),
        OutputAction::new_step(agent(), 9),
    ]);
    assert_eq!(t.available_ids(0), Vec::<u64>::new());
    assert_eq!(t.available_ids(1), vec![0]);
    assert_eq!(t.available_ids(2), vec![0]);
    assert_eq!(t.available_ids(3), vec![0, 9]);
    let mut all = Vec::new();
    t.collect_ids(&mut all);
    assert_eq!(all, vec![0, 9]);
}

#[test]
fn steps_are_inserted_pushed_and_removed() {
    let mut t = trace(vec![
        OutputAction::new_step(agent(), 0),
        InputAction::new_step(agent(), resume(0, 0)),
    ]);
    assert!(t.insert_step(1, OutputAction::new_step(agent(), 1)));
    assert_eq!(ids(&t), vec!["out0", "out1", "in0.0"]);
    assert!(t.insert_step(3, OutputAction::new_step(agent(), 2)));
    assert_eq!(ids(&t), vec!["out0", "out1", "in0.0", "out2"]);
    assert!(!t.insert_step(9, OutputAction::new_step(agent(), 3)));
    assert_eq!(t.len(), 4);
    t.push_step(InputAction::new_step(agent(), resume(2, 1)));
    assert_eq!(ids(&t), vec!["out0", "out1", "in0.0", "out2", "in2.1"]);
    assert!(t.remove_step(1));
    assert_eq!(ids(&t), vec!["out0", "in0.0", "out2", "in2.1"]);
    assert!(!t.remove_step(4));
    assert_eq!(t.len(), 4);
    assert!(t.well_typed(&signature()));
}

#[test]
fn recipes_are_set_on_input_steps_only() {
    let mut t = trace(vec![
        OutputAction::new_step(agent(), 0),
        InputAction::new_step(agent(), resume(0, 0)),
    ]);
    assert!(t.set_recipe(1, resume(0, 3)));
    assert_eq!(ids(&t), vec!["out0", "in0.3"]);
    assert!(!t.set_recipe(0, resume(0, 3)));
    assert!(!t.set_recipe(2, resume(0, 3)));
    assert_eq!(ids(&t), vec!["out0", "in0.3"]);
}

#[test]
fn duplicate_copies_steps_descriptors_and_prior_traces() {
    let first = trace(vec![OutputAction::new_step(agent(), 4)]);
    let mut second = trace(vec![InputAction::new_step(agent(), resume(4, 0))]);
    second.prior_traces.push(first);
    let copy = second.duplicate();
    assert_eq!(ids(&copy), ids(&second));
    assert_eq!(copy.prior_traces.len(), 1);
    assert_eq!(ids(&copy.prior_traces[0]), vec!["out4"]);
    assert_eq!(copy.descriptors, second.descriptors);
    let step = second.steps[0].duplicate();
    assert_eq!(step.agent, agent());
}

#[test]
fn traces_are_numbered_by_position_or_by_identifier() {
    let sig = signature();
    let by_position = trace(vec![
        OutputAction::new_step(agent(), 0),
        InputAction::new_step(agent(), resume(0, 0)),
        OutputAction::new_step(agent(), 2),
        InputAction::new_step(agent(), resume(2, 0)),
    ]);
    assert!(by_position.numbered_by_position());
    assert!(by_position.well_typed(&sig));
    // Identifiers that are no positions: the term of step 2 names 5, which
    // an earlier step stores under.
    let by_identifier = trace(vec![
        OutputAction::new_step(agent(), 5),
        OutputAction::new_step(agent(), 6),
        InputAction::new_step(agent(), resume(5, 0)),
    ]);
    assert!(by_identifier.well_typed(&sig));
    assert!(!by_identifier.numbered_by_position());
    // Numbered by position, a term that names 5 in step 2 is refused.
    let forward = trace(vec![
        OutputAction::new_step(agent(), 0),
        OutputAction::new_step(agent(), 1),
        InputAction::new_step(agent(), resume(5, 0)),
    ]);
    assert!(forward.numbered_by_position());
    assert!(!forward.well_typed(&sig));
    let mut with_prior = trace(vec![OutputAction::new_step(agent(), 0)]);
    assert!(with_prior.numbered_by_position());
    with_prior.prior_traces.push(trace(vec![]));
    assert!(!with_prior.numbered_by_position());
    assert!(trace(vec![]).numbered_by_position());
}
