use tlspuffin::agent::{Agent, AgentDescriptor, AgentName, TLSVersion};
use tlspuffin::algebra::{Term, TypeShape};
use tlspuffin::evaluation::{EvalError, Procedures};
use tlspuffin::execution::{ExecutionState, FailureReason, TraceContext};
use tlspuffin::knowledge::{Knowledge, Observation};
use tlspuffin::policy::{Agreement, Claim};
use tlspuffin::put::{Progress, Put, PutError};
use tlspuffin::stream::MemoryStream;
use tlspuffin::tls::recipes::{app0, app1, app6, var};
use tlspuffin::tls::signature::{
    tls_signature, BYTES, FN_APPLICATION_DATA, FN_CLIENT_EXTENSIONS_NEW, FN_CLIENT_HELLO,
    FN_COMPRESSIONS, FN_FINISHED, FN_NEW_CIPHER_SUITES, FN_NEW_RANDOM, FN_NEW_SESSION_ID,
    FN_PROTOCOL_VERSION12, MESSAGE,
};
use tlspuffin::trace::{InputAction, OutputAction, Trace};

const TRANSCRIPT_HASH: u32 = 1;

/// Every symbol gives its position and then its arguments; `fn_finished`
/// refuses an empty argument.
struct Tagging;

impl Procedures for Tagging {
    fn apply(&self, symbol: usize, args: &Vec<Vec<u8>>) -> Result<Vec<u8>, String> {
        if symbol == FN_FINISHED && args[0].is_empty() {
            return Err("nothing to finish".to_string());
        }
        let mut out = vec![symbol as u8];
        for a in args {
            out.extend_from_slice(a);
        }
        Ok(out)
    }
}

/// A peer that plays back a script: the answers to the requests to advance,
/// one after another, and whether it takes what it is handed.
struct Scripted {
    answers: Vec<Result<(Vec<u8>, Vec<Claim>), PutError>>,
    accepts: bool,
    expected_deliveries: usize,
    delivered: Vec<Vec<u8>>,
    progressed: usize,
    resets: usize,
}

impl Scripted {
    fn new(answers: Vec<Result<(Vec<u8>, Vec<Claim>), PutError>>, expected: usize) -> Scripted {
        Scripted {
            answers,
            accepts: true,
            expected_deliveries: expected,
            delivered: vec![],
            progressed: 0,
            resets: 0,
        }
    }
}

impl Put for Scripted {
    fn progress(&mut self, _agent: AgentName) -> Result<Progress, PutError> {
        self.progressed += 1;
        if self.answers.is_empty() {
            return Err(PutError::ConnectionClosed);
        }
        match self.answers.remove(0) {
            Ok((record, claims)) => Ok(Progress { record, claims }),
            Err(e) => Err(e),
        }
    }

    fn deliver(&mut self, _agent: AgentName, bytes: &Vec<u8>) -> Result<(), PutError> {
        if self.accepts {
            self.delivered.push(bytes.clone());
            Ok(())
        } else {
            Err(PutError::Rejected)
        }
    }

    fn reset(&mut self) {
        self.resets += 1;
        self.delivered.clear();
    }

    fn is_state_successful(&self) -> bool {
        self.answers.is_empty() && self.delivered.len() == self.expected_deliveries
    }
}

fn record(content_type: u8, payload: &[u8]) -> Vec<u8> {
    let mut r = vec![content_type, 3, 3, (payload.len() / 256) as u8, (payload.len() % 256) as u8];
    r.extend_from_slice(payload);
    r
}

fn claim(agent: AgentName, data: &[u8]) -> Claim {
    Claim { agent, kind: TRANSCRIPT_HASH, data: data.to_vec() }
}

fn policy() -> Agreement {
    Agreement { kinds: vec![TRANSCRIPT_HASH] }
}

fn descriptors(client: AgentName, server: AgentName) -> Vec<AgentDescriptor> {
    vec![
        AgentDescriptor { name: client, tls_version: TLSVersion::V1_3, server: false },
        AgentDescriptor { name: server, tls_version: TLSVersion::V1_3, server: true },
    ]
}

fn default_client_hello() -> Term {
    app6(
        FN_CLIENT_HELLO,
        app0(FN_PROTOCOL_VERSION12),
        app0(FN_NEW_RANDOM),
        app0(FN_NEW_SESSION_ID),
        app0(FN_NEW_CIPHER_SUITES),
        app0(FN_COMPRESSIONS),
        app0(FN_CLIENT_EXTENSIONS_NEW),
    )
}

fn message(step: u64, index: u64) -> Term {
    var(step, index, TypeShape::single(MESSAGE))
}

fn forwarded(step: u64, index: u64) -> Term {
    app1(FN_APPLICATION_DATA, var(step, index, TypeShape::single(BYTES)))
}

/// Two agents; the client sends one record, the server two.
fn handshake(
    client_answers: Vec<Result<(Vec<u8>, Vec<Claim>), PutError>>,
    server_answers: Vec<Result<(Vec<u8>, Vec<Claim>), PutError>>,
) -> (TraceContext<Scripted>, Trace, AgentName, AgentName) {
    let mut ctx: TraceContext<Scripted> = TraceContext::new();
    let client = ctx.new_agent(Scripted::new(client_answers, 2));
    let server = ctx.new_agent(Scripted::new(server_answers, 1));
    let trace = Trace {
        prior_traces: vec![],
        descriptors: descriptors(client, server),
        steps: vec![
            OutputAction::new_step(client, 0),
            InputAction::new_step(server, default_client_hello()),
            OutputAction::new_step(server, 1),
            InputAction::new_step(client, message(1, 0)),
            InputAction::new_step(client, forwarded(1, 0)),
        ],
    };
    (ctx, trace, client, server)
}

fn server_flight() -> Vec<u8> {
    [record(22, &[2, 0, 0, 0]), record(23, &[0xde, 0xad])].concat()
}

#[test]
fn output_then_input_finishes() {
    let sig = tls_signature();
    let mut ctx: TraceContext<Scripted> = TraceContext::new();
    let hello = record(22, &[0xaa, 0xbb]);
    let a = ctx.new_agent(Scripted::new(vec![Ok((hello.clone(), vec![]))], 1));
    let trace = Trace {
        prior_traces: vec![],
        descriptors: vec![],
        steps: vec![OutputAction::new_step(a, 0), InputAction::new_step(a, message(0, 0))],
    };
    assert!(trace.well_typed(&sig));
    trace.execute(&mut ctx, &sig, &Tagging, &policy());
    assert!(matches!(ctx.state, ExecutionState::Finished));
    assert_eq!(ctx.knowledge.len(), 2);
    assert_eq!(ctx.knowledge[0].data, hello);
    assert_eq!(ctx.agents[0].put.delivered, vec![hello.clone()]);
    assert_eq!(ctx.agents[0].stream.incoming, hello);
    assert_eq!(ctx.agents[0].stream.outgoing, hello);
    assert!(ctx.is_productive());
}

#[test]
fn full_handshake_finishes_with_both_agents_successful() {
    let sig = tls_signature();
    let hello = record(22, &[1, 0, 0, 0]);
    let (mut ctx, trace, client, server) =
        handshake(vec![Ok((hello.clone(), vec![]))], vec![Ok((server_flight(), vec![]))]);
    assert!(trace.well_typed(&sig));
    trace.execute(&mut ctx, &sig, &Tagging, &policy());
    assert!(matches!(ctx.state, ExecutionState::Finished));
    assert!(ctx.is_productive());
    assert!(!ctx.is_objective());
    assert!(ctx.agents[0].put.is_state_successful());
    assert!(ctx.agents[1].put.is_state_successful());
    // Every record is stored as a message and as an opaque message, and the
    // fragment of application data as a byte string.
    let keys: Vec<(u64, u64, TypeShape)> =
        ctx.knowledge.iter().map(|k| (k.step, k.index, k.typ)).collect();
    let opaque = TypeShape::single(tlspuffin::tls::signature::OPAQUE_MESSAGE);
    assert_eq!(
        keys,
        vec![
            (0, 0, TypeShape::single(MESSAGE)),
            (0, 0, opaque),
            (1, 0, TypeShape::single(MESSAGE)),
            (1, 0, opaque),
            (1, 1, TypeShape::single(MESSAGE)),
            (1, 1, opaque),
            (1, 0, TypeShape::single(BYTES)),
        ]
    );
    assert_eq!(ctx.knowledge[0].data, hello);
    assert_eq!(ctx.knowledge[2].data, record(22, &[2, 0, 0, 0]));
    assert_eq!(ctx.knowledge[6].data, vec![0xde, 0xad]);
    // The server was handed the client hello that the term stands for.
    let expected_hello = vec![
        FN_CLIENT_HELLO as u8,
        FN_PROTOCOL_VERSION12 as u8,
        FN_NEW_RANDOM as u8,
        FN_NEW_SESSION_ID as u8,
        FN_NEW_CIPHER_SUITES as u8,
        FN_COMPRESSIONS as u8,
        FN_CLIENT_EXTENSIONS_NEW as u8,
    ];
    let s = ctx.find_agent(server).unwrap();
    let c = ctx.find_agent(client).unwrap();
    assert_eq!(ctx.agents[s].put.delivered, vec![expected_hello]);
    assert_eq!(
        ctx.agents[c].put.delivered,
        vec![record(22, &[2, 0, 0, 0]), vec![FN_APPLICATION_DATA as u8, 0xde, 0xad]]
    );
    assert_eq!(ctx.agents[s].stream.outgoing, server_flight());
}

#[test]
fn a_violation_halts_the_run_at_its_step() {
    let sig = tls_signature();
    let mut ctx: TraceContext<Scripted> = TraceContext::new();
    let client = ctx.new_agent(Scripted::new(vec![], 0));
    let server = ctx.new_agent(Scripted::new(vec![], 0));
    ctx.agents[0].put.answers =
        vec![Ok((record(22, &[1]), vec![claim(client, &[0x11])])), Ok((record(22, &[3]), vec![]))];
    ctx.agents[1].put.answers = vec![Ok((record(22, &[2]), vec![claim(server, &[0x22])]))];
    let trace = Trace {
        prior_traces: vec![],
        descriptors: descriptors(client, server),
        steps: vec![
            OutputAction::new_step(client, 0),
            OutputAction::new_step(server, 1),
            OutputAction::new_step(client, 2),
            InputAction::new_step(server, message(0, 0)),
        ],
    };
    trace.execute(&mut ctx, &sig, &Tagging, &policy());
    match &ctx.state {
        ExecutionState::ViolationDetected(v) => {
            assert_eq!(v.first_agent, client);
            assert_eq!(v.second_agent, server);
            assert_eq!(v.first_value, vec![0x11]);
            assert_eq!(v.second_value, vec![0x22]);
            assert_eq!(v.describe(), "11 != 22");
        },
        _ => panic!("a violation was expected"),
    }
    assert!(ctx.is_objective());
    // The remaining steps did not run.
    assert_eq!(ctx.agents[0].put.progressed, 1);
    assert_eq!(ctx.agents[1].put.progressed, 1);
    assert!(ctx.agents[1].put.delivered.is_empty());
    assert_eq!(ctx.knowledge.len(), 4);
    assert_eq!(ctx.claims.len(), 2);
}

#[test]
fn replay_finds_the_same_violation() {
    let sig = tls_signature();
    let mut descriptions = vec![];
    let mut logs = vec![];
    for _ in 0..2 {
        let mut ctx: TraceContext<Scripted> = TraceContext::new();
        ctx.agents.push(Agent::named(
            AgentName(1),
            Scripted::new(vec![Ok((record(22, &[1]), vec![claim(AgentName(1), &[0xa0])]))], 0),
        ));
        ctx.agents.push(Agent::named(
            AgentName(2),
            Scripted::new(vec![Ok((record(22, &[2]), vec![claim(AgentName(2), &[0xb0])]))], 0),
        ));
        let trace = Trace {
            prior_traces: vec![],
            descriptors: descriptors(AgentName(1), AgentName(2)),
            steps: vec![
                OutputAction::new_step(AgentName(1), 0),
                OutputAction::new_step(AgentName(2), 1),
            ],
        };
        trace.execute(&mut ctx, &sig, &Tagging, &policy());
        match &ctx.state {
            ExecutionState::ViolationDetected(v) => descriptions.push(v.describe()),
            _ => panic!("a violation was expected"),
        }
        logs.push(ctx.claims.iter().map(|c| (c.agent, c.kind, c.data.clone())).collect::<Vec<_>>());
    }
    assert_eq!(descriptions[0], "a0 != b0");
    assert_eq!(descriptions[0], descriptions[1]);
    assert_eq!(logs[0], logs[1]);
}

#[test]
fn a_term_without_value_fails_the_run() {
    let sig = tls_signature();
    let mut ctx: TraceContext<Scripted> = TraceContext::new();
    let a = ctx.new_agent(Scripted::new(vec![Ok((record(22, &[1]), vec![]))], 0));
    let trace = Trace {
        prior_traces: vec![],
        descriptors: vec![],
        steps: vec![
            OutputAction::new_step(a, 0),
            InputAction::new_step(a, message(0, 1)),
            OutputAction::new_step(a, 1),
        ],
    };
    trace.execute(&mut ctx, &sig, &Tagging, &policy());
    assert!(matches!(
        ctx.state,
        ExecutionState::Failed(FailureReason::CraftingError(EvalError::KnowledgeNotFound))
    ));
    assert!(ctx.agents[0].put.delivered.is_empty());
    assert_eq!(ctx.agents[0].put.progressed, 1);
}

#[test]
fn a_domain_error_fails_the_run_with_its_reason() {
    let sig = tls_signature();
    let mut ctx: TraceContext<Scripted> = TraceContext::new();
    let a = ctx.new_agent(Scripted::new(vec![Ok((record(23, &[]), vec![]))], 0));
    let trace = Trace {
        prior_traces: vec![],
        descriptors: vec![],
        steps: vec![
            OutputAction::new_step(a, 0),
            InputAction::new_step(
                a,
                app1(FN_FINISHED, var(0, 0, TypeShape::single(BYTES))),
            ),
        ],
    };
    assert!(trace.well_typed(&sig));
    trace.execute(&mut ctx, &sig, &Tagging, &policy());
    match &ctx.state {
        ExecutionState::Failed(FailureReason::CraftingError(EvalError::Domain(reason))) => {
            assert_eq!(reason, "nothing to finish")
        },
        _ => panic!("a domain error was expected"),
    }
}

#[test]
fn an_ill_typed_trace_is_rejected_before_execution() {
    let sig = tls_signature();
    let mut ctx: TraceContext<Scripted> = TraceContext::new();
    let a = ctx.new_agent(Scripted::new(vec![Ok((record(22, &[1]), vec![]))], 0));
    let trace = Trace {
        prior_traces: vec![],
        descriptors: vec![],
        steps: vec![
            OutputAction::new_step(a, 0),
            InputAction::new_step(a, Term::apply(FN_CLIENT_HELLO, vec![])),
        ],
    };
    assert!(!trace.well_typed(&sig));
    trace.execute(&mut ctx, &sig, &Tagging, &policy());
    assert!(matches!(ctx.state, ExecutionState::Failed(FailureReason::IllTyped)));
    assert_eq!(ctx.agents[0].put.progressed, 0);
    assert!(ctx.knowledge.is_empty());
}

#[test]
fn a_forward_reference_is_rejected_before_execution() {
    let sig = tls_signature();
    let mut ctx: TraceContext<Scripted> = TraceContext::new();
    let a = ctx.new_agent(Scripted::new(vec![Ok((record(22, &[1]), vec![]))], 0));
    let session_id = TypeShape::single(tlspuffin::tls::signature::SESSION_ID);
    let recipe = app6(
        FN_CLIENT_HELLO,
        app0(FN_PROTOCOL_VERSION12),
        app0(FN_NEW_RANDOM),
        var(5, 0, session_id),
        app0(FN_NEW_CIPHER_SUITES),
        app0(FN_COMPRESSIONS),
        app0(FN_CLIENT_EXTENSIONS_NEW),
    );
    assert!(recipe.well_typed(&sig));
    let mut steps = vec![
        OutputAction::new_step(a, 0),
        OutputAction::new_step(a, 1),
        InputAction::new_step(a, recipe),
    ];
    for id in 3..6 {
        steps.push(OutputAction::new_step(a, id));
    }
    let trace = Trace { prior_traces: vec![], descriptors: vec![], steps };
    assert!(!trace.well_typed(&sig));
    trace.execute(&mut ctx, &sig, &Tagging, &policy());
    assert!(matches!(ctx.state, ExecutionState::Failed(FailureReason::IllTyped)));
    assert_eq!(ctx.agents[0].put.progressed, 0);
}

#[test]
fn a_step_with_an_ill_typed_term_fails_as_a_mismatch() {
    let sig = tls_signature();
    let mut ctx: TraceContext<Scripted> = TraceContext::new();
    let a = ctx.new_agent(Scripted::new(vec![], 0));
    let step = InputAction::new_step(a, Term::apply(FN_CLIENT_HELLO, vec![]));
    ctx.state = ExecutionState::Running;
    step.execute(&mut ctx, &sig, &Tagging, &policy());
    assert!(matches!(
        ctx.state,
        ExecutionState::Failed(FailureReason::CraftingError(EvalError::TypeMismatch))
    ));
    assert!(ctx.agents[0].put.delivered.is_empty());
}

#[test]
fn a_step_for_an_unknown_agent_fails_the_run() {
    let sig = tls_signature();
    let mut ctx: TraceContext<Scripted> = TraceContext::new();
    ctx.agents.push(Agent::named(AgentName(1), Scripted::new(vec![], 0)));
    let trace = Trace {
        prior_traces: vec![],
        descriptors: vec![],
        steps: vec![OutputAction::new_step(AgentName(5), 0)],
    };
    trace.execute(&mut ctx, &sig, &Tagging, &policy());
    match ctx.state {
        ExecutionState::Failed(FailureReason::UnknownAgent(name)) => {
            assert_eq!(name, AgentName(5))
        },
        _ => panic!("an unknown agent was expected"),
    }
}

#[test]
fn failures_of_the_peer_are_recorded_and_the_run_goes_on() {
    let sig = tls_signature();
    let mut ctx: TraceContext<Scripted> = TraceContext::new();
    let mut peer = Scripted::new(vec![Err(PutError::TimedOut), Ok((record(22, &[9]), vec![]))], 0);
    peer.accepts = false;
    let a = ctx.new_agent(peer);
    let trace = Trace {
        prior_traces: vec![],
        descriptors: vec![],
        steps: vec![
            OutputAction::new_step(a, 0),
            OutputAction::new_step(a, 1),
            InputAction::new_step(a, message(1, 0)),
        ],
    };
    trace.execute(&mut ctx, &sig, &Tagging, &policy());
    assert!(matches!(ctx.state, ExecutionState::Finished));
    assert!(!ctx.is_productive());
    assert_eq!(ctx.faults, vec![PutError::TimedOut, PutError::Rejected]);
    assert_eq!(ctx.knowledge.len(), 2);
    assert_eq!(ctx.knowledge[0].step, 1);
    assert!(ctx.agents[0].stream.incoming.is_empty());
}

#[test]
fn prior_traces_run_first_and_their_failure_fails_the_run() {
    let sig = tls_signature();
    let mut ctx: TraceContext<Scripted> = TraceContext::new();
    let a = ctx.new_agent(Scripted::new(
        vec![Ok((record(22, &[1]), vec![])), Ok((record(22, &[2]), vec![]))],
        1,
    ));
    let first = Trace {
        prior_traces: vec![],
        descriptors: vec![],
        steps: vec![OutputAction::new_step(a, 0)],
    };
    let second = Trace {
        prior_traces: vec![first],
        descriptors: vec![],
        steps: vec![OutputAction::new_step(a, 1), InputAction::new_step(a, message(0, 0))],
    };
    assert!(second.well_typed(&sig));
    second.execute(&mut ctx, &sig, &Tagging, &policy());
    assert!(matches!(ctx.state, ExecutionState::Finished));
    assert_eq!(ctx.knowledge.iter().map(|k| k.step).collect::<Vec<_>>(), vec![0, 0, 1, 1]);
    assert_eq!(ctx.agents[0].put.delivered, vec![record(22, &[1])]);

    let mut ctx: TraceContext<Scripted> = TraceContext::new();
    let b = ctx.new_agent(Scripted::new(vec![], 0));
    let failing = Trace {
        prior_traces: vec![],
        descriptors: vec![],
        steps: vec![OutputAction::new_step(b, 7), InputAction::new_step(b, message(7, 0))],
    };
    let after = Trace {
        prior_traces: vec![failing],
        descriptors: vec![],
        steps: vec![OutputAction::new_step(b, 0)],
    };
    assert!(after.well_typed(&sig));
    after.execute(&mut ctx, &sig, &Tagging, &policy());
    assert!(matches!(
        ctx.state,
        ExecutionState::Failed(FailureReason::CraftingError(EvalError::KnowledgeNotFound))
    ));
    assert_eq!(ctx.agents[0].put.progressed, 1);
}

#[test]
fn a_run_that_has_ended_is_not_run_again() {
    let sig = tls_signature();
    let mut ctx: TraceContext<Scripted> = TraceContext::new();
    let a = ctx.new_agent(Scripted::new(
        vec![Ok((record(22, &[1]), vec![])), Ok((record(22, &[2]), vec![]))],
        0,
    ));
    let trace = Trace {
        prior_traces: vec![],
        descriptors: vec![],
        steps: vec![OutputAction::new_step(a, 0)],
    };
    assert!(ctx.is_fresh());
    trace.execute(&mut ctx, &sig, &Tagging, &policy());
    assert!(!ctx.is_fresh());
    assert!(!ctx.is_running());
    trace.execute(&mut ctx, &sig, &Tagging, &policy());
    assert_eq!(ctx.agents[0].put.progressed, 1);
    assert_eq!(ctx.knowledge.len(), 2);
    ctx.reset();
    assert!(ctx.is_fresh());
    assert!(ctx.knowledge.is_empty());
    assert!(ctx.agents[0].stream.outgoing.is_empty());
    assert_eq!(ctx.agents[0].put.resets, 1);
    assert_eq!(ctx.agents[0].name, a);
    trace.execute(&mut ctx, &sig, &Tagging, &policy());
    assert_eq!(ctx.knowledge[0].data, record(22, &[2]));
}

#[test]
fn an_empty_trace_finishes() {
    let sig = tls_signature();
    let mut ctx: TraceContext<Scripted> = TraceContext::new();
    let trace = Trace { prior_traces: vec![], descriptors: vec![], steps: vec![] };
    trace.execute(&mut ctx, &sig, &Tagging, &policy());
    assert!(matches!(ctx.state, ExecutionState::Finished));
}

#[test]
fn observations_are_indexed_by_type() {
    let mut ctx: TraceContext<Scripted> = TraceContext::new();
    let m = TypeShape::single(MESSAGE);
    let b = TypeShape::single(BYTES);
    let seen = vec![
        Observation { typ: m, data: vec![1] },
        Observation { typ: b, data: vec![2] },
        Observation { typ: m, data: vec![3] },
        Observation { typ: b, data: vec![4] },
        Observation { typ: b, data: vec![5] },
    ];
    ctx.store_observations(6, &seen);
    let keys: Vec<(u64, u64, TypeShape, Vec<u8>)> =
        ctx.knowledge.iter().map(|k| (k.step, k.index, k.typ, k.data.clone())).collect();
    assert_eq!(
        keys,
        vec![
            (6, 0, m, vec![1]),
            (6, 0, b, vec![2]),
            (6, 1, m, vec![3]),
            (6, 1, b, vec![4]),
            (6, 2, b, vec![5]),
        ]
    );
}

#[test]
fn the_store_is_read_by_type() {
    let mut ctx: TraceContext<Scripted> = TraceContext::new();
    let m = TypeShape::single(MESSAGE);
    ctx.add_variable(Knowledge { step: 0, index: 0, typ: m, data: vec![1] });
    ctx.add_variable(Knowledge { step: 3, index: 1, typ: m, data: vec![2] });
    assert_eq!(ctx.get_variable(m), Some(&vec![1u8]));
    assert_eq!(ctx.get_variable(TypeShape::single(BYTES)), None);
    assert_eq!(ctx.get_variable_set(m), vec![&vec![1u8], &vec![2u8]]);
    assert!(ctx.get_variable_set(TypeShape::many(MESSAGE)).is_empty());
    assert_eq!(
        TraceContext::<Scripted>::downcast(&ctx.knowledge[0], m),
        Some(&vec![1u8])
    );
    assert_eq!(TraceContext::<Scripted>::downcast(&ctx.knowledge[0], TypeShape::single(0)), None);
}

#[test]
fn publish_reaches_every_agent_but_the_sender() {
    let mut ctx: TraceContext<Scripted> = TraceContext::new();
    for n in 1..4 {
        ctx.agents.push(Agent::named(AgentName(n), Scripted::new(vec![], 0)));
    }
    ctx.publish(AgentName(2), &vec![7, 8]);
    ctx.publish(AgentName(9), &vec![9]);
    assert_eq!(ctx.agents[0].stream.incoming, vec![7, 8, 9]);
    assert_eq!(ctx.agents[1].stream.incoming, vec![9]);
    assert_eq!(ctx.agents[2].stream.incoming, vec![7, 8, 9]);
    assert!(ctx.agents[0].stream.outgoing.is_empty());
}

#[test]
fn agents_are_found_by_name() {
    let mut ctx: TraceContext<Scripted> = TraceContext::new();
    assert_eq!(ctx.find_agent(AgentName(1)), None);
    ctx.agents.push(Agent::named(AgentName(1), Scripted::new(vec![], 0)));
    ctx.agents.push(Agent::named(AgentName(2), Scripted::new(vec![], 0)));
    ctx.agents.push(Agent::named(AgentName(1), Scripted::new(vec![], 0)));
    assert_eq!(ctx.find_agent(AgentName(1)), Some(0));
    assert_eq!(ctx.find_agent(AgentName(2)), Some(1));
    assert_eq!(ctx.find_agent(AgentName(3)), None);
    let name = ctx.new_agent(Scripted::new(vec![], 0));
    assert_eq!(ctx.agents[3].name, name);
    assert!(ctx.agents[3].stream.incoming.is_empty());
}

#[test]
fn agents_get_names_at_random() {
    let a = Agent::new(Scripted::new(vec![], 0));
    let b = Agent::new(Scripted::new(vec![], 0));
    assert_ne!(a.name, b.name);
    let stream = MemoryStream { incoming: vec![1], outgoing: vec![2] };
    let c = Agent::from_stream(stream, Scripted::new(vec![], 0));
    assert_eq!(c.stream.incoming, vec![1]);
    assert_eq!(c.stream.outgoing, vec![2]);
}

#[test]
fn agent_names_are_shown_in_hexadecimal() {
    let name = AgentName(0x0102_0304_0506_0708_090a_0b0c_0d0e_0f10);
    let low_first = "100f0e0d0c0b0a090807060504030201";
    let high_first = "0102030405060708090a0b0c0d0e0f10";
    let text = name.to_string();
    assert!(text == low_first || text == high_first);
    assert_eq!(AgentName(0).to_string(), "0".repeat(32));
}

#[test]
fn streams_carry_bytes_in_order() {
    let mut s = MemoryStream::new();
    assert!(s.incoming.is_empty() && s.outgoing.is_empty());
    s.extend_incoming(&vec![1, 2]);
    s.extend_incoming(&vec![3]);
    s.extend_outgoing(&vec![4]);
    s.extend_outgoing(&vec![5, 6]);
    assert_eq!(s.incoming, vec![1, 2, 3]);
    assert_eq!(s.take_outgoing(), vec![4, 5, 6]);
    assert!(s.outgoing.is_empty());
    assert_eq!(s.incoming, vec![1, 2, 3]);
}

fn hello_body(session_id: &[u8], middle: &[u8], extensions: &[u8]) -> Vec<u8> {
    let mut body = vec![3, 3];
    body.extend_from_slice(&[0x5a; 32]);
    body.push(session_id.len() as u8);
    body.extend_from_slice(session_id);
    body.extend_from_slice(middle);
    if !extensions.is_empty() {
        body.extend_from_slice(&[(extensions.len() / 256) as u8, (extensions.len() % 256) as u8]);
        body.extend_from_slice(extensions);
    }
    body
}

fn handshake_record(kind: u8, body: &[u8]) -> Vec<u8> {
    let mut message = vec![kind, 0, (body.len() / 256) as u8, (body.len() % 256) as u8];
    message.extend_from_slice(body);
    record(22, &message)
}

#[test]
fn the_successful_handshake_seed_runs_to_the_end() {
    let sig = tls_signature();
    let client_hello = handshake_record(
        1,
        &hello_body(&[7, 7], &[0, 4, 0x13, 0x01, 0x13, 0x02, 1, 0], &[0, 43, 0, 1, 4]),
    );
    let server_hello =
        handshake_record(2, &hello_body(&[7, 7], &[0x13, 0x01, 0], &[0, 43, 0, 2, 3, 4]));
    let mut flight = server_hello.clone();
    for n in 1..5u8 {
        flight.extend_from_slice(&record(23, &[n, n]));
    }
    let mut ctx: TraceContext<Scripted> = TraceContext::new();
    let client = ctx.new_agent(Scripted::new(
        vec![Ok((client_hello.clone(), vec![])), Ok((record(23, &[9]), vec![]))],
        5,
    ));
    let server = ctx.new_agent(Scripted::new(vec![Ok((flight, vec![]))], 2));
    let trace = tlspuffin::fuzzer::seeds::seed_successful(client, server);
    trace.execute(&mut ctx, &sig, &Tagging, &policy());
    assert!(matches!(ctx.state, ExecutionState::Finished));
    assert!(ctx.is_productive());
    let c = ctx.find_agent(client).unwrap();
    let s = ctx.find_agent(server).unwrap();
    assert!(ctx.agents[c].put.is_state_successful());
    assert!(ctx.agents[s].put.is_state_successful());
    // The server was handed the client hello that the client sent, field by
    // field, and the finished message of the client.
    let mut hello = vec![FN_CLIENT_HELLO as u8, 3, 3];
    hello.extend_from_slice(&[0x5a; 32]);
    hello.extend_from_slice(&[7, 7, 0x13, 0x01, 0x13, 0x02, 0, 0, 43, 0, 1, 4]);
    assert_eq!(
        ctx.agents[s].put.delivered,
        vec![hello, vec![FN_APPLICATION_DATA as u8, 9]]
    );
    // The client was handed the server hello and the four messages behind it.
    let mut hello = vec![tlspuffin::tls::signature::FN_SERVER_HELLO as u8, 3, 3];
    hello.extend_from_slice(&[0x5a; 32]);
    hello.extend_from_slice(&[7, 7, 0x13, 0x01, 0, 0, 43, 0, 2, 3, 4]);
    let mut expected = vec![hello];
    for n in 1..5u8 {
        expected.push(vec![FN_APPLICATION_DATA as u8, n, n]);
    }
    assert_eq!(ctx.agents[c].put.delivered, expected);
}
