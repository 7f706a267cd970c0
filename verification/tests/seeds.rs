use tlspuffin::agent::{AgentName, TLSVersion};
use tlspuffin::algebra::{Term, TypeShape};
use tlspuffin::fuzzer::seeds::{
    seed_client_attacker, seed_client_attacker12, seed_cve_2021_3449, seed_freak, seed_heartbleed,
    seed_session_resumption_dhe, seed_successful, seed_successful12, seed_successful_with_ccs,
    seed_successful_with_tickets,
};
use tlspuffin::fuzzer::terms::{
    attacker_client_hello, client_finished, encrypted_client_finished, full_client_hello,
    server_hello_transcript,
};
use tlspuffin::tls::signature::{
    tls_signature, BYTES, FN_APPLICATION_DATA, FN_APPEND_TRANSCRIPT, FN_CHANGE_CIPHER_SPEC,
    FN_CLIENT_HELLO, FN_ENCRYPT12, FN_ENCRYPT_HANDSHAKE, FN_FILL_BINDER, FN_HEARTBEAT_FAKE_LENGTH,
    FN_SERVER_HELLO, MESSAGE, TRANSCRIPT,
};
use tlspuffin::trace::{Action, Trace};

const CLIENT: AgentName = AgentName(1);
const SERVER: AgentName = AgentName(2);

/// `o<id>` for an output step, `i<symbol>` for an input step, each behind the
/// number of its agent.
fn outline(trace: &Trace) -> Vec<String> {
    trace
        .steps
        .iter()
        .map(|s| match &s.action {
            Action::Output(o) => format!("{}o{}", s.agent.0, o.id),
            Action::Input(i) => match &i.recipe {
                Term::Application { symbol, .. } => format!("{}i{}", s.agent.0, symbol),
                Term::Variable { .. } => format!("{}v", s.agent.0),
            },
        })
        .collect()
}

fn symbols(names: &[(u128, Option<usize>, u64)]) -> Vec<String> {
    names
        .iter()
        .map(|(agent, symbol, id)| match symbol {
            Some(f) => format!("{}i{}", agent, f),
            None => format!("{}o{}", agent, id),
        })
        .collect()
}

#[test]
fn every_seed_is_well_typed() {
    let sig = tls_signature();
    let seeds = vec![
        seed_successful(CLIENT, SERVER),
        seed_successful12(CLIENT, SERVER),
        seed_successful_with_ccs(CLIENT, SERVER),
        seed_successful_with_tickets(CLIENT, SERVER),
        seed_client_attacker(SERVER),
        seed_client_attacker12(SERVER),
        seed_cve_2021_3449(SERVER),
        seed_heartbleed(CLIENT, SERVER),
        seed_freak(CLIENT, SERVER),
        seed_session_resumption_dhe(SERVER),
    ];
    for seed in &seeds {
        assert!(seed.well_typed(&sig));
    }
    let lengths: Vec<usize> = seeds.iter().map(|s| s.len()).collect();
    assert_eq!(lengths, vec![10, 15, 12, 15, 4, 5, 6, 2, 10, 3]);
}

#[test]
fn the_successful_handshake_hands_on_what_it_observes() {
    let t = seed_successful(CLIENT, SERVER);
    let a = FN_APPLICATION_DATA;
    assert_eq!(
        outline(&t),
        symbols(&[
            (1, None, 0),
            (2, Some(FN_CLIENT_HELLO), 0),
            (2, None, 1),
            (1, Some(FN_SERVER_HELLO), 0),
            (1, Some(a), 0),
            (1, Some(a), 0),
            (1, Some(a), 0),
            (1, Some(a), 0),
            (1, None, 2),
            (2, Some(a), 0),
        ])
    );
    assert!(t.prior_traces.is_empty());
    assert_eq!(t.descriptors.len(), 2);
    assert_eq!(t.descriptors[0].name, CLIENT);
    assert!(!t.descriptors[0].server);
    assert_eq!(t.descriptors[1].name, SERVER);
    assert!(t.descriptors[1].server);
    assert_eq!(t.descriptors[0].tls_version, TLSVersion::V1_3);
    match &t.steps[7].action {
        Action::Input(i) => match i.recipe.subterm(&vec![0]).unwrap() {
            Term::Variable { step, index, typ } => {
                assert_eq!((*step, *index, *typ), (1, 3, TypeShape::single(BYTES)))
            },
            _ => panic!("a variable was expected"),
        },
        _ => panic!("an input step was expected"),
    }
}

#[test]
fn changes_of_cipher_spec_are_inserted_at_four_and_ten() {
    let base = seed_successful(CLIENT, SERVER);
    let t = seed_successful_with_ccs(CLIENT, SERVER);
    let mut expected = outline(&base);
    expected.insert(4, format!("1i{}", FN_CHANGE_CIPHER_SPEC));
    expected.insert(10, format!("2i{}", FN_CHANGE_CIPHER_SPEC));
    assert_eq!(outline(&t), expected);
}

#[test]
fn tickets_follow_the_handshake() {
    let base = seed_successful_with_ccs(CLIENT, SERVER);
    let t = seed_successful_with_tickets(CLIENT, SERVER);
    let mut expected = outline(&base);
    expected.push("2o3".to_string());
    expected.push(format!("1i{}", FN_APPLICATION_DATA));
    expected.push(format!("1i{}", FN_APPLICATION_DATA));
    assert_eq!(outline(&t), expected);
}

#[test]
fn the_attacker_speaks_to_the_server_alone() {
    let t = seed_client_attacker(SERVER);
    assert_eq!(
        outline(&t),
        symbols(&[
            (2, Some(FN_CLIENT_HELLO), 0),
            (2, None, 0),
            (2, Some(FN_ENCRYPT_HANDSHAKE), 0),
            (2, None, 1),
        ])
    );
    assert_eq!(t.descriptors.len(), 1);
    assert!(t.descriptors[0].server);
    let t12 = seed_client_attacker12(SERVER);
    assert_eq!(t12.descriptors[0].tls_version, TLSVersion::V1_2);
    assert_eq!(outline(&t12)[4], format!("2i{}", FN_ENCRYPT12));
}

#[test]
fn the_renegotiation_is_appended_to_the_attack_on_tls12() {
    let base = seed_client_attacker12(SERVER);
    let t = seed_cve_2021_3449(SERVER);
    let mut expected = outline(&base);
    expected.push(format!("2i{}", FN_ENCRYPT12));
    assert_eq!(outline(&t), expected);
}

#[test]
fn heartbleed_sends_the_heartbeat_right_after_the_hello() {
    let t = seed_heartbleed(CLIENT, SERVER);
    assert_eq!(
        outline(&t),
        symbols(&[(2, Some(FN_CLIENT_HELLO), 0), (2, Some(FN_HEARTBEAT_FAKE_LENGTH), 0)])
    );
    assert_eq!(t.descriptors.len(), 2);
}

#[test]
fn session_resumption_runs_the_first_handshake_before() {
    let t = seed_session_resumption_dhe(SERVER);
    assert_eq!(t.prior_traces.len(), 1);
    assert_eq!(outline(&t.prior_traces[0]), outline(&seed_client_attacker(SERVER)));
    assert_eq!(
        outline(&t),
        symbols(&[
            (2, Some(FN_FILL_BINDER), 0),
            (2, None, 10),
            (2, Some(FN_ENCRYPT_HANDSHAKE), 0),
        ])
    );
    assert!(t.produces(0) && t.produces(1) && t.produces(10));
    // Without the first handshake the terms name what is not produced.
    let mut alone = t.duplicate();
    alone.prior_traces.clear();
    assert!(!alone.well_typed(&tls_signature()));
}

#[test]
fn the_terms_of_the_attacker_have_their_types_and_sizes() {
    let sig = tls_signature();
    let hello = attacker_client_hello();
    assert!(hello.well_typed(&sig));
    assert_eq!(hello.result_type(&sig), Some(TypeShape::single(MESSAGE)));
    assert_eq!(hello.size_within(1000), Some(17));
    assert!(!hello.mentions(0));
    let transcript = server_hello_transcript();
    assert_eq!(transcript.result_type(&sig), Some(TypeShape::single(TRANSCRIPT)));
    assert_eq!(transcript.size_within(1000), Some(21));
    assert!(transcript.mentions(0));
    match &transcript {
        Term::Application { symbol, args } => {
            assert_eq!(*symbol, FN_APPEND_TRANSCRIPT);
            assert_eq!(args.len(), 2);
        },
        _ => panic!("an application was expected"),
    }
    assert!(client_finished().well_typed(&sig));
    assert!(encrypted_client_finished().well_typed(&sig));
    let full = full_client_hello();
    assert!(full.well_typed(&sig));
    assert!(full.mentions(0) && full.mentions(1) && !full.mentions(10));
}
