use tlspuffin::agent::{AgentDescriptor, AgentName, TLSVersion};
use tlspuffin::algebra::{Term, TypeShape};
use tlspuffin::codec::{read_number, read_shape, read_term, write_number, write_shape};
use tlspuffin::fuzzer::seeds::{
    seed_client_attacker, seed_client_attacker12, seed_cve_2021_3449, seed_freak, seed_heartbleed,
    seed_session_resumption_dhe, seed_successful, seed_successful12, seed_successful_with_ccs,
    seed_successful_with_tickets,
};
use tlspuffin::tls::signature::tls_signature;
use tlspuffin::trace::{Action, InputAction, OutputAction, Step, Trace};

fn same_term(a: &Term, b: &Term) -> bool {
    match (a, b) {
        (
            Term::Variable { step: s1, index: i1, typ: t1 },
            Term::Variable { step: s2, index: i2, typ: t2 },
        ) => s1 == s2 && i1 == i2 && t1 == t2,
        (
            Term::Application { symbol: f, args: x },
            Term::Application { symbol: g, args: y },
        ) => f == g && x.len() == y.len() && x.iter().zip(y).all(|(p, q)| same_term(p, q)),
        _ => false,
    }
}

fn same_step(a: &Step, b: &Step) -> bool {
    a.agent == b.agent
        && match (&a.action, &b.action) {
            (Action::Input(x), Action::Input(y)) => same_term(&x.recipe, &y.recipe),
            (Action::Output(x), Action::Output(y)) => x.id == y.id,
            _ => false,
        }
}

fn same_trace(a: &Trace, b: &Trace) -> bool {
    a.descriptors == b.descriptors
        && a.steps.len() == b.steps.len()
        && a.steps.iter().zip(&b.steps).all(|(p, q)| same_step(p, q))
        && a.prior_traces.len() == b.prior_traces.len()
        && a.prior_traces.iter().zip(&b.prior_traces).all(|(p, q)| same_trace(p, q))
}

fn seeds() -> Vec<Trace> {
    let c = AgentName(0x0102_0304_0506_0708_090a_0b0c_0d0e_0f10);
    let s = AgentName(u128::MAX);
    vec![
        seed_successful(c, s),
        seed_successful12(c, s),
        seed_successful_with_ccs(c, s),
        seed_successful_with_tickets(c, s),
        seed_client_attacker(s),
        seed_client_attacker12(s),
        seed_cve_2021_3449(s),
        seed_heartbleed(c, s),
        seed_freak(c, s),
        seed_session_resumption_dhe(s),
    ]
}

#[test]
fn every_seed_is_read_back_from_its_bytes() {
    let sig = tls_signature();
    for seed in seeds() {
        let bytes = seed.serialize();
        let back = Trace::deserialize(&bytes).unwrap();
        assert!(same_trace(&seed, &back));
        assert!(back.well_typed(&sig));
        assert_eq!(back.serialize(), bytes);
    }
}

#[test]
fn the_bytes_of_a_small_trace_are_as_laid_down() {
    let trace = Trace {
        prior_traces: vec![],
        descriptors: vec![AgentDescriptor {
            name: AgentName(0x0201),
            tls_version: TLSVersion::V1_2,
            server: true,
        }],
        steps: vec![
            OutputAction::new_step(AgentName(0x0201), 7),
            InputAction::new_step(
                AgentName(3),
                Term::apply(
                    5,
                    vec![Term::variable(7, 1, TypeShape::many(0x0a0b))],
                ),
            ),
        ],
    };
    let mut expected: Vec<u8> = vec![];
    expected.extend_from_slice(&0u64.to_le_bytes()); // no trace runs first
    expected.extend_from_slice(&1u64.to_le_bytes()); // one descriptor
    expected.extend_from_slice(&0x0201u128.to_le_bytes());
    expected.extend_from_slice(&[1, 1]); // TLS 1.2, a server
    expected.extend_from_slice(&2u64.to_le_bytes()); // two steps
    expected.extend_from_slice(&0x0201u128.to_le_bytes());
    expected.push(1); // an output step
    expected.extend_from_slice(&7u64.to_le_bytes());
    expected.extend_from_slice(&3u128.to_le_bytes());
    expected.push(0); // an input step
    expected.push(1); // an application
    expected.extend_from_slice(&5u64.to_le_bytes());
    expected.extend_from_slice(&1u64.to_le_bytes());
    expected.push(0); // a variable
    expected.extend_from_slice(&7u64.to_le_bytes());
    expected.extend_from_slice(&1u64.to_le_bytes());
    expected.extend_from_slice(&[0x0b, 0x0a, 0, 0, 1]); // its type, a collection
    assert_eq!(trace.serialize(), expected);
    assert!(same_trace(&Trace::deserialize(&expected).unwrap(), &trace));
}

#[test]
fn the_empty_trace_takes_three_numbers() {
    let empty = Trace { prior_traces: vec![], descriptors: vec![], steps: vec![] };
    assert_eq!(empty.serialize(), vec![0u8; 24]);
    assert!(same_trace(&Trace::deserialize(&vec![0u8; 24]).unwrap(), &empty));
}

#[test]
fn bytes_that_are_cut_short_are_no_trace() {
    let bytes = seed_session_resumption_dhe(AgentName(9)).serialize();
    for cut in [0, 1, 7, 8, 23, 24, 100, bytes.len() / 2, bytes.len() - 1] {
        assert!(Trace::deserialize(&bytes[..cut].to_vec()).is_none());
    }
    assert!(Trace::deserialize(&bytes).is_some());
}

#[test]
fn bytes_with_something_behind_are_no_trace() {
    let mut bytes = seed_heartbleed(AgentName(1), AgentName(2)).serialize();
    bytes.push(0);
    assert!(Trace::deserialize(&bytes).is_none());
}

#[test]
fn unknown_tags_and_flags_are_no_trace() {
    let trace = Trace {
        prior_traces: vec![],
        descriptors: vec![AgentDescriptor {
            name: AgentName(1),
            tls_version: TLSVersion::V1_3,
            server: false,
        }],
        steps: vec![InputAction::new_step(
            AgentName(1),
            Term::variable(0, 0, TypeShape::single(1)),
        )],
    };
    let bytes = trace.serialize();
    assert!(Trace::deserialize(&bytes).is_some());
    let version = 8 + 8 + 16;
    let server = version + 1;
    let step_tag = server + 1 + 8 + 16;
    let term_tag = step_tag + 1;
    let collection = bytes.len() - 1;
    for position in [version, server, step_tag, term_tag, collection] {
        let mut broken = bytes.clone();
        broken[position] = 2;
        assert!(Trace::deserialize(&broken).is_none());
    }
    // A count that the bytes cannot hold.
    let mut broken = bytes.clone();
    broken[8] = 3;
    assert!(Trace::deserialize(&broken).is_none());
    let mut broken = bytes.clone();
    broken[0] = 1;
    assert!(Trace::deserialize(&broken).is_none());
}

#[test]
fn terms_are_read_where_they_stand() {
    let term = Term::apply(
        2,
        vec![Term::apply(0, vec![]), Term::variable(u64::MAX, 3, TypeShape::single(u32::MAX))],
    );
    let mut bytes = vec![0xee, 0xee];
    term.write(&mut bytes);
    let end = bytes.len();
    bytes.push(0xdd);
    let (back, next) = read_term(&bytes, 2).unwrap();
    assert!(same_term(&term, &back));
    assert_eq!(next, end);
    assert!(read_term(&bytes, 0).is_none());
    assert!(read_term(&bytes, bytes.len()).is_none());
}

#[test]
fn numbers_and_shapes_are_written_low_byte_first() {
    let mut out = vec![9u8];
    write_number(&mut out, 0x0102_0304_0506_0708);
    assert_eq!(out, vec![9, 8, 7, 6, 5, 4, 3, 2, 1]);
    assert_eq!(read_number(&out, 1), Some((0x0102_0304_0506_0708, 9)));
    assert_eq!(read_number(&out, 2), None);
    let mut out = vec![];
    write_shape(&mut out, TypeShape::many(0x0a0b_0c0d));
    write_shape(&mut out, TypeShape::single(1));
    assert_eq!(out, vec![0x0d, 0x0c, 0x0b, 0x0a, 1, 1, 0, 0, 0, 0]);
    assert_eq!(read_shape(&out, 0), Some((TypeShape::many(0x0a0b_0c0d), 5)));
    assert_eq!(read_shape(&out, 5), Some((TypeShape::single(1), 10)));
    assert_eq!(read_shape(&out, 6), None);
    assert_eq!(read_shape(&vec![0, 0, 0, 0, 2], 0), None);
}
