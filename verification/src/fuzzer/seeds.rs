//! Seed traces: handshakes that are known to succeed, and the traces of known
//! attacks. A campaign starts from them.

use crate::agent::{AgentDescriptor, AgentName, TLSVersion};
use crate::algebra::TypeShape;
use crate::fuzzer::terms::{
    attacker_client_hello,
    attacker_client_hello_term,
    attacker_client_hello12,
    attacker_client_hello12_term,
    client_key_exchange12,
    client_key_exchange12_term,
    downgraded_server_hello,
    downgraded_server_hello_term,
    encrypted_client_finished,
    encrypted_client_finished_term,
    encrypted_client_finished12,
    encrypted_client_finished12_term,
    encrypted_renegotiation,
    encrypted_renegotiation_term,
    encrypted_resumption_client_finished,
    encrypted_resumption_client_finished_term,
    export_client_hello,
    export_client_hello_term,
    full_client_hello,
    full_client_hello_term,
    heartbleed_client_hello,
    heartbleed_client_hello_term,
    oversized_heartbeat,
    oversized_heartbeat_term,
};
use crate::tls::recipes::{app0, app1, app2, app6, apply, var, variable};
use crate::tls::signature::{
    BYTES, CERTIFICATE_PAYLOAD, CIPHER_SUITE, CLIENT_EXTENSION, COMPRESSION, FN_APPLICATION_DATA,
    FN_CERTIFICATE, FN_CHANGE_CIPHER_SPEC, FN_CLIENT_HELLO, FN_CLIENT_KEY_EXCHANGE,
    FN_NEW_SESSION_TICKET, FN_OPAQUE_MESSAGE, FN_SERVER_HELLO, FN_SERVER_HELLO_DONE,
    FN_SERVER_KEY_EXCHANGE, NUMBER, OPAQUE_MESSAGE, PROTOCOL_VERSION, RANDOM, SERVER_EXTENSION,
    SESSION_ID, tls_symbols,
};
use crate::trace::{
    input_step, lemma_insert_step, lemma_push_step, output_step, InputAction, OutputAction, Trace,
    TraceView,
};
use vstd::prelude::*;

verus! {

/// A full TLS 1.3 handshake between a client and a server, each message handed
/// on as it was observed.
pub open spec fn seed_successful_trace(client: AgentName, server: AgentName) -> TraceView {
    TraceView {
        prior_traces: Seq::empty(),
        descriptors: seq![
            AgentDescriptor { name: client, tls_version: TLSVersion::V1_3, server: false },
            AgentDescriptor { name: server, tls_version: TLSVersion::V1_3, server: true },
        ],
        steps: seq![
            output_step(client, 0),
            input_step(
                server,
                apply(
                    FN_CLIENT_HELLO,
                    seq![
                        variable(0, 0, TypeShape::single(PROTOCOL_VERSION)),
                        variable(0, 0, TypeShape::single(RANDOM)),
                        variable(0, 0, TypeShape::single(SESSION_ID)),
                        variable(0, 0, TypeShape::many(CIPHER_SUITE)),
                        variable(0, 0, TypeShape::many(COMPRESSION)),
                        variable(0, 0, TypeShape::many(CLIENT_EXTENSION)),
                    ],
                ),
            ),
            output_step(server, 1),
            input_step(
                client,
                apply(
                    FN_SERVER_HELLO,
                    seq![
                        variable(1, 0, TypeShape::single(PROTOCOL_VERSION)),
                        variable(1, 0, TypeShape::single(RANDOM)),
                        variable(1, 0, TypeShape::single(SESSION_ID)),
                        variable(1, 0, TypeShape::single(CIPHER_SUITE)),
                        variable(1, 0, TypeShape::single(COMPRESSION)),
                        variable(1, 0, TypeShape::many(SERVER_EXTENSION)),
                    ],
                ),
            ),
            input_step(
                client,
                apply(FN_APPLICATION_DATA, seq![variable(1, 0, TypeShape::single(BYTES))]),
            ),
            input_step(
                client,
                apply(FN_APPLICATION_DATA, seq![variable(1, 1, TypeShape::single(BYTES))]),
            ),
            input_step(
                client,
                apply(FN_APPLICATION_DATA, seq![variable(1, 2, TypeShape::single(BYTES))]),
            ),
            input_step(
                client,
                apply(FN_APPLICATION_DATA, seq![variable(1, 3, TypeShape::single(BYTES))]),
            ),
            output_step(client, 2),
            input_step(
                server,
                apply(FN_APPLICATION_DATA, seq![variable(2, 0, TypeShape::single(BYTES))]),
            ),
        ],
    }
}

/// A full TLS 1.3 handshake between a client and a server, each message handed
/// on as it was observed.
pub fn seed_successful(client: AgentName, server: AgentName) -> (trace: Trace)
    ensures
        trace@ == seed_successful_trace(client, server),
        trace@.well_typed(tls_symbols()),
{
    let recipe1 = app6(
        FN_CLIENT_HELLO,
        var(0, 0, TypeShape::single(PROTOCOL_VERSION)),
        var(0, 0, TypeShape::single(RANDOM)),
        var(0, 0, TypeShape::single(SESSION_ID)),
        var(0, 0, TypeShape::many(CIPHER_SUITE)),
        var(0, 0, TypeShape::many(COMPRESSION)),
        var(0, 0, TypeShape::many(CLIENT_EXTENSION)),
    );
    let recipe3 = app6(
        FN_SERVER_HELLO,
        var(1, 0, TypeShape::single(PROTOCOL_VERSION)),
        var(1, 0, TypeShape::single(RANDOM)),
        var(1, 0, TypeShape::single(SESSION_ID)),
        var(1, 0, TypeShape::single(CIPHER_SUITE)),
        var(1, 0, TypeShape::single(COMPRESSION)),
        var(1, 0, TypeShape::many(SERVER_EXTENSION)),
    );
    let recipe4 = app1(FN_APPLICATION_DATA, var(1, 0, TypeShape::single(BYTES)));
    let recipe5 = app1(FN_APPLICATION_DATA, var(1, 1, TypeShape::single(BYTES)));
    let recipe6 = app1(FN_APPLICATION_DATA, var(1, 2, TypeShape::single(BYTES)));
    let recipe7 = app1(FN_APPLICATION_DATA, var(1, 3, TypeShape::single(BYTES)));
    let recipe9 = app1(FN_APPLICATION_DATA, var(2, 0, TypeShape::single(BYTES)));
    let trace = Trace {
        prior_traces: Vec::new(),
        descriptors: vec![
            AgentDescriptor { name: client, tls_version: TLSVersion::V1_3, server: false },
            AgentDescriptor { name: server, tls_version: TLSVersion::V1_3, server: true },
        ],
        steps: vec![
            OutputAction::new_step(client, 0),
            InputAction::new_step(server, recipe1),
            OutputAction::new_step(server, 1),
            InputAction::new_step(client, recipe3),
            InputAction::new_step(client, recipe4),
            InputAction::new_step(client, recipe5),
            InputAction::new_step(client, recipe6),
            InputAction::new_step(client, recipe7),
            OutputAction::new_step(client, 2),
            InputAction::new_step(server, recipe9),
        ],
    };
    proof {
        let v = trace@;
        let expected = seed_successful_trace(client, server);
        trace.lemma_view_parts();
        assert(v.steps[0] == expected.steps[0]);
        assert(v.steps[1] == expected.steps[1]);
        assert(v.steps[2] == expected.steps[2]);
        assert(v.steps[3] == expected.steps[3]);
        assert(v.steps[4] == expected.steps[4]);
        assert(v.steps[5] == expected.steps[5]);
        assert(v.steps[6] == expected.steps[6]);
        assert(v.steps[7] == expected.steps[7]);
        assert(v.steps[8] == expected.steps[8]);
        assert(v.steps[9] == expected.steps[9]);
        assert(v.steps =~= expected.steps);
        assert(v.prior_traces =~= expected.prior_traces);
        assert(v.descriptors =~= expected.descriptors);
        assert(v.steps[0].produces(0));
        assert(v.produced_before(1, 0));
        assert(v.step_valid(1, tls_symbols()));
        assert(v.steps[2].produces(1));
        assert(v.produced_before(3, 1));
        assert(v.step_valid(3, tls_symbols()));
        assert(v.steps[2].produces(1));
        assert(v.produced_before(4, 1));
        assert(v.step_valid(4, tls_symbols()));
        assert(v.steps[2].produces(1));
        assert(v.produced_before(5, 1));
        assert(v.step_valid(5, tls_symbols()));
        assert(v.steps[2].produces(1));
        assert(v.produced_before(6, 1));
        assert(v.step_valid(6, tls_symbols()));
        assert(v.steps[2].produces(1));
        assert(v.produced_before(7, 1));
        assert(v.step_valid(7, tls_symbols()));
        assert(v.steps[8].produces(2));
        assert(v.produced_before(9, 2));
        assert(v.step_valid(9, tls_symbols()));
    }
    trace
}

/// A full TLS 1.2 handshake between a client and a server, each message handed
/// on as it was observed.
pub open spec fn seed_successful12_trace(client: AgentName, server: AgentName) -> TraceView {
    TraceView {
        prior_traces: Seq::empty(),
        descriptors: seq![
            AgentDescriptor { name: client, tls_version: TLSVersion::V1_2, server: false },
            AgentDescriptor { name: server, tls_version: TLSVersion::V1_2, server: true },
        ],
        steps: seq![
            output_step(client, 0),
            input_step(
                server,
                apply(
                    FN_CLIENT_HELLO,
                    seq![
                        variable(0, 0, TypeShape::single(PROTOCOL_VERSION)),
                        variable(0, 0, TypeShape::single(RANDOM)),
                        variable(0, 0, TypeShape::single(SESSION_ID)),
                        variable(0, 0, TypeShape::many(CIPHER_SUITE)),
                        variable(0, 0, TypeShape::many(COMPRESSION)),
                        variable(0, 0, TypeShape::many(CLIENT_EXTENSION)),
                    ],
                ),
            ),
            output_step(server, 1),
            input_step(
                client,
                apply(
                    FN_SERVER_HELLO,
                    seq![
                        variable(1, 0, TypeShape::single(PROTOCOL_VERSION)),
                        variable(1, 0, TypeShape::single(RANDOM)),
                        variable(1, 0, TypeShape::single(SESSION_ID)),
                        variable(1, 0, TypeShape::single(CIPHER_SUITE)),
                        variable(1, 0, TypeShape::single(COMPRESSION)),
                        variable(1, 0, TypeShape::many(SERVER_EXTENSION)),
                    ],
                ),
            ),
            input_step(
                client,
                apply(FN_CERTIFICATE, seq![variable(1, 0, TypeShape::single(CERTIFICATE_PAYLOAD))]),
            ),
            input_step(
                client,
                apply(FN_SERVER_KEY_EXCHANGE, seq![variable(1, 0, TypeShape::single(BYTES))]),
            ),
            input_step(client, apply(FN_SERVER_HELLO_DONE, Seq::empty())),
            output_step(client, 2),
            input_step(
                server,
                apply(FN_CLIENT_KEY_EXCHANGE, seq![variable(2, 0, TypeShape::single(BYTES))]),
            ),
            input_step(server, apply(FN_CHANGE_CIPHER_SPEC, Seq::empty())),
            input_step(
                server,
                apply(FN_OPAQUE_MESSAGE, seq![variable(2, 2, TypeShape::single(OPAQUE_MESSAGE))]),
            ),
            output_step(server, 3),
            input_step(
                client,
                apply(
                    FN_NEW_SESSION_TICKET,
                    seq![
                        variable(3, 0, TypeShape::single(NUMBER)),
                        variable(3, 0, TypeShape::single(BYTES)),
                    ],
                ),
            ),
            input_step(client, apply(FN_CHANGE_CIPHER_SPEC, Seq::empty())),
            input_step(
                client,
                apply(FN_OPAQUE_MESSAGE, seq![variable(3, 2, TypeShape::single(OPAQUE_MESSAGE))]),
            ),
        ],
    }
}

/// A full TLS 1.2 handshake between a client and a server, each message handed
/// on as it was observed.
pub fn seed_successful12(client: AgentName, server: AgentName) -> (trace: Trace)
    ensures
        trace@ == seed_successful12_trace(client, server),
        trace@.well_typed(tls_symbols()),
{
    let recipe1 = app6(
        FN_CLIENT_HELLO,
        var(0, 0, TypeShape::single(PROTOCOL_VERSION)),
        var(0, 0, TypeShape::single(RANDOM)),
        var(0, 0, TypeShape::single(SESSION_ID)),
        var(0, 0, TypeShape::many(CIPHER_SUITE)),
        var(0, 0, TypeShape::many(COMPRESSION)),
        var(0, 0, TypeShape::many(CLIENT_EXTENSION)),
    );
    let recipe3 = app6(
        FN_SERVER_HELLO,
        var(1, 0, TypeShape::single(PROTOCOL_VERSION)),
        var(1, 0, TypeShape::single(RANDOM)),
        var(1, 0, TypeShape::single(SESSION_ID)),
        var(1, 0, TypeShape::single(CIPHER_SUITE)),
        var(1, 0, TypeShape::single(COMPRESSION)),
        var(1, 0, TypeShape::many(SERVER_EXTENSION)),
    );
    let recipe4 = app1(FN_CERTIFICATE, var(1, 0, TypeShape::single(CERTIFICATE_PAYLOAD)));
    let recipe5 = app1(FN_SERVER_KEY_EXCHANGE, var(1, 0, TypeShape::single(BYTES)));
    let recipe6 = app0(FN_SERVER_HELLO_DONE);
    let recipe8 = app1(FN_CLIENT_KEY_EXCHANGE, var(2, 0, TypeShape::single(BYTES)));
    let recipe9 = app0(FN_CHANGE_CIPHER_SPEC);
    let recipe10 = app1(FN_OPAQUE_MESSAGE, var(2, 2, TypeShape::single(OPAQUE_MESSAGE)));
    let recipe12 = app2(
        FN_NEW_SESSION_TICKET,
        var(3, 0, TypeShape::single(NUMBER)),
        var(3, 0, TypeShape::single(BYTES)),
    );
    let recipe13 = app0(FN_CHANGE_CIPHER_SPEC);
    let recipe14 = app1(FN_OPAQUE_MESSAGE, var(3, 2, TypeShape::single(OPAQUE_MESSAGE)));
    let trace = Trace {
        prior_traces: Vec::new(),
        descriptors: vec![
            AgentDescriptor { name: client, tls_version: TLSVersion::V1_2, server: false },
            AgentDescriptor { name: server, tls_version: TLSVersion::V1_2, server: true },
        ],
        steps: vec![
            OutputAction::new_step(client, 0),
            InputAction::new_step(server, recipe1),
            OutputAction::new_step(server, 1),
            InputAction::new_step(client, recipe3),
            InputAction::new_step(client, recipe4),
            InputAction::new_step(client, recipe5),
            InputAction::new_step(client, recipe6),
            OutputAction::new_step(client, 2),
            InputAction::new_step(server, recipe8),
            InputAction::new_step(server, recipe9),
            InputAction::new_step(server, recipe10),
            OutputAction::new_step(server, 3),
            InputAction::new_step(client, recipe12),
            InputAction::new_step(client, recipe13),
            InputAction::new_step(client, recipe14),
        ],
    };
    proof {
        let v = trace@;
        let expected = seed_successful12_trace(client, server);
        trace.lemma_view_parts();
        assert(v.steps[0] == expected.steps[0]);
        assert(v.steps[1] == expected.steps[1]);
        assert(v.steps[2] == expected.steps[2]);
        assert(v.steps[3] == expected.steps[3]);
        assert(v.steps[4] == expected.steps[4]);
        assert(v.steps[5] == expected.steps[5]);
        assert(v.steps[6] == expected.steps[6]);
        assert(v.steps[7] == expected.steps[7]);
        assert(v.steps[8] == expected.steps[8]);
        assert(v.steps[9] == expected.steps[9]);
        assert(v.steps[10] == expected.steps[10]);
        assert(v.steps[11] == expected.steps[11]);
        assert(v.steps[12] == expected.steps[12]);
        assert(v.steps[13] == expected.steps[13]);
        assert(v.steps[14] == expected.steps[14]);
        assert(v.steps =~= expected.steps);
        assert(v.prior_traces =~= expected.prior_traces);
        assert(v.descriptors =~= expected.descriptors);
        assert(v.steps[0].produces(0));
        assert(v.produced_before(1, 0));
        assert(v.step_valid(1, tls_symbols()));
        assert(v.steps[2].produces(1));
        assert(v.produced_before(3, 1));
        assert(v.step_valid(3, tls_symbols()));
        assert(v.steps[2].produces(1));
        assert(v.produced_before(4, 1));
        assert(v.step_valid(4, tls_symbols()));
        assert(v.steps[2].produces(1));
        assert(v.produced_before(5, 1));
        assert(v.step_valid(5, tls_symbols()));
        assert(v.step_valid(6, tls_symbols()));
        assert(v.steps[7].produces(2));
        assert(v.produced_before(8, 2));
        assert(v.step_valid(8, tls_symbols()));
        assert(v.step_valid(9, tls_symbols()));
        assert(v.steps[7].produces(2));
        assert(v.produced_before(10, 2));
        assert(v.step_valid(10, tls_symbols()));
        assert(v.steps[11].produces(3));
        assert(v.produced_before(12, 3));
        assert(v.step_valid(12, tls_symbols()));
        assert(v.step_valid(13, tls_symbols()));
        assert(v.steps[11].produces(3));
        assert(v.produced_before(14, 3));
        assert(v.step_valid(14, tls_symbols()));
    }
    trace
}

/// The full TLS 1.3 handshake, with a change of cipher spec sent to each side.
pub open spec fn seed_successful_with_ccs_trace(
    client: AgentName,
    server: AgentName,
) -> TraceView {
    seed_successful_trace(client, server)
        .insert_step(4, input_step(client, apply(FN_CHANGE_CIPHER_SPEC, Seq::empty())))
        .insert_step(10, input_step(server, apply(FN_CHANGE_CIPHER_SPEC, Seq::empty())))
}

/// The full TLS 1.3 handshake, with a change of cipher spec sent to each side.
pub fn seed_successful_with_ccs(client: AgentName, server: AgentName) -> (trace: Trace)
    ensures
        trace@ == seed_successful_with_ccs_trace(client, server),
        trace@.well_typed(tls_symbols()),
{
    let mut trace = seed_successful(client, server);
    let recipe = app0(FN_CHANGE_CIPHER_SPEC);
    proof {
        let v = trace@;
        lemma_insert_step(v, 4, input_step(client, recipe@), tls_symbols());
    }
    trace.insert_step(4, InputAction::new_step(client, recipe));
    let recipe = app0(FN_CHANGE_CIPHER_SPEC);
    proof {
        let v = trace@;
        lemma_insert_step(v, 10, input_step(server, recipe@), tls_symbols());
    }
    trace.insert_step(10, InputAction::new_step(server, recipe));
    trace
}

/// The full TLS 1.3 handshake with changes of cipher spec, followed by two
/// session tickets.
pub open spec fn seed_successful_with_tickets_trace(
    client: AgentName,
    server: AgentName,
) -> TraceView {
    seed_successful_with_ccs_trace(client, server)
        .push_step(output_step(server, 3))
        .push_step(input_step(
            client,
            apply(FN_APPLICATION_DATA, seq![variable(3, 0, TypeShape::single(BYTES))]),
        ))
        .push_step(input_step(
            client,
            apply(FN_APPLICATION_DATA, seq![variable(3, 1, TypeShape::single(BYTES))]),
        ))
}

/// The full TLS 1.3 handshake with changes of cipher spec, followed by two
/// session tickets.
pub fn seed_successful_with_tickets(client: AgentName, server: AgentName) -> (trace: Trace)
    ensures
        trace@ == seed_successful_with_tickets_trace(client, server),
        trace@.well_typed(tls_symbols()),
{
    let mut trace = seed_successful_with_ccs(client, server);
    proof {
        let v = trace@;
        lemma_push_step(v, output_step(server, 3), tls_symbols());
    }
    trace.push_step(OutputAction::new_step(server, 3));
    let recipe = app1(FN_APPLICATION_DATA, var(3, 0, TypeShape::single(BYTES)));
    proof {
        let v = trace@;
        assert(v.steps[12].produces(3));
        assert(v.produced_before(13, 3));
        lemma_push_step(v, input_step(client, recipe@), tls_symbols());
    }
    trace.push_step(InputAction::new_step(client, recipe));
    let recipe = app1(FN_APPLICATION_DATA, var(3, 1, TypeShape::single(BYTES)));
    proof {
        let v = trace@;
        assert(v.steps[12].produces(3));
        assert(v.produced_before(14, 3));
        lemma_push_step(v, input_step(client, recipe@), tls_symbols());
    }
    trace.push_step(InputAction::new_step(client, recipe));
    trace
}

/// An attacker that completes a TLS 1.3 handshake with a server, computing
/// every message itself.
pub open spec fn seed_client_attacker_trace(server: AgentName) -> TraceView {
    TraceView {
        prior_traces: Seq::empty(),
        descriptors: seq![
            AgentDescriptor { name: server, tls_version: TLSVersion::V1_3, server: true },
        ],
        steps: seq![
            input_step(server, attacker_client_hello_term()),
            output_step(server, 0),
            input_step(server, encrypted_client_finished_term()),
            output_step(server, 1),
        ],
    }
}

/// An attacker that completes a TLS 1.3 handshake with a server, computing
/// every message itself.
pub fn seed_client_attacker(server: AgentName) -> (trace: Trace)
    ensures
        trace@ == seed_client_attacker_trace(server),
        trace@.well_typed(tls_symbols()),
{
    let recipe0 = attacker_client_hello();
    let recipe2 = encrypted_client_finished();
    let trace = Trace {
        prior_traces: Vec::new(),
        descriptors: vec![
            AgentDescriptor { name: server, tls_version: TLSVersion::V1_3, server: true },
        ],
        steps: vec![
            InputAction::new_step(server, recipe0),
            OutputAction::new_step(server, 0),
            InputAction::new_step(server, recipe2),
            OutputAction::new_step(server, 1),
        ],
    };
    proof {
        let v = trace@;
        let expected = seed_client_attacker_trace(server);
        trace.lemma_view_parts();
        assert(v.steps[0] == expected.steps[0]);
        assert(v.steps[1] == expected.steps[1]);
        assert(v.steps[2] == expected.steps[2]);
        assert(v.steps[3] == expected.steps[3]);
        assert(v.steps =~= expected.steps);
        assert(v.prior_traces =~= expected.prior_traces);
        assert(v.descriptors =~= expected.descriptors);
        assert(v.step_valid(0, tls_symbols()));
        assert(v.steps[1].produces(0));
        assert(v.produced_before(2, 0));
        assert(v.step_valid(2, tls_symbols()));
    }
    trace
}

/// An attacker that completes a TLS 1.2 handshake with a server, computing
/// every message itself.
pub open spec fn seed_client_attacker12_trace(server: AgentName) -> TraceView {
    TraceView {
        prior_traces: Seq::empty(),
        descriptors: seq![
            AgentDescriptor { name: server, tls_version: TLSVersion::V1_2, server: true },
        ],
        steps: seq![
            input_step(server, attacker_client_hello12_term()),
            output_step(server, 0),
            input_step(server, client_key_exchange12_term()),
            input_step(server, apply(FN_CHANGE_CIPHER_SPEC, Seq::empty())),
            input_step(server, encrypted_client_finished12_term()),
        ],
    }
}

/// An attacker that completes a TLS 1.2 handshake with a server, computing
/// every message itself.
pub fn seed_client_attacker12(server: AgentName) -> (trace: Trace)
    ensures
        trace@ == seed_client_attacker12_trace(server),
        trace@.well_typed(tls_symbols()),
{
    let recipe0 = attacker_client_hello12();
    let recipe2 = client_key_exchange12();
    let recipe3 = app0(FN_CHANGE_CIPHER_SPEC);
    let recipe4 = encrypted_client_finished12();
    let trace = Trace {
        prior_traces: Vec::new(),
        descriptors: vec![
            AgentDescriptor { name: server, tls_version: TLSVersion::V1_2, server: true },
        ],
        steps: vec![
            InputAction::new_step(server, recipe0),
            OutputAction::new_step(server, 0),
            InputAction::new_step(server, recipe2),
            InputAction::new_step(server, recipe3),
            InputAction::new_step(server, recipe4),
        ],
    };
    proof {
        let v = trace@;
        let expected = seed_client_attacker12_trace(server);
        trace.lemma_view_parts();
        assert(v.steps[0] == expected.steps[0]);
        assert(v.steps[1] == expected.steps[1]);
        assert(v.steps[2] == expected.steps[2]);
        assert(v.steps[3] == expected.steps[3]);
        assert(v.steps[4] == expected.steps[4]);
        assert(v.steps =~= expected.steps);
        assert(v.prior_traces =~= expected.prior_traces);
        assert(v.descriptors =~= expected.descriptors);
        assert(v.step_valid(0, tls_symbols()));
        assert(v.steps[1].produces(0));
        assert(v.produced_before(2, 0));
        assert(v.step_valid(2, tls_symbols()));
        assert(v.step_valid(3, tls_symbols()));
        assert(v.steps[1].produces(0));
        assert(v.produced_before(4, 0));
        assert(v.step_valid(4, tls_symbols()));
    }
    trace
}

/// The TLS 1.2 handshake of an attacker, followed by a renegotiation that
/// leaves out the signature algorithms: the trace of CVE-2021-3449.
pub open spec fn seed_cve_2021_3449_trace(server: AgentName) -> TraceView {
    seed_client_attacker12_trace(server)
        .push_step(input_step(server, encrypted_renegotiation_term()))
}

/// The TLS 1.2 handshake of an attacker, followed by a renegotiation that
/// leaves out the signature algorithms: the trace of CVE-2021-3449.
pub fn seed_cve_2021_3449(server: AgentName) -> (trace: Trace)
    ensures
        trace@ == seed_cve_2021_3449_trace(server),
        trace@.well_typed(tls_symbols()),
{
    let mut trace = seed_client_attacker12(server);
    let recipe = encrypted_renegotiation();
    proof {
        let v = trace@;
        assert(v.steps[1].produces(0));
        assert(v.produced_before(5, 0));
        lemma_push_step(v, input_step(server, recipe@), tls_symbols());
    }
    trace.push_step(InputAction::new_step(server, recipe));
    trace
}

/// A client hello followed at once by an oversized heartbeat, which needs no
/// encryption: the trace of Heartbleed.
pub open spec fn seed_heartbleed_trace(client: AgentName, server: AgentName) -> TraceView {
    TraceView {
        prior_traces: Seq::empty(),
        descriptors: seq![
            AgentDescriptor { name: client, tls_version: TLSVersion::V1_2, server: false },
            AgentDescriptor { name: server, tls_version: TLSVersion::V1_2, server: true },
        ],
        steps: seq![
            input_step(server, heartbleed_client_hello_term()),
            input_step(server, oversized_heartbeat_term()),
        ],
    }
}

/// A client hello followed at once by an oversized heartbeat, which needs no
/// encryption: the trace of Heartbleed.
pub fn seed_heartbleed(client: AgentName, server: AgentName) -> (trace: Trace)
    ensures
        trace@ == seed_heartbleed_trace(client, server),
        trace@.well_typed(tls_symbols()),
{
    let recipe0 = heartbleed_client_hello();
    let recipe1 = oversized_heartbeat();
    let trace = Trace {
        prior_traces: Vec::new(),
        descriptors: vec![
            AgentDescriptor { name: client, tls_version: TLSVersion::V1_2, server: false },
            AgentDescriptor { name: server, tls_version: TLSVersion::V1_2, server: true },
        ],
        steps: vec![
            InputAction::new_step(server, recipe0),
            InputAction::new_step(server, recipe1),
        ],
    };
    proof {
        let v = trace@;
        let expected = seed_heartbleed_trace(client, server);
        trace.lemma_view_parts();
        assert(v.steps[0] == expected.steps[0]);
        assert(v.steps[1] == expected.steps[1]);
        assert(v.steps =~= expected.steps);
        assert(v.prior_traces =~= expected.prior_traces);
        assert(v.descriptors =~= expected.descriptors);
        assert(v.step_valid(0, tls_symbols()));
        assert(v.step_valid(1, tls_symbols()));
    }
    trace
}

/// A TLS 1.2 handshake in which the client is offered an export cipher suite:
/// the trace of FREAK.
pub open spec fn seed_freak_trace(client: AgentName, server: AgentName) -> TraceView {
    TraceView {
        prior_traces: Seq::empty(),
        descriptors: seq![
            AgentDescriptor { name: client, tls_version: TLSVersion::V1_2, server: false },
            AgentDescriptor { name: server, tls_version: TLSVersion::V1_2, server: true },
        ],
        steps: seq![
            output_step(client, 0),
            input_step(server, export_client_hello_term()),
            output_step(server, 1),
            input_step(client, downgraded_server_hello_term()),
            input_step(
                client,
                apply(FN_CERTIFICATE, seq![variable(1, 1, TypeShape::single(CERTIFICATE_PAYLOAD))]),
            ),
            input_step(
                client,
                apply(FN_SERVER_KEY_EXCHANGE, seq![variable(1, 2, TypeShape::single(BYTES))]),
            ),
            input_step(client, apply(FN_SERVER_HELLO_DONE, Seq::empty())),
            output_step(client, 2),
            input_step(
                server,
                apply(FN_CLIENT_KEY_EXCHANGE, seq![variable(2, 0, TypeShape::single(BYTES))]),
            ),
            input_step(server, apply(FN_CHANGE_CIPHER_SPEC, Seq::empty())),
        ],
    }
}

/// A TLS 1.2 handshake in which the client is offered an export cipher suite:
/// the trace of FREAK.
pub fn seed_freak(client: AgentName, server: AgentName) -> (trace: Trace)
    ensures
        trace@ == seed_freak_trace(client, server),
        trace@.well_typed(tls_symbols()),
{
    let recipe1 = export_client_hello();
    let recipe3 = downgraded_server_hello();
    let recipe4 = app1(FN_CERTIFICATE, var(1, 1, TypeShape::single(CERTIFICATE_PAYLOAD)));
    let recipe5 = app1(FN_SERVER_KEY_EXCHANGE, var(1, 2, TypeShape::single(BYTES)));
    let recipe6 = app0(FN_SERVER_HELLO_DONE);
    let recipe8 = app1(FN_CLIENT_KEY_EXCHANGE, var(2, 0, TypeShape::single(BYTES)));
    let recipe9 = app0(FN_CHANGE_CIPHER_SPEC);
    let trace = Trace {
        prior_traces: Vec::new(),
        descriptors: vec![
            AgentDescriptor { name: client, tls_version: TLSVersion::V1_2, server: false },
            AgentDescriptor { name: server, tls_version: TLSVersion::V1_2, server: true },
        ],
        steps: vec![
            OutputAction::new_step(client, 0),
            InputAction::new_step(server, recipe1),
            OutputAction::new_step(server, 1),
            InputAction::new_step(client, recipe3),
            InputAction::new_step(client, recipe4),
            InputAction::new_step(client, recipe5),
            InputAction::new_step(client, recipe6),
            OutputAction::new_step(client, 2),
            InputAction::new_step(server, recipe8),
            InputAction::new_step(server, recipe9),
        ],
    };
    proof {
        let v = trace@;
        let expected = seed_freak_trace(client, server);
        trace.lemma_view_parts();
        assert(v.steps[0] == expected.steps[0]);
        assert(v.steps[1] == expected.steps[1]);
        assert(v.steps[2] == expected.steps[2]);
        assert(v.steps[3] == expected.steps[3]);
        assert(v.steps[4] == expected.steps[4]);
        assert(v.steps[5] == expected.steps[5]);
        assert(v.steps[6] == expected.steps[6]);
        assert(v.steps[7] == expected.steps[7]);
        assert(v.steps[8] == expected.steps[8]);
        assert(v.steps[9] == expected.steps[9]);
        assert(v.steps =~= expected.steps);
        assert(v.prior_traces =~= expected.prior_traces);
        assert(v.descriptors =~= expected.descriptors);
        assert(v.steps[0].produces(0));
        assert(v.produced_before(1, 0));
        assert(v.step_valid(1, tls_symbols()));
        assert(v.steps[2].produces(1));
        assert(v.produced_before(3, 1));
        assert(v.step_valid(3, tls_symbols()));
        assert(v.steps[2].produces(1));
        assert(v.produced_before(4, 1));
        assert(v.step_valid(4, tls_symbols()));
        assert(v.steps[2].produces(1));
        assert(v.produced_before(5, 1));
        assert(v.step_valid(5, tls_symbols()));
        assert(v.step_valid(6, tls_symbols()));
        assert(v.steps[7].produces(2));
        assert(v.produced_before(8, 2));
        assert(v.step_valid(8, tls_symbols()));
        assert(v.step_valid(9, tls_symbols()));
    }
    trace
}

/// A TLS 1.3 handshake of an attacker, then a second one that resumes its
/// session with the ticket of the first.
pub open spec fn seed_session_resumption_dhe_trace(server: AgentName) -> TraceView {
    TraceView {
        prior_traces: seq![seed_client_attacker_trace(server)],
        descriptors: seq![
            AgentDescriptor { name: server, tls_version: TLSVersion::V1_3, server: true },
        ],
        steps: seq![
            input_step(server, full_client_hello_term()),
            output_step(server, 10),
            input_step(server, encrypted_resumption_client_finished_term()),
        ],
    }
}

/// A TLS 1.3 handshake of an attacker, then a second one that resumes its
/// session with the ticket of the first.
pub fn seed_session_resumption_dhe(server: AgentName) -> (trace: Trace)
    ensures
        trace@ == seed_session_resumption_dhe_trace(server),
        trace@.well_typed(tls_symbols()),
{
    let recipe0 = full_client_hello();
    let recipe2 = encrypted_resumption_client_finished();
    let prior = seed_client_attacker(server);
    let trace = Trace {
        prior_traces: vec![prior],
        descriptors: vec![
            AgentDescriptor { name: server, tls_version: TLSVersion::V1_3, server: true },
        ],
        steps: vec![
            InputAction::new_step(server, recipe0),
            OutputAction::new_step(server, 10),
            InputAction::new_step(server, recipe2),
        ],
    };
    proof {
        let v = trace@;
        let expected = seed_session_resumption_dhe_trace(server);
        trace.lemma_view_parts();
        assert(v.steps[0] == expected.steps[0]);
        assert(v.steps[1] == expected.steps[1]);
        assert(v.steps[2] == expected.steps[2]);
        assert(v.steps =~= expected.steps);
        assert(v.prior_traces =~= expected.prior_traces);
        assert(v.descriptors =~= expected.descriptors);
        assert(v.prior_traces[0].steps[1].produces(0));
        assert(v.prior_traces[0].produces(0));
        assert(v.produced_before(0, 0));
        assert(v.prior_traces[0].steps[3].produces(1));
        assert(v.prior_traces[0].produces(1));
        assert(v.produced_before(0, 1));
        assert(v.step_valid(0, tls_symbols()));
        assert(v.prior_traces[0].steps[1].produces(0));
        assert(v.prior_traces[0].produces(0));
        assert(v.produced_before(2, 0));
        assert(v.prior_traces[0].steps[3].produces(1));
        assert(v.prior_traces[0].produces(1));
        assert(v.produced_before(2, 1));
        assert(v.steps[1].produces(10));
        assert(v.produced_before(2, 10));
        assert(v.step_valid(2, tls_symbols()));
    }
    trace
}

} // verus!
