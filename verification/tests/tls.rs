use tlspuffin::agent::AgentName;
use tlspuffin::algebra::TypeShape;
use tlspuffin::execution::TraceContext;
use tlspuffin::knowledge::Knowledge;
use tlspuffin::put::{Progress, Put, PutError};
use tlspuffin::tls::client_hello::{
    read_number16, ClientHelloSendAction, SendAction, ServerHelloExpectAction,
};
use tlspuffin::tls::query::TlsQueryMatcher::{
    Alert, ApplicationData, ChangeCipherSpec, Handshake, Heartbeat,
};
use tlspuffin::tls::query::{PayloadKind, QueryError, TlsQueryMatcher};
use tlspuffin::tls::record::{decode_flight, slice_bytes};
use tlspuffin::tls::signature::{
    tls_signature, tls_symbol_at, BYTES, CERTIFICATE_PAYLOAD, CIPHER_SUITE, CLIENT_EXTENSION,
    COMPRESSION, FN_CLIENT_HELLO, FN_LARGE_LENGTH, MESSAGE, NUMBER, OPAQUE_MESSAGE,
    PROTOCOL_VERSION, RANDOM, SERVER_EXTENSION, SESSION_ID, TLS_SYMBOL_COUNT,
};

struct Silent;

impl Put for Silent {
    fn progress(&mut self, _agent: AgentName) -> Result<Progress, PutError> {
        Err(PutError::ConnectionClosed)
    }

    fn deliver(&mut self, _agent: AgentName, _bytes: &Vec<u8>) -> Result<(), PutError> {
        Err(PutError::ConnectionClosed)
    }

    fn reset(&mut self) {
    }

    fn is_state_successful(&self) -> bool {
        false
    }
}

fn record(content_type: u8, payload: &[u8]) -> Vec<u8> {
    let mut r = vec![content_type, 3, 3, (payload.len() / 256) as u8, (payload.len() % 256) as u8];
    r.extend_from_slice(payload);
    r
}

fn both(record: &Vec<u8>) -> Vec<(TypeShape, Vec<u8>)> {
    vec![
        (TypeShape::single(MESSAGE), record.clone()),
        (TypeShape::single(OPAQUE_MESSAGE), record.clone()),
    ]
}

fn handshake(kind: u8, body: &[u8]) -> Vec<u8> {
    let mut message = vec![kind, 0, (body.len() / 256) as u8, (body.len() % 256) as u8];
    message.extend_from_slice(body);
    record(22, &message)
}

fn fields(record: &Vec<u8>) -> Vec<(TypeShape, Vec<u8>)> {
    shapes(record).split_off(2)
}

fn shapes(bytes: &Vec<u8>) -> Vec<(TypeShape, Vec<u8>)> {
    decode_flight(bytes).into_iter().map(|o| (o.typ, o.data)).collect()
}

#[test]
fn the_signature_has_every_symbol_at_its_position() {
    let sig = tls_signature();
    assert_eq!(sig.functions.len(), TLS_SYMBOL_COUNT);
    assert_eq!(sig.functions[FN_CLIENT_HELLO].name, "fn_client_hello");
    assert_eq!(sig.functions[FN_CLIENT_HELLO].inputs.len(), 6);
    assert_eq!(sig.functions[FN_CLIENT_HELLO].inputs[3], TypeShape::many(CIPHER_SUITE));
    assert_eq!(sig.functions[FN_CLIENT_HELLO].output, TypeShape::single(MESSAGE));
    assert_eq!(sig.functions[FN_LARGE_LENGTH].name, "fn_large_length");
    assert_eq!(FN_LARGE_LENGTH, TLS_SYMBOL_COUNT - 1);
    for i in 0..TLS_SYMBOL_COUNT {
        assert_eq!(tls_symbol_at(i).name, sig.functions[i].name);
        assert!(sig.functions[i].name.starts_with("fn_"));
    }
}

#[test]
fn a_flight_is_cut_into_records() {
    let flight = [record(22, &[1, 2]), record(20, &[1]), record(23, &[9, 9, 9])].concat();
    assert_eq!(
        shapes(&flight),
        vec![
            (TypeShape::single(MESSAGE), record(22, &[1, 2])),
            (TypeShape::single(OPAQUE_MESSAGE), record(22, &[1, 2])),
            (TypeShape::single(MESSAGE), record(20, &[1])),
            (TypeShape::single(OPAQUE_MESSAGE), record(20, &[1])),
            (TypeShape::single(MESSAGE), record(23, &[9, 9, 9])),
            (TypeShape::single(OPAQUE_MESSAGE), record(23, &[9, 9, 9])),
            (TypeShape::single(BYTES), vec![9, 9, 9]),
        ]
    );
}

#[test]
fn decoding_stops_where_no_complete_record_starts() {
    assert!(shapes(&vec![]).is_empty());
    assert!(shapes(&vec![22, 3, 3, 0]).is_empty());
    assert!(shapes(&vec![22, 3, 3, 0, 2, 1]).is_empty());
    let with_tail = [record(21, &[2, 40]), vec![22, 3, 3, 0, 5, 1]].concat();
    assert_eq!(shapes(&with_tail), both(&record(21, &[2, 40])));
    let unknown_type = [record(22, &[1]), record(25, &[1]), record(22, &[2])].concat();
    assert_eq!(shapes(&unknown_type), both(&record(22, &[1])));
    assert!(shapes(&record(19, &[1])).is_empty());
}

#[test]
fn records_may_be_empty_and_up_to_the_longest_fragment() {
    let mut empty = both(&record(23, &[]));
    empty.push((TypeShape::single(BYTES), vec![]));
    assert_eq!(shapes(&record(23, &[])), empty);
    assert_eq!(shapes(&record(24, &[])), both(&record(24, &[])));
    let longest = vec![7u8; 18432];
    assert_eq!(shapes(&record(23, &longest))[2], (TypeShape::single(BYTES), longest));
    let too_long = vec![7u8; 18433];
    assert!(shapes(&record(23, &too_long)).is_empty());
}

#[test]
fn bytes_are_sliced() {
    let b = vec![1u8, 2, 3, 4];
    assert_eq!(slice_bytes(&b, 1, 3), vec![2, 3]);
    assert_eq!(slice_bytes(&b, 0, 4), b);
    assert_eq!(slice_bytes(&b, 2, 2), Vec::<u8>::new());
}

#[test]
fn matchers_match_by_content_type_and_handshake_type() {
    assert!(Alert.matches(&Alert));
    assert!(!Alert.matches(&Heartbeat));
    assert!(ChangeCipherSpec.matches(&ChangeCipherSpec));
    assert!(ApplicationData.matches(&ApplicationData));
    assert!(!ApplicationData.matches(&Handshake(None)));
    assert!(!Handshake(None).matches(&ApplicationData));
    assert!(Handshake(None).matches(&Handshake(None)));
    assert!(!Handshake(None).matches(&Handshake(Some(1))));
    assert!(Handshake(Some(1)).matches(&Handshake(Some(1))));
    assert!(!Handshake(Some(1)).matches(&Handshake(Some(2))));
    assert!(Handshake(Some(1)).matches(&Handshake(None)));
}

#[test]
fn specificity_grows_with_what_is_known() {
    assert_eq!(Handshake(Some(1)).specificity(), 2);
    assert_eq!(Handshake(None).specificity(), 1);
    for m in [ChangeCipherSpec, Alert, ApplicationData, Heartbeat] {
        assert_eq!(m.specificity(), 0);
    }
}

#[test]
fn a_query_matches_only_what_is_at_least_as_specific() {
    let all = [
        ChangeCipherSpec,
        Alert,
        Handshake(None),
        Handshake(Some(1)),
        Handshake(Some(2)),
        ApplicationData,
        Heartbeat,
    ];
    for m in all {
        assert!(m.matches(&m));
        for q in all {
            if m.matches(&q) {
                assert!(m.specificity() >= q.specificity());
            }
        }
    }
}

#[test]
fn the_kind_of_a_record_is_extracted() {
    assert_eq!(
        TlsQueryMatcher::try_from(22, Some(PayloadKind::Handshake(1))),
        Ok(Handshake(Some(1)))
    );
    assert_eq!(
        TlsQueryMatcher::try_from(22, Some(PayloadKind::EncryptedHandshake)),
        Ok(Handshake(None))
    );
    assert_eq!(TlsQueryMatcher::try_from(22, None), Ok(Handshake(None)));
    assert_eq!(
        TlsQueryMatcher::try_from(22, Some(PayloadKind::Other)),
        Err(QueryError::Extraction)
    );
    assert_eq!(TlsQueryMatcher::try_from(23, None), Ok(ApplicationData));
    assert_eq!(TlsQueryMatcher::try_from(23, Some(PayloadKind::Other)), Ok(ApplicationData));
    assert_eq!(TlsQueryMatcher::try_from(24, None), Ok(Heartbeat));
    assert_eq!(TlsQueryMatcher::try_from(21, None), Ok(Alert));
    assert_eq!(TlsQueryMatcher::try_from(20, None), Ok(ChangeCipherSpec));
    assert_eq!(TlsQueryMatcher::try_from(0, None), Err(QueryError::Extraction));
    assert_eq!(TlsQueryMatcher::try_from(25, None), Err(QueryError::Extraction));
}

fn add(ctx: &mut TraceContext<Silent>, typ: u32, data: &[u8]) {
    ctx.add_variable(Knowledge {
        step: 0,
        index: 0,
        typ: TypeShape::single(typ),
        data: data.to_vec(),
    });
}

fn hello_fields() -> TraceContext<Silent> {
    let mut ctx: TraceContext<Silent> = TraceContext::new();
    add(&mut ctx, PROTOCOL_VERSION, &[3, 3]);
    add(&mut ctx, RANDOM, &[0x42; 32]);
    add(&mut ctx, SESSION_ID, &[0xa1, 0xa2]);
    ctx
}

fn expected_hello(body_tail: &[u8]) -> Vec<u8> {
    let mut body = vec![3, 3];
    body.extend_from_slice(&[0x42; 32]);
    body.extend_from_slice(&[2, 0xa1, 0xa2]);
    body.extend_from_slice(body_tail);
    let mut handshake = vec![1, 0, 0, body.len() as u8];
    handshake.extend_from_slice(&body);
    let mut record = vec![22, 3, 4, 0, handshake.len() as u8];
    record.extend_from_slice(&handshake);
    record
}

#[test]
fn a_client_hello_without_lists_is_crafted() {
    let ctx = hello_fields();
    let bytes = ClientHelloSendAction::new().craft(&ctx).unwrap();
    assert_eq!(bytes, expected_hello(&[0, 0, 0]));
}

#[test]
fn a_client_hello_with_suites_compressions_and_extensions_is_crafted() {
    let mut ctx = hello_fields();
    add(&mut ctx, CIPHER_SUITE, &[0x13, 0x01]);
    add(&mut ctx, COMPRESSION, &[0]);
    add(&mut ctx, CIPHER_SUITE, &[0xc0, 0x2f]);
    add(&mut ctx, CLIENT_EXTENSION, &[0x00, 0x2b, 3, 4]);
    add(&mut ctx, CLIENT_EXTENSION, &[0xff, 0x01]);
    // A second version, random and session identifier are not used.
    add(&mut ctx, PROTOCOL_VERSION, &[3, 1]);
    add(&mut ctx, RANDOM, &[0; 32]);
    add(&mut ctx, SESSION_ID, &[]);
    let bytes = ClientHelloSendAction::new().craft_from(&ctx).unwrap();
    let tail = [
        0, 4, 0x13, 0x01, 0xc0, 0x2f, // cipher suites
        1, 0, // compression methods
        0, 10, // extensions
        0x00, 0x2b, 0, 2, 3, 4, // the first extension
        0xff, 0x01, 0, 0, // the second extension
    ];
    assert_eq!(bytes, expected_hello(&tail));
    // What was crafted is observed again, field by field.
    assert_eq!(
        fields(&bytes),
        vec![
            (TypeShape::single(PROTOCOL_VERSION), vec![3, 3]),
            (TypeShape::single(RANDOM), vec![0x42; 32]),
            (TypeShape::single(SESSION_ID), vec![0xa1, 0xa2]),
            (TypeShape::many(CIPHER_SUITE), vec![0x13, 0x01, 0xc0, 0x2f]),
            (TypeShape::many(COMPRESSION), vec![0]),
            (
                TypeShape::many(CLIENT_EXTENSION),
                vec![0x00, 0x2b, 0, 2, 3, 4, 0xff, 0x01, 0, 0]
            ),
        ]
    );
}

#[test]
fn no_client_hello_without_version_random_or_session_id() {
    for missing in [PROTOCOL_VERSION, RANDOM, SESSION_ID] {
        let mut ctx: TraceContext<Silent> = TraceContext::new();
        if missing != PROTOCOL_VERSION {
            add(&mut ctx, PROTOCOL_VERSION, &[3, 3]);
        }
        if missing != RANDOM {
            add(&mut ctx, RANDOM, &[0x42; 32]);
        }
        if missing != SESSION_ID {
            add(&mut ctx, SESSION_ID, &[]);
        }
        assert_eq!(ClientHelloSendAction::new().craft(&ctx), Err(()));
    }
    let empty: TraceContext<Silent> = TraceContext::new();
    assert_eq!(ClientHelloSendAction::new().craft(&empty), Err(()));
}

#[test]
fn no_client_hello_from_values_of_the_wrong_length() {
    let mut short_random: TraceContext<Silent> = TraceContext::new();
    add(&mut short_random, PROTOCOL_VERSION, &[3, 3]);
    add(&mut short_random, RANDOM, &[0x42; 31]);
    add(&mut short_random, SESSION_ID, &[]);
    assert_eq!(ClientHelloSendAction::new().craft(&short_random), Err(()));

    let mut long_session: TraceContext<Silent> = TraceContext::new();
    add(&mut long_session, PROTOCOL_VERSION, &[3, 3]);
    add(&mut long_session, RANDOM, &[0x42; 32]);
    add(&mut long_session, SESSION_ID, &[1; 33]);
    assert_eq!(ClientHelloSendAction::new().craft(&long_session), Err(()));

    let mut version = hello_fields();
    version.knowledge[0].data = vec![3];
    assert_eq!(ClientHelloSendAction::new().craft(&version), Err(()));

    let mut suite = hello_fields();
    add(&mut suite, CIPHER_SUITE, &[1, 2, 3]);
    assert_eq!(ClientHelloSendAction::new().craft(&suite), Err(()));

    let mut compression = hello_fields();
    add(&mut compression, COMPRESSION, &[]);
    assert_eq!(ClientHelloSendAction::new().craft(&compression), Err(()));

    let mut extension = hello_fields();
    add(&mut extension, CLIENT_EXTENSION, &[1]);
    assert_eq!(ClientHelloSendAction::new().craft(&extension), Err(()));
}

#[test]
fn no_client_hello_with_lists_that_do_not_fit() {
    let mut compressions = hello_fields();
    for _ in 0..256 {
        add(&mut compressions, COMPRESSION, &[0]);
    }
    assert_eq!(ClientHelloSendAction::new().craft(&compressions), Err(()));

    let mut extensions = hello_fields();
    add(&mut extensions, CLIENT_EXTENSION, &vec![0u8; 40000]);
    assert!(ClientHelloSendAction::new().craft(&extensions).is_ok());
    add(&mut extensions, CLIENT_EXTENSION, &vec![0u8; 40000]);
    assert_eq!(ClientHelloSendAction::new().craft(&extensions), Err(()));

    // The extensions fit their length, but the client hello does not fit a
    // record.
    let mut record = hello_fields();
    add(&mut record, CLIENT_EXTENSION, &vec![0u8; 65533]);
    assert_eq!(ClientHelloSendAction::new().craft(&record), Err(()));
    let mut largest = hello_fields();
    add(&mut largest, CLIENT_EXTENSION, &vec![0u8; 65531 - 42 - 2]);
    let bytes = ClientHelloSendAction::new().craft(&largest).unwrap();
    assert_eq!(bytes.len(), 5 + 65535);
    assert_eq!(&bytes[..9], &[22, 3, 4, 0xff, 0xff, 1, 0, 0xff, 0xfb]);
    let mut over = hello_fields();
    add(&mut over, CLIENT_EXTENSION, &vec![0u8; 65531 - 42 - 1]);
    assert_eq!(ClientHelloSendAction::new().craft(&over), Err(()));

    let mut session: TraceContext<Silent> = TraceContext::new();
    add(&mut session, PROTOCOL_VERSION, &[3, 3]);
    add(&mut session, RANDOM, &[0x42; 32]);
    add(&mut session, SESSION_ID, &[5; 32]);
    assert!(ClientHelloSendAction::new().craft(&session).is_ok());
}

#[test]
fn numbers_are_read_high_byte_first() {
    assert_eq!(read_number16(&vec![0x13, 0x01]), 0x1301);
    assert_eq!(read_number16(&vec![0xff, 0xff, 7]), 0xffff);
    assert_eq!(read_number16(&vec![0, 0]), 0);
}

#[test]
fn actions_are_made() {
    let _ = ServerHelloExpectAction::new();
    let _ = ClientHelloSendAction::new();
}

fn hello_start(session_id: &[u8]) -> Vec<u8> {
    let mut body = vec![3, 1];
    body.extend_from_slice(&[0x11; 32]);
    body.push(session_id.len() as u8);
    body.extend_from_slice(session_id);
    body
}

#[test]
fn a_server_hello_is_observed_field_by_field() {
    let mut body = hello_start(&[5, 6, 7]);
    body.extend_from_slice(&[0xc0, 0x2f, 1]);
    let without = handshake(2, &body);
    assert_eq!(
        fields(&without),
        vec![
            (TypeShape::single(PROTOCOL_VERSION), vec![3, 1]),
            (TypeShape::single(RANDOM), vec![0x11; 32]),
            (TypeShape::single(SESSION_ID), vec![5, 6, 7]),
            (TypeShape::single(CIPHER_SUITE), vec![0xc0, 0x2f]),
            (TypeShape::single(COMPRESSION), vec![1]),
            (TypeShape::many(SERVER_EXTENSION), vec![]),
        ]
    );
    body.extend_from_slice(&[0, 4, 0xff, 0x01, 0, 0]);
    assert_eq!(
        fields(&handshake(2, &body))[5],
        (TypeShape::many(SERVER_EXTENSION), vec![0xff, 0x01, 0, 0])
    );
    // The length of the extensions must be that of the rest.
    body.push(0);
    assert!(fields(&handshake(2, &body)).is_empty());
    // A hello that is cut short.
    assert!(fields(&handshake(2, &hello_start(&[5, 6, 7]))).is_empty());
    assert!(fields(&handshake(2, &[3, 3])).is_empty());
}

#[test]
fn a_client_hello_is_observed_field_by_field() {
    let mut body = hello_start(&[]);
    body.extend_from_slice(&[0, 2, 0x13, 0x01, 2, 0, 1]);
    assert_eq!(
        fields(&handshake(1, &body)),
        vec![
            (TypeShape::single(PROTOCOL_VERSION), vec![3, 1]),
            (TypeShape::single(RANDOM), vec![0x11; 32]),
            (TypeShape::single(SESSION_ID), vec![]),
            (TypeShape::many(CIPHER_SUITE), vec![0x13, 0x01]),
            (TypeShape::many(COMPRESSION), vec![0, 1]),
            (TypeShape::many(CLIENT_EXTENSION), vec![]),
        ]
    );
    // Lists that run over the end.
    let mut long_suites = hello_start(&[]);
    long_suites.extend_from_slice(&[0, 4, 0x13, 0x01, 1, 0]);
    assert!(fields(&handshake(1, &long_suites)).is_empty());
    let mut long_methods = hello_start(&[]);
    long_methods.extend_from_slice(&[0, 2, 0x13, 0x01, 3, 0]);
    assert!(fields(&handshake(1, &long_methods)).is_empty());
    let mut long_session = hello_start(&[]);
    long_session[34] = 200;
    assert!(fields(&handshake(1, &long_session)).is_empty());
}

#[test]
fn other_handshake_messages_are_observed_by_their_kind() {
    assert_eq!(
        fields(&handshake(11, &[1, 2, 3])),
        vec![(TypeShape::single(CERTIFICATE_PAYLOAD), vec![1, 2, 3])]
    );
    assert_eq!(fields(&handshake(12, &[4, 5])), vec![(TypeShape::single(BYTES), vec![4, 5])]);
    assert_eq!(fields(&handshake(16, &[])), vec![(TypeShape::single(BYTES), vec![])]);
    assert_eq!(
        fields(&handshake(4, &[0, 0, 1, 0, 0, 2, 8, 9])),
        vec![
            (TypeShape::single(NUMBER), vec![0, 0, 1, 0]),
            (TypeShape::single(BYTES), vec![8, 9]),
        ]
    );
    assert!(fields(&handshake(4, &[0, 0, 1, 0, 0, 3, 8, 9])).is_empty());
    assert!(fields(&handshake(14, &[])).is_empty());
    assert!(fields(&handshake(20, &[1, 2, 3])).is_empty());
    // A fragment that is not one whole message.
    assert!(fields(&record(22, &[11, 0, 0, 5, 1, 2])).is_empty());
    assert!(fields(&record(22, &[11, 0, 0])).is_empty());
    // Other records have no fields.
    assert!(fields(&record(21, &[11, 0, 0, 0])).is_empty());
}
