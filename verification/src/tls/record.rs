//! TLS records on the wire: how the bytes that a peer sends are cut into
//! records, and what each record becomes as an observation.

use crate::algebra::TypeShape;
use crate::knowledge::{Observation, ObservationView};
use crate::tls::signature::{
    BYTES, CERTIFICATE_PAYLOAD, CIPHER_SUITE, CLIENT_EXTENSION, COMPRESSION, MESSAGE, NUMBER,
    OPAQUE_MESSAGE, PROTOCOL_VERSION, RANDOM, SERVER_EXTENSION, SESSION_ID,
};
use vstd::prelude::*;

verus! {

/// The content type of a change of cipher spec.
pub const CHANGE_CIPHER_SPEC: u8 = 20;

/// The content type of an alert.
pub const ALERT: u8 = 21;

/// The content type of a handshake message.
pub const HANDSHAKE: u8 = 22;

/// The content type of application data.
pub const APPLICATION_DATA: u8 = 23;

/// The content type of a heartbeat.
pub const HEARTBEAT: u8 = 24;

/// The handshake type of a client hello.
pub const CLIENT_HELLO: u8 = 1;

/// The handshake type of a server hello.
pub const SERVER_HELLO: u8 = 2;

/// The handshake type of a session ticket.
pub const NEW_SESSION_TICKET: u8 = 4;

/// The handshake type of a certificate message.
pub const CERTIFICATE: u8 = 11;

/// The handshake type of the key exchange of a server.
pub const SERVER_KEY_EXCHANGE: u8 = 12;

/// The handshake type of the key exchange of a client.
pub const CLIENT_KEY_EXCHANGE: u8 = 16;

/// The length of a record's header: content type, version and length.
pub const HEADER_LEN: usize = 5;

/// The longest fragment that a record may carry: 2^14 bytes and 2048 bytes
/// of allowance for encryption.
pub const MAX_FRAGMENT_LEN: usize = 18432;

/// The content type is one that TLS defines.
pub open spec fn known_content_type(content_type: u8) -> bool {
    CHANGE_CIPHER_SPEC <= content_type <= HEARTBEAT
}

/// The length that the header at position `at` announces for its fragment.
pub open spec fn fragment_len(bytes: Seq<u8>, at: int) -> int {
    number16_at(bytes, at + 3)
}

/// A complete record of a known content type starts at position `at`.
pub open spec fn record_at(bytes: Seq<u8>, at: int) -> bool {
    &&& 0 <= at
    &&& at + HEADER_LEN <= bytes.len()
    &&& known_content_type(bytes[at])
    &&& fragment_len(bytes, at) <= MAX_FRAGMENT_LEN
    &&& at + HEADER_LEN + fragment_len(bytes, at) <= bytes.len()
}

/// The number that the two bytes at position `at` stand for, the high byte
/// first.
pub open spec fn number16_at(bytes: Seq<u8>, at: int) -> int {
    bytes[at] as int * 256 + bytes[at + 1] as int
}

/// The number that the three bytes at position `at` stand for, the high byte
/// first.
pub open spec fn number24_at(bytes: Seq<u8>, at: int) -> int {
    bytes[at] as int * 65536 + bytes[at + 1] as int * 256 + bytes[at + 2] as int
}

/// The value `data` observed at type `typ`.
pub open spec fn observed(typ: TypeShape, data: Seq<u8>) -> ObservationView {
    ObservationView { typ, data }
}

/// The extensions that end a hello message whose other fields end at
/// position `at`: none where the message ends there, else the bytes behind
/// the two bytes that tell their length, where the length is that of the
/// rest of the message.
pub open spec fn extensions_behind(body: Seq<u8>, at: int) -> Option<Seq<u8>> {
    if at == body.len() {
        Some(Seq::empty())
    } else if at + 2 <= body.len() && at + 2 + number16_at(body, at) == body.len() {
        Some(body.subrange(at + 2, body.len() as int))
    } else {
        None
    }
}

/// What a client hello is observed as: its protocol version, its random, its
/// session identifier, and its lists of cipher suites, of compression
/// methods and of extensions, each list as the bytes of its elements.
/// Nothing is observed of a body that is no client hello.
pub open spec fn client_hello_observations(body: Seq<u8>) -> Seq<ObservationView> {
    if body.len() >= 35 && 35 + body[34] + 2 <= body.len() {
        let suites_at = 35 + body[34];
        let suites_end = suites_at + 2 + number16_at(body, suites_at);
        if suites_end + 1 <= body.len() && suites_end + 1 + body[suites_end] <= body.len() {
            let methods_end = suites_end + 1 + body[suites_end];
            match extensions_behind(body, methods_end) {
                Some(extensions) => seq![
                    observed(TypeShape::single(PROTOCOL_VERSION), body.subrange(0, 2)),
                    observed(TypeShape::single(RANDOM), body.subrange(2, 34)),
                    observed(TypeShape::single(SESSION_ID), body.subrange(35, suites_at)),
                    observed(
                        TypeShape::many(CIPHER_SUITE),
                        body.subrange(suites_at + 2, suites_end),
                    ),
                    observed(
                        TypeShape::many(COMPRESSION),
                        body.subrange(suites_end + 1, methods_end),
                    ),
                    observed(TypeShape::many(CLIENT_EXTENSION), extensions),
                ],
                None => Seq::empty(),
            }
        } else {
            Seq::empty()
        }
    } else {
        Seq::empty()
    }
}

/// What a server hello is observed as: its protocol version, its random, its
/// session identifier, its cipher suite, its compression method, and its
/// list of extensions as the bytes of its elements. Nothing is observed of a
/// body that is no server hello.
pub open spec fn server_hello_observations(body: Seq<u8>) -> Seq<ObservationView> {
    if body.len() >= 35 && 35 + body[34] + 3 <= body.len() {
        let suite_at = 35 + body[34];
        match extensions_behind(body, suite_at + 3) {
            Some(extensions) => seq![
                observed(TypeShape::single(PROTOCOL_VERSION), body.subrange(0, 2)),
                observed(TypeShape::single(RANDOM), body.subrange(2, 34)),
                observed(TypeShape::single(SESSION_ID), body.subrange(35, suite_at)),
                observed(TypeShape::single(CIPHER_SUITE), body.subrange(suite_at, suite_at + 2)),
                observed(
                    TypeShape::single(COMPRESSION),
                    body.subrange(suite_at + 2, suite_at + 3),
                ),
                observed(TypeShape::many(SERVER_EXTENSION), extensions),
            ],
            None => Seq::empty(),
        }
    } else {
        Seq::empty()
    }
}

/// What a session ticket is observed as: its lifetime, a number of four
/// bytes, and the ticket. Nothing is observed of a body that is no session
/// ticket.
pub open spec fn ticket_observations(body: Seq<u8>) -> Seq<ObservationView> {
    if body.len() >= 6 && 6 + number16_at(body, 4) == body.len() {
        seq![
            observed(TypeShape::single(NUMBER), body.subrange(0, 4)),
            observed(TypeShape::single(BYTES), body.subrange(6, body.len() as int)),
        ]
    } else {
        Seq::empty()
    }
}

/// What the fragment of a handshake record is observed as, where it holds
/// one whole handshake message: the fields of a hello message, the fields of
/// a session ticket, the certificate chain of a certificate message, the
/// body of a key exchange message as a byte string. Nothing is observed of
/// another message, nor of a fragment that is not one whole message.
pub open spec fn handshake_observations(fragment: Seq<u8>) -> Seq<ObservationView> {
    if fragment.len() >= 4 && number24_at(fragment, 1) == fragment.len() - 4 {
        let body = fragment.skip(4);
        if fragment[0] == CLIENT_HELLO {
            client_hello_observations(body)
        } else if fragment[0] == SERVER_HELLO {
            server_hello_observations(body)
        } else if fragment[0] == NEW_SESSION_TICKET {
            ticket_observations(body)
        } else if fragment[0] == CERTIFICATE {
            seq![observed(TypeShape::single(CERTIFICATE_PAYLOAD), body)]
        } else if fragment[0] == SERVER_KEY_EXCHANGE || fragment[0] == CLIENT_KEY_EXCHANGE {
            seq![observed(TypeShape::single(BYTES), body)]
        } else {
            Seq::empty()
        }
    } else {
        Seq::empty()
    }
}

/// What the record at position `at` is observed as: the record, header
/// included, as a message and as an opaque message; then the fragment of
/// application data as a byte string, or what the fragment of a handshake
/// record is observed as.
pub open spec fn observations_at(bytes: Seq<u8>, at: int) -> Seq<ObservationView> {
    let end = at + HEADER_LEN + fragment_len(bytes, at);
    let record = bytes.subrange(at, end);
    let fragment = bytes.subrange(at + HEADER_LEN, end);
    seq![
        observed(TypeShape::single(MESSAGE), record),
        observed(TypeShape::single(OPAQUE_MESSAGE), record),
    ] + if bytes[at] == APPLICATION_DATA {
        seq![observed(TypeShape::single(BYTES), fragment)]
    } else if bytes[at] == HANDSHAKE {
        handshake_observations(fragment)
    } else {
        Seq::empty()
    }
}

/// The observations of the records that follow one another from position
/// `at`, up to the first place where no complete record of a known content
/// type starts.
pub open spec fn decode_from(bytes: Seq<u8>, at: int) -> Seq<ObservationView>
    decreases bytes.len() - at,
{
    if record_at(bytes, at) {
        observations_at(bytes, at) + decode_from(
            bytes,
            at + HEADER_LEN + fragment_len(bytes, at),
        )
    } else {
        Seq::empty()
    }
}

/// The observations that the bytes of a peer hold, record by record.
pub open spec fn decode(bytes: Seq<u8>) -> Seq<ObservationView> {
    decode_from(bytes, 0)
}

/// The bytes of `bytes` from `from` up to `to`.
pub fn slice_bytes(bytes: &Vec<u8>, from: usize, to: usize) -> (r: Vec<u8>)
    requires
        from <= to <= bytes.len(),
    ensures
        r@ == bytes@.subrange(from as int, to as int),
{
    let mut r: Vec<u8> = Vec::new();
    let mut i: usize = from;
    while i < to
        invariant
            from <= i <= to <= bytes.len(),
            r@ == bytes@.subrange(from as int, i as int),
        decreases to - i,
    {
        r.push(bytes[i]);
        assert(bytes@.subrange(from as int, i + 1) =~= bytes@.subrange(from as int, i as int).push(
            bytes@[i as int],
        ));
        i += 1;
    }
    r
}

/// The value `data` observed at type `typ`.
pub fn observation(typ: TypeShape, data: Vec<u8>) -> (o: Observation)
    ensures
        o@ == observed(typ, data@),
{
    Observation { typ, data }
}

/// The number that the two bytes at position `at` stand for.
pub fn read16(bytes: &Vec<u8>, at: usize) -> (n: usize)
    requires
        at + 2 <= bytes.len(),
    ensures
        n == number16_at(bytes@, at as int),
        n <= 0xffff,
{
    (bytes[at] as usize) * 256 + (bytes[at + 1] as usize)
}

/// The extensions that end a hello message whose other fields end at
/// position `at`.
pub fn read_extensions(body: &Vec<u8>, at: usize) -> (r: Option<Vec<u8>>)
    requires
        at <= body.len(),
    ensures
        r is Some <==> extensions_behind(body@, at as int) is Some,
        r matches Some(extensions) ==> extensions_behind(body@, at as int) == Some(extensions@),
{
    if at == body.len() {
        Some(Vec::new())
    } else if body.len() - at >= 2 && read16(body, at) == body.len() - at - 2 {
        Some(slice_bytes(body, at + 2, body.len()))
    } else {
        None
    }
}

/// What a client hello is observed as.
pub fn observe_client_hello(body: &Vec<u8>) -> (r: Vec<Observation>)
    ensures
        r.deep_view() == client_hello_observations(body@),
{
    if body.len() < 35 || body.len() - 35 < body[34] as usize + 2 {
        return Vec::new();
    }
    let suites_at: usize = 35 + body[34] as usize;
    let suites_len = read16(body, suites_at);
    if body.len() - suites_at - 2 < suites_len + 1 {
        return Vec::new();
    }
    let suites_end: usize = suites_at + 2 + suites_len;
    let methods_len = body[suites_end] as usize;
    if body.len() - suites_end - 1 < methods_len {
        return Vec::new();
    }
    let methods_end: usize = suites_end + 1 + methods_len;
    match read_extensions(body, methods_end) {
        None => {
                Vec::new()
        },
        Some(extensions) => {
            let r = vec![
                observation(TypeShape::single(PROTOCOL_VERSION), slice_bytes(body, 0, 2)),
                observation(TypeShape::single(RANDOM), slice_bytes(body, 2, 34)),
                observation(TypeShape::single(SESSION_ID), slice_bytes(body, 35, suites_at)),
                observation(
                    TypeShape::many(CIPHER_SUITE),
                    slice_bytes(body, suites_at + 2, suites_end),
                ),
                observation(
                    TypeShape::many(COMPRESSION),
                    slice_bytes(body, suites_end + 1, methods_end),
                ),
                observation(TypeShape::many(CLIENT_EXTENSION), extensions),
            ];
            assert(r.deep_view() =~= client_hello_observations(body@));
            r
        },
    }
}

/// What a server hello is observed as.
pub fn observe_server_hello(body: &Vec<u8>) -> (r: Vec<Observation>)
    ensures
        r.deep_view() == server_hello_observations(body@),
{
    if body.len() < 35 || body.len() - 35 < body[34] as usize + 3 {
        return Vec::new();
    }
    let suite_at: usize = 35 + body[34] as usize;
    match read_extensions(body, suite_at + 3) {
        None => {
                Vec::new()
        },
        Some(extensions) => {
            let r = vec![
                observation(TypeShape::single(PROTOCOL_VERSION), slice_bytes(body, 0, 2)),
                observation(TypeShape::single(RANDOM), slice_bytes(body, 2, 34)),
                observation(TypeShape::single(SESSION_ID), slice_bytes(body, 35, suite_at)),
                observation(
                    TypeShape::single(CIPHER_SUITE),
                    slice_bytes(body, suite_at, suite_at + 2),
                ),
                observation(
                    TypeShape::single(COMPRESSION),
                    slice_bytes(body, suite_at + 2, suite_at + 3),
                ),
                observation(TypeShape::many(SERVER_EXTENSION), extensions),
            ];
            assert(r.deep_view() =~= server_hello_observations(body@));
            r
        },
    }
}

/// What a session ticket is observed as.
pub fn observe_ticket(body: &Vec<u8>) -> (r: Vec<Observation>)
    ensures
        r.deep_view() == ticket_observations(body@),
{
    if body.len() < 6 || read16(body, 4) != body.len() - 6 {
        return Vec::new();
    }
    let r = vec![
        observation(TypeShape::single(NUMBER), slice_bytes(body, 0, 4)),
        observation(TypeShape::single(BYTES), slice_bytes(body, 6, body.len())),
    ];
    assert(r.deep_view() =~= ticket_observations(body@));
    r
}

/// What the fragment of a handshake record is observed as.
pub fn observe_handshake(fragment: &Vec<u8>) -> (r: Vec<Observation>)
    ensures
        r.deep_view() == handshake_observations(fragment@),
{
    if fragment.len() < 4 {
        return Vec::new();
    }
    let announced: usize = (fragment[1] as usize) * 65536 + (fragment[2] as usize) * 256 + (
    fragment[3] as usize);
    if announced != fragment.len() - 4 {
        return Vec::new();
    }
    let body = slice_bytes(fragment, 4, fragment.len());
    assert(body@ == fragment@.skip(4));
    let kind = fragment[0];
    if kind == CLIENT_HELLO {
        observe_client_hello(&body)
    } else if kind == SERVER_HELLO {
        observe_server_hello(&body)
    } else if kind == NEW_SESSION_TICKET {
        observe_ticket(&body)
    } else if kind == CERTIFICATE {
        let r = vec![observation(TypeShape::single(CERTIFICATE_PAYLOAD), body)];
        assert(r.deep_view() =~= handshake_observations(fragment@));
        r
    } else if kind == SERVER_KEY_EXCHANGE || kind == CLIENT_KEY_EXCHANGE {
        let r = vec![observation(TypeShape::single(BYTES), body)];
        assert(r.deep_view() =~= handshake_observations(fragment@));
        r
    } else {
        Vec::new()
    }
}

/// Appends `more` to `out`.
pub fn append_observations(out: &mut Vec<Observation>, more: Vec<Observation>)
    ensures
        final(out).deep_view() == old(out).deep_view() + more.deep_view(),
{
    let mut more = more;
    let ghost added = more.deep_view();
    out.append(&mut more);
    assert(out.deep_view() =~= old(out).deep_view() + added);
}

/// Cuts the bytes of a peer into records and gives what each is observed as.
pub fn decode_flight(bytes: &Vec<u8>) -> (observations: Vec<Observation>)
    ensures
        observations.deep_view() == decode(bytes@),
{
    let mut observations: Vec<Observation> = Vec::new();
    let mut at: usize = 0;
    assert(observations.deep_view() =~= Seq::<ObservationView>::empty());
    loop
        invariant
            at <= bytes.len(),
            decode(bytes@) == observations.deep_view() + decode_from(bytes@, at as int),
        ensures
            !record_at(bytes@, at as int),
        decreases bytes.len() - at,
    {
        if bytes.len() - at < HEADER_LEN {
            break ;
        }
        let content_type = bytes[at];
        let announced: usize = read16(bytes, at + 3);
        if content_type < CHANGE_CIPHER_SPEC || content_type > HEARTBEAT || announced
            > MAX_FRAGMENT_LEN || announced > bytes.len() - at - HEADER_LEN {
            break ;
        }
        let end = at + HEADER_LEN + announced;
        let fragment = slice_bytes(bytes, at + HEADER_LEN, end);
        let mut seen = vec![
            observation(TypeShape::single(MESSAGE), slice_bytes(bytes, at, end)),
            observation(TypeShape::single(OPAQUE_MESSAGE), slice_bytes(bytes, at, end)),
        ];
        let ghost both = seen.deep_view();
        if content_type == APPLICATION_DATA {
            seen.push(observation(TypeShape::single(BYTES), fragment));
            assert(seen.deep_view() =~= observations_at(bytes@, at as int));
        } else if content_type == HANDSHAKE {
            let fields = observe_handshake(&fragment);
            append_observations(&mut seen, fields);
            assert(seen.deep_view() =~= observations_at(bytes@, at as int));
        } else {
            assert(seen.deep_view() =~= observations_at(bytes@, at as int));
        }
        let ghost before = observations.deep_view();
        append_observations(&mut observations, seen);
        assert(before + (observations_at(bytes@, at as int) + decode_from(bytes@, end as int))
            =~= (before + observations_at(bytes@, at as int)) + decode_from(bytes@, end as int));
        at = end;
    }
    assert(decode_from(bytes@, at as int) =~= Seq::<ObservationView>::empty());
    assert(observations.deep_view() + Seq::<ObservationView>::empty()
        =~= observations.deep_view());
    observations
}

} // verus!
