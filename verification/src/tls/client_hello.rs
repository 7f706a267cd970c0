//! Crafting a client hello from the knowledge of a run. The wire encoding is
//! that of `rustls`.

use crate::algebra::TypeShape;
use crate::execution::TraceContext;
use crate::knowledge::{copy_bytes, first_match, matching, KnowledgeView, Lookup};
use crate::put::Put;
use crate::tls::record::{slice_bytes, CLIENT_HELLO, HANDSHAKE};
use crate::tls::signature::{
    CIPHER_SUITE, CLIENT_EXTENSION, COMPRESSION, PROTOCOL_VERSION, RANDOM, SESSION_ID,
};
use rustls::internal::msgs::base::Payload;
use rustls::internal::msgs::codec::Codec;
use rustls::internal::msgs::enums::{
    CipherSuite, Compression, ContentType, ExtensionType, HandshakeType, ProtocolVersion,
};
use rustls::internal::msgs::handshake::{
    ClientExtension, ClientHelloPayload, HandshakeMessagePayload, HandshakePayload, Random,
    SessionID, UnknownExtension,
};
use rustls::internal::msgs::message::{Message, MessagePayload};
use vstd::prelude::*;

verus! {

/// An action that sends a message crafted from the knowledge of a run.
pub trait SendAction {
    /// The bytes of the message, where the knowledge of the run suffices.
    fn craft<P: Put>(&self, ctx: &TraceContext<P>) -> Result<Vec<u8>, ()>;
}

/// An action that expects a message and tells which variables it binds.
pub trait ExpectAction {
    /// The variables that the message binds, with their values.
    fn get_concrete_variables(&self) -> Vec<String>;
}

/// The action that expects a server hello.
pub struct ServerHelloExpectAction {}

impl ServerHelloExpectAction {
    pub fn new() -> ServerHelloExpectAction {
        ServerHelloExpectAction {  }
    }
}

/// The action that sends a client hello.
pub struct ClientHelloSendAction {}

/// The protocol version that the record of a crafted client hello carries:
/// TLS 1.3.
pub const RECORD_VERSION: u16 = 0x0304;

/// The two bytes of a number, the high byte first.
pub open spec fn high_first16(n: int) -> Seq<u8> {
    seq![(n / 256 % 256) as u8, (n % 256) as u8]
}

/// The bytes of the first `n` numbers, each in two bytes, the high byte
/// first.
pub open spec fn numbers_bytes(numbers: Seq<u16>, n: nat) -> Seq<u8>
    decreases n,
{
    if n == 0 || n > numbers.len() {
        Seq::empty()
    } else {
        numbers_bytes(numbers, (n - 1) as nat) + high_first16(numbers[n - 1] as int)
    }
}

/// The bytes of the first `n` extensions: for each its type, the length of
/// its payload, and the payload.
pub open spec fn extensions_bytes(types: Seq<u16>, payloads: Seq<Seq<u8>>, n: nat) -> Seq<u8>
    decreases n,
{
    if n == 0 || n > types.len() || n > payloads.len() {
        Seq::empty()
    } else {
        extensions_bytes(types, payloads, (n - 1) as nat) + high_first16(types[n - 1] as int)
            + high_first16(payloads[n - 1].len() as int) + payloads[n - 1]
    }
}

/// The bytes of the client hello with the given fields, as `rustls` encodes
/// it: the version, the random, the session identifier behind its length,
/// the cipher suites behind the length of their bytes, the compression
/// methods behind their number, and, where there are extensions, the
/// extensions behind the length of their bytes.
pub open spec fn client_hello_body(
    version: u16,
    random: Seq<u8>,
    session_id: Seq<u8>,
    cipher_suites: Seq<u16>,
    compressions: Seq<u8>,
    extension_types: Seq<u16>,
    extension_payloads: Seq<Seq<u8>>,
) -> Seq<u8> {
    high_first16(version as int) + random + seq![session_id.len() as u8] + session_id
        + high_first16(2 * cipher_suites.len() as int) + numbers_bytes(
        cipher_suites,
        cipher_suites.len(),
    ) + seq![compressions.len() as u8] + compressions + if extension_types.len() == 0 {
        Seq::empty()
    } else {
        high_first16(extensions_size(extension_payloads, extension_payloads.len()) as int)
            + extensions_bytes(extension_types, extension_payloads, extension_types.len())
    }
}

/// The bytes that the first `n` extensions take in a client hello: for each
/// its type, the length of its payload, and the payload.
pub open spec fn extensions_size(payloads: Seq<Seq<u8>>, n: nat) -> nat
    decreases n,
{
    if n == 0 || n > payloads.len() {
        0
    } else {
        extensions_size(payloads, (n - 1) as nat) + 4 + payloads[n - 1].len()
    }
}

/// The byte strings that the vectors hold.
pub open spec fn payload_views(payloads: Seq<Vec<u8>>) -> Seq<Seq<u8>> {
    payloads.map_values(|p: Vec<u8>| p@)
}

/// The fields fit a client hello: the random has 32 bytes, the session
/// identifier at most 32, and each list fits the length that precedes it on
/// the wire.
pub open spec fn encodable(
    random: Seq<u8>,
    session_id: Seq<u8>,
    cipher_suites: Seq<u16>,
    compressions: Seq<u8>,
    extension_types: Seq<u16>,
    extension_payloads: Seq<Seq<u8>>,
) -> bool {
    &&& random.len() == 32
    &&& session_id.len() <= 32
    &&& 2 * cipher_suites.len() <= 0xffff
    &&& compressions.len() <= 0xff
    &&& extension_types.len() == extension_payloads.len()
    &&& extensions_size(extension_payloads, extension_payloads.len()) <= 0xffff
}

/// Encodes a client hello, by `Codec::get_encoding` of `rustls` on a
/// `ClientHelloPayload` built from the fields: every number becomes the value
/// of that number of its `rustls` type, every extension an unknown extension
/// of its type and payload. The result is the fields on the wire, each list
/// behind its length. The fields must fit: `rustls` fails on a random
/// of fewer than 32 bytes, on a session identifier of more, and on a list
/// longer than its length field can tell.
#[verifier::external_body]
fn encode_client_hello(
    version: u16,
    random: &Vec<u8>,
    session_id: &Vec<u8>,
    cipher_suites: &Vec<u16>,
    compressions: &Vec<u8>,
    extension_types: &Vec<u16>,
    extension_payloads: &Vec<Vec<u8>>,
) -> (out: Vec<u8>)
    requires
        encodable(
            random@,
            session_id@,
            cipher_suites@,
            compressions@,
            extension_types@,
            payload_views(extension_payloads@),
        ),
    ensures
        out@ == client_hello_body(
            version,
            random@,
            session_id@,
            cipher_suites@,
            compressions@,
            extension_types@,
            payload_views(extension_payloads@),
        ),
{
    let extensions = extension_types.iter().zip(extension_payloads).map(|(t, p)| {
        let typ = ExtensionType::Unknown(*t);
        ClientExtension::Unknown(UnknownExtension { typ, payload: Payload(p.clone()) })
    });
    ClientHelloPayload {
        client_version: ProtocolVersion::Unknown(version),
        random: Random::from_slice(random),
        session_id: SessionID::new(session_id),
        cipher_suites: cipher_suites.iter().copied().map(CipherSuite::Unknown).collect(),
        compression_methods: compressions.iter().copied().map(Compression::Unknown).collect(),
        extensions: extensions.collect(),
    }.get_encoding()
}

/// The bytes of a handshake message: its type, the length of its body in
/// three bytes, the high byte first, and the body.
pub open spec fn handshake_message(handshake_type: u8, body: Seq<u8>) -> Seq<u8> {
    seq![handshake_type, (body.len() / 65536 % 256) as u8] + high_first16(body.len() as int) + body
}

/// The bytes of the TLS record that carries a handshake message: the content
/// type of handshake messages, the protocol version and the length of the
/// message, each the high byte first, and the message.
pub open spec fn handshake_record(record_version: u16, handshake_type: u8, body: Seq<u8>) -> Seq<
    u8,
> {
    seq![HANDSHAKE] + high_first16(record_version as int) + high_first16(
        handshake_message(handshake_type, body).len() as int,
    ) + handshake_message(handshake_type, body)
}

/// Encodes the record of a handshake message, by `Codec::get_encoding` of
/// `rustls` on a `Message` of content type handshake that holds the body as
/// it is. The message must fit the two bytes that tell its length.
#[verifier::external_body]
fn encode_handshake_record(record_version: u16, handshake_type: u8, body: &Vec<u8>) -> (out: Vec<
    u8,
>)
    requires
        body@.len() + 4 <= 0xffff,
    ensures
        out@ == handshake_record(record_version, handshake_type, body@),
{
    let typ = HandshakeType::Unknown(handshake_type);
    let payload = HandshakePayload::Unknown(Payload(body.clone()));
    Message {
        typ: ContentType::Handshake,
        version: ProtocolVersion::Unknown(record_version),
        payload: MessagePayload::Handshake(HandshakeMessagePayload { typ, payload }),
    }.get_encoding()
}

/// The number that two bytes stand for, the first byte the high one.
pub open spec fn number16(bytes: Seq<u8>) -> u16 {
    (bytes[0] as int * 256 + bytes[1] as int) as u16
}

/// Every byte string has `len` bytes.
pub open spec fn all_of_len(values: Seq<Seq<u8>>, len: nat) -> bool {
    forall|k: int| 0 <= k < values.len() ==> (#[trigger] values[k]).len() == len
}

/// Every byte string has at least two bytes.
pub open spec fn all_typed(values: Seq<Seq<u8>>) -> bool {
    forall|k: int| 0 <= k < values.len() ==> (#[trigger] values[k]).len() >= 2
}

/// The client hello that the store has the fields for: the first protocol
/// version, random and session identifier, and every cipher suite,
/// compression method and client extension, in the order of insertion. There
/// is none where one of the first three is missing, or a value has not the
/// length of its type, or the fields do not fit a client hello, or the client
/// hello does not fit a record.
pub open spec fn crafted(store: Seq<KnowledgeView>) -> Option<Seq<u8>> {
    let version = first_match(store, Lookup::typed(TypeShape::single(PROTOCOL_VERSION)), 0);
    let random = first_match(store, Lookup::typed(TypeShape::single(RANDOM)), 0);
    let session_id = first_match(store, Lookup::typed(TypeShape::single(SESSION_ID)), 0);
    let suites = matching(store, Lookup::typed(TypeShape::single(CIPHER_SUITE)), store.len());
    let compressions = matching(
        store,
        Lookup::typed(TypeShape::single(COMPRESSION)),
        store.len(),
    );
    let extensions = matching(
        store,
        Lookup::typed(TypeShape::single(CLIENT_EXTENSION)),
        store.len(),
    );
    let types = extensions.map_values(|e: Seq<u8>| number16(e));
    let payloads = extensions.map_values(|e: Seq<u8>| e.skip(2));
    let numbers = suites.map_values(|s: Seq<u8>| number16(s));
    let methods = compressions.map_values(|c: Seq<u8>| c[0]);
    if version is Some && version.unwrap().len() == 2 && random is Some && session_id is Some
        && all_of_len(suites, 2) && all_of_len(compressions, 1) && all_typed(extensions)
        && encodable(random.unwrap(), session_id.unwrap(), numbers, methods, types, payloads) {
        let body = client_hello_body(
            number16(version.unwrap()),
            random.unwrap(),
            session_id.unwrap(),
            numbers,
            methods,
            types,
            payloads,
        );
        if body.len() + 4 <= 0xffff {
            Some(handshake_record(RECORD_VERSION, CLIENT_HELLO, body))
        } else {
            None
        }
    } else {
        None
    }
}

/// The number that the two bytes of `bytes` stand for.
pub fn read_number16(bytes: &Vec<u8>) -> (n: u16)
    requires
        bytes@.len() >= 2,
    ensures
        n == number16(bytes@),
{
    (bytes[0] as u16) * 256 + (bytes[1] as u16)
}

impl ClientHelloSendAction {
    pub fn new() -> ClientHelloSendAction {
        ClientHelloSendAction {  }
    }

    /// The record of the client hello that the store of the run has the
    /// fields for.
    #[verifier::loop_isolation(false)]
    pub fn craft_from<P: Put>(&self, ctx: &TraceContext<P>) -> (r: Result<Vec<u8>, ()>)
        ensures
            r is Ok <==> crafted(ctx@.knowledge) is Some,
            r matches Ok(bytes) ==> crafted(ctx@.knowledge) == Some(bytes@),
    {
        let ghost store = ctx@.knowledge;
        let version = match ctx.get_variable(TypeShape::single(PROTOCOL_VERSION)) {
            None => {
                return Err(());
            },
            Some(version) => version,
        };
        if version.len() != 2 {
            return Err(());
        }
        let random = match ctx.get_variable(TypeShape::single(RANDOM)) {
            None => {
                return Err(());
            },
            Some(random) => random,
        };
        let session_id = match ctx.get_variable(TypeShape::single(SESSION_ID)) {
            None => {
                return Err(());
            },
            Some(session_id) => session_id,
        };
        if random.len() != 32 || session_id.len() > 32 {
            return Err(());
        }
        let suites = ctx.get_variable_set(TypeShape::single(CIPHER_SUITE));
        let ghost all_suites = matching(
            store,
            Lookup::typed(TypeShape::single(CIPHER_SUITE)),
            store.len(),
        );
        if suites.len() > 0x7fff {
            return Err(());
        }
        let mut numbers: Vec<u16> = Vec::new();
        let mut i: usize = 0;
        while i < suites.len()
            invariant
                i <= suites.len(),
                suites@.len() == all_suites.len(),
                forall|k: int| 0 <= k < suites@.len() ==> (#[trigger] suites@[k])@ == all_suites[k],
                forall|k: int| 0 <= k < i ==> (#[trigger] all_suites[k]).len() == 2,
                numbers@.len() == i,
                forall|k: int| 0 <= k < i ==> numbers@[k] == number16(all_suites[k]),
            decreases suites.len() - i,
        {
            if suites[i].len() != 2 {
                assert(all_suites[i as int].len() != 2);
                return Err(());
            }
            numbers.push(read_number16(suites[i]));
            i += 1;
        }
        assert(numbers@ =~= all_suites.map_values(|s: Seq<u8>| number16(s)));
        let compressions = ctx.get_variable_set(TypeShape::single(COMPRESSION));
        let ghost all_compressions = matching(
            store,
            Lookup::typed(TypeShape::single(COMPRESSION)),
            store.len(),
        );
        if compressions.len() > 0xff {
            return Err(());
        }
        let mut methods: Vec<u8> = Vec::new();
        let mut j: usize = 0;
        while j < compressions.len()
            invariant
                j <= compressions.len(),
                compressions@.len() == all_compressions.len(),
                forall|k: int|
                    0 <= k < compressions@.len() ==> (#[trigger] compressions@[k])@
                        == all_compressions[k],
                forall|k: int| 0 <= k < j ==> (#[trigger] all_compressions[k]).len() == 1,
                methods@.len() == j,
                forall|k: int| 0 <= k < j ==> methods@[k] == all_compressions[k][0],
            decreases compressions.len() - j,
        {
            if compressions[j].len() != 1 {
                assert(all_compressions[j as int].len() != 1);
                return Err(());
            }
            methods.push(compressions[j][0]);
            j += 1;
        }
        assert(methods@ =~= all_compressions.map_values(|c: Seq<u8>| c[0]));
        let extensions = ctx.get_variable_set(TypeShape::single(CLIENT_EXTENSION));
        let ghost all_extensions = matching(
            store,
            Lookup::typed(TypeShape::single(CLIENT_EXTENSION)),
            store.len(),
        );
        let ghost wanted = all_extensions.map_values(|e: Seq<u8>| e.skip(2));
        let mut types: Vec<u16> = Vec::new();
        let mut payloads: Vec<Vec<u8>> = Vec::new();
        let mut size: usize = 0;
        let mut e: usize = 0;
        while e < extensions.len()
            invariant
                e <= extensions.len(),
                extensions@.len() == all_extensions.len(),
                forall|k: int|
                    0 <= k < extensions@.len() ==> (#[trigger] extensions@[k])@
                        == all_extensions[k],
                wanted == all_extensions.map_values(|e: Seq<u8>| e.skip(2)),
                forall|k: int| 0 <= k < e ==> (#[trigger] all_extensions[k]).len() >= 2,
                types@.len() == e,
                payloads@.len() == e,
                forall|k: int| 0 <= k < e ==> types@[k] == number16(all_extensions[k]),
                forall|k: int| 0 <= k < e ==> (#[trigger] payloads@[k])@ == wanted[k],
                size == extensions_size(wanted, e as nat),
                size <= 0xffff,
            decreases extensions.len() - e,
        {
            let extension = extensions[e];
            if extension.len() < 2 {
                assert(all_extensions[e as int].len() < 2);
                return Err(());
            }
            if extension.len() - 2 > 0xffff - 4 || size > 0xffff - 4 - (extension.len() - 2) {
                proof {
                    lemma_extensions_size_grows(wanted, (e + 1) as nat, wanted.len());
                }
                return Err(());
            }
            size = size + 4 + (extension.len() - 2);
            types.push(read_number16(extension));
            payloads.push(slice_bytes(extension, 2, extension.len()));
            e += 1;
        }
        assert(types@ =~= all_extensions.map_values(|e: Seq<u8>| number16(e)));
        assert(payload_views(payloads@) =~= wanted);
        let body = encode_client_hello(
            read_number16(version),
            random,
            session_id,
            &numbers,
            &methods,
            &types,
            &payloads,
        );
        if body.len() > 0xffff - 4 {
            return Err(());
        }
        Ok(encode_handshake_record(RECORD_VERSION, CLIENT_HELLO, &body))
    }
}

/// More extensions take no fewer bytes.
pub proof fn lemma_extensions_size_grows(payloads: Seq<Seq<u8>>, n: nat, m: nat)
    requires
        n <= m <= payloads.len(),
    ensures
        extensions_size(payloads, n) <= extensions_size(payloads, m),
    decreases m,
{
    if n < m {
        lemma_extensions_size_grows(payloads, n, (m - 1) as nat);
    }
}

impl SendAction for ClientHelloSendAction {
    fn craft<P: Put>(&self, ctx: &TraceContext<P>) -> (r: Result<Vec<u8>, ()>)
        ensures
            r is Ok <==> crafted(ctx@.knowledge) is Some,
            r matches Ok(bytes) ==> crafted(ctx@.knowledge) == Some(bytes@),
    {
        self.craft_from(ctx)
    }
}

} // verus!
