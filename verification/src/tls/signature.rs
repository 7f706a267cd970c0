//! The vocabulary of TLS: the types of the values that handshakes are built
//! from, and the typed function symbols that build them.

use crate::algebra::{Signature, Symbol, SymbolView, TypeShape};
use vstd::prelude::*;

verus! {

/// A protocol version.
pub const PROTOCOL_VERSION: u32 = 0;

/// The random value of a hello message.
pub const RANDOM: u32 = 1;

/// A session identifier.
pub const SESSION_ID: u32 = 2;

/// A cipher suite.
pub const CIPHER_SUITE: u32 = 3;

/// A compression method.
pub const COMPRESSION: u32 = 4;

/// An extension of a client hello.
pub const CLIENT_EXTENSION: u32 = 5;

/// An extension of a server hello.
pub const SERVER_EXTENSION: u32 = 6;

/// A byte string.
pub const BYTES: u32 = 7;

/// A protocol message.
pub const MESSAGE: u32 = 8;

/// A record whose payload is not interpreted.
pub const OPAQUE_MESSAGE: u32 = 9;

/// A certificate chain.
pub const CERTIFICATE_PAYLOAD: u32 = 10;

/// A 64-bit number.
pub const NUMBER: u32 = 11;

/// The running hash of a handshake.
pub const TRANSCRIPT: u32 = 12;

/// A pre-shared key, or none.
pub const PRESHARED_KEY: u32 = 13;

/// The key exchange parameters of a server.
pub const KEY_EXCHANGE_PARAMS: u32 = 14;

// The positions of the function symbols in the catalog.
pub const FN_CLIENT_HELLO: usize = 0;

pub const FN_SERVER_HELLO: usize = 1;

pub const FN_APPLICATION_DATA: usize = 2;

pub const FN_CERTIFICATE: usize = 3;

pub const FN_SERVER_KEY_EXCHANGE: usize = 4;

pub const FN_SERVER_HELLO_DONE: usize = 5;

pub const FN_CLIENT_KEY_EXCHANGE: usize = 6;

pub const FN_CHANGE_CIPHER_SPEC: usize = 7;

pub const FN_OPAQUE_MESSAGE: usize = 8;

pub const FN_NEW_SESSION_TICKET: usize = 9;

pub const FN_FINISHED: usize = 10;

pub const FN_HEARTBEAT_FAKE_LENGTH: usize = 11;

pub const FN_PROTOCOL_VERSION12: usize = 12;

pub const FN_NEW_RANDOM: usize = 13;

pub const FN_NEW_SESSION_ID: usize = 14;

pub const FN_NEW_CIPHER_SUITES: usize = 15;

pub const FN_APPEND_CIPHER_SUITE: usize = 16;

pub const FN_CIPHER_SUITE12: usize = 17;

pub const FN_CIPHER_SUITE13: usize = 18;

pub const FN_WEAK_EXPORT_CIPHER_SUITE: usize = 19;

pub const FN_SECURE_RSA_CIPHER_SUITE12: usize = 20;

pub const FN_COMPRESSIONS: usize = 21;

pub const FN_CLIENT_EXTENSIONS_NEW: usize = 22;

pub const FN_CLIENT_EXTENSIONS_APPEND: usize = 23;

pub const FN_SECP384R1_SUPPORT_GROUP_EXTENSION: usize = 24;

pub const FN_SIGNATURE_ALGORITHM_EXTENSION: usize = 25;

pub const FN_SIGNATURE_ALGORITHM_CERT_EXTENSION: usize = 26;

pub const FN_EC_POINT_FORMATS_EXTENSION: usize = 27;

pub const FN_SIGNED_CERTIFICATE_TIMESTAMP_EXTENSION: usize = 28;

pub const FN_RENEGOTIATION_INFO_EXTENSION: usize = 29;

pub const FN_KEY_SHARE_DETERMINISTIC_EXTENSION: usize = 30;

pub const FN_SUPPORTED_VERSIONS13_EXTENSION: usize = 31;

pub const FN_PSK_EXCHANGE_MODE_DHE_KE_EXTENSION: usize = 32;

pub const FN_PRESHARED_KEYS_EXTENSION_EMPTY_BINDER: usize = 33;

pub const FN_NEW_TRANSCRIPT: usize = 34;

pub const FN_NEW_TRANSCRIPT12: usize = 35;

pub const FN_APPEND_TRANSCRIPT: usize = 36;

pub const FN_DECRYPT_HANDSHAKE: usize = 37;

pub const FN_DECRYPT_APPLICATION: usize = 38;

pub const FN_ENCRYPT_HANDSHAKE: usize = 39;

pub const FN_ENCRYPT12: usize = 40;

pub const FN_VERIFY_DATA: usize = 41;

pub const FN_SIGN_TRANSCRIPT: usize = 42;

pub const FN_DECODE_ECDH_PARAMS: usize = 43;

pub const FN_NEW_PUBKEY12: usize = 44;

pub const FN_NO_PSK: usize = 45;

pub const FN_PSK: usize = 46;

pub const FN_DERIVE_PSK: usize = 47;

pub const FN_DERIVE_BINDER: usize = 48;

pub const FN_FILL_BINDER: usize = 49;

pub const FN_GET_TICKET: usize = 50;

pub const FN_GET_TICKET_AGE_ADD: usize = 51;

pub const FN_GET_TICKET_NONCE: usize = 52;

pub const FN_SEQ_0: usize = 53;

pub const FN_SEQ_1: usize = 54;

pub const FN_SEQ_2: usize = 55;

pub const FN_SEQ_3: usize = 56;

pub const FN_EMPTY_BYTES_VEC: usize = 57;

pub const FN_LARGE_LENGTH: usize = 58;

/// The number of function symbols of TLS.
pub const TLS_SYMBOL_COUNT: usize = 59;

/// The function symbol of TLS at position `i` of the catalog.
pub open spec fn tls_symbol(i: int) -> SymbolView {
    if i == FN_CLIENT_HELLO {
        SymbolView {
            name: "fn_client_hello"@,
            inputs: seq![
                TypeShape::single(PROTOCOL_VERSION),
                TypeShape::single(RANDOM),
                TypeShape::single(SESSION_ID),
                TypeShape::many(CIPHER_SUITE),
                TypeShape::many(COMPRESSION),
                TypeShape::many(CLIENT_EXTENSION),
            ],
            output: TypeShape::single(MESSAGE),
        }
    } else if i == FN_SERVER_HELLO {
        SymbolView {
            name: "fn_server_hello"@,
            inputs: seq![
                TypeShape::single(PROTOCOL_VERSION),
                TypeShape::single(RANDOM),
                TypeShape::single(SESSION_ID),
                TypeShape::single(CIPHER_SUITE),
                TypeShape::single(COMPRESSION),
                TypeShape::many(SERVER_EXTENSION),
            ],
            output: TypeShape::single(MESSAGE),
        }
    } else if i == FN_APPLICATION_DATA {
        SymbolView {
            name: "fn_application_data"@,
            inputs: seq![TypeShape::single(BYTES)],
            output: TypeShape::single(MESSAGE),
        }
    } else if i == FN_CERTIFICATE {
        SymbolView {
            name: "fn_certificate"@,
            inputs: seq![TypeShape::single(CERTIFICATE_PAYLOAD)],
            output: TypeShape::single(MESSAGE),
        }
    } else if i == FN_SERVER_KEY_EXCHANGE {
        SymbolView {
            name: "fn_server_key_exchange"@,
            inputs: seq![TypeShape::single(BYTES)],
            output: TypeShape::single(MESSAGE),
        }
    } else if i == FN_SERVER_HELLO_DONE {
        SymbolView {
            name: "fn_server_hello_done"@,
            inputs: Seq::empty(),
            output: TypeShape::single(MESSAGE),
        }
    } else if i == FN_CLIENT_KEY_EXCHANGE {
        SymbolView {
            name: "fn_client_key_exchange"@,
            inputs: seq![TypeShape::single(BYTES)],
            output: TypeShape::single(MESSAGE),
        }
    } else if i == FN_CHANGE_CIPHER_SPEC {
        SymbolView {
            name: "fn_change_cipher_spec"@,
            inputs: Seq::empty(),
            output: TypeShape::single(MESSAGE),
        }
    } else if i == FN_OPAQUE_MESSAGE {
        SymbolView {
            name: "fn_opaque_message"@,
            inputs: seq![TypeShape::single(OPAQUE_MESSAGE)],
            output: TypeShape::single(OPAQUE_MESSAGE),
        }
    } else if i == FN_NEW_SESSION_TICKET {
        SymbolView {
            name: "fn_new_session_ticket"@,
            inputs: seq![TypeShape::single(NUMBER), TypeShape::single(BYTES)],
            output: TypeShape::single(MESSAGE),
        }
    } else if i == FN_FINISHED {
        SymbolView {
            name: "fn_finished"@,
            inputs: seq![TypeShape::single(BYTES)],
            output: TypeShape::single(MESSAGE),
        }
    } else if i == FN_HEARTBEAT_FAKE_LENGTH {
        SymbolView {
            name: "fn_heartbeat_fake_length"@,
            inputs: seq![TypeShape::single(BYTES), TypeShape::single(NUMBER)],
            output: TypeShape::single(MESSAGE),
        }
    } else if i == FN_PROTOCOL_VERSION12 {
        SymbolView {
            name: "fn_protocol_version12"@,
            inputs: Seq::empty(),
            output: TypeShape::single(PROTOCOL_VERSION),
        }
    } else if i == FN_NEW_RANDOM {
        SymbolView {
            name: "fn_new_random"@,
            inputs: Seq::empty(),
            output: TypeShape::single(RANDOM),
        }
    } else if i == FN_NEW_SESSION_ID {
        SymbolView {
            name: "fn_new_session_id"@,
            inputs: Seq::empty(),
            output: TypeShape::single(SESSION_ID),
        }
    } else if i == FN_NEW_CIPHER_SUITES {
        SymbolView {
            name: "fn_new_cipher_suites"@,
            inputs: Seq::empty(),
            output: TypeShape::many(CIPHER_SUITE),
        }
    } else if i == FN_APPEND_CIPHER_SUITE {
        SymbolView {
            name: "fn_append_cipher_suite"@,
            inputs: seq![TypeShape::many(CIPHER_SUITE), TypeShape::single(CIPHER_SUITE)],
            output: TypeShape::many(CIPHER_SUITE),
        }
    } else if i == FN_CIPHER_SUITE12 {
        SymbolView {
            name: "fn_cipher_suite12"@,
            inputs: Seq::empty(),
            output: TypeShape::single(CIPHER_SUITE),
        }
    } else if i == FN_CIPHER_SUITE13 {
        SymbolView {
            name: "fn_cipher_suite13"@,
            inputs: Seq::empty(),
            output: TypeShape::single(CIPHER_SUITE),
        }
    } else if i == FN_WEAK_EXPORT_CIPHER_SUITE {
        SymbolView {
            name: "fn_weak_export_cipher_suite"@,
            inputs: Seq::empty(),
            output: TypeShape::single(CIPHER_SUITE),
        }
    } else if i == FN_SECURE_RSA_CIPHER_SUITE12 {
        SymbolView {
            name: "fn_secure_rsa_cipher_suite12"@,
            inputs: Seq::empty(),
            output: TypeShape::single(CIPHER_SUITE),
        }
    } else if i == FN_COMPRESSIONS {
        SymbolView {
            name: "fn_compressions"@,
            inputs: Seq::empty(),
            output: TypeShape::many(COMPRESSION),
        }
    } else if i == FN_CLIENT_EXTENSIONS_NEW {
        SymbolView {
            name: "fn_client_extensions_new"@,
            inputs: Seq::empty(),
            output: TypeShape::many(CLIENT_EXTENSION),
        }
    } else if i == FN_CLIENT_EXTENSIONS_APPEND {
        SymbolView {
            name: "fn_client_extensions_append"@,
            inputs: seq![TypeShape::many(CLIENT_EXTENSION), TypeShape::single(CLIENT_EXTENSION)],
            output: TypeShape::many(CLIENT_EXTENSION),
        }
    } else if i == FN_SECP384R1_SUPPORT_GROUP_EXTENSION {
        SymbolView {
            name: "fn_secp384r1_support_group_extension"@,
            inputs: Seq::empty(),
            output: TypeShape::single(CLIENT_EXTENSION),
        }
    } else if i == FN_SIGNATURE_ALGORITHM_EXTENSION {
        SymbolView {
            name: "fn_signature_algorithm_extension"@,
            inputs: Seq::empty(),
            output: TypeShape::single(CLIENT_EXTENSION),
        }
    } else if i == FN_SIGNATURE_ALGORITHM_CERT_EXTENSION {
        SymbolView {
            name: "fn_signature_algorithm_cert_extension"@,
            inputs: Seq::empty(),
            output: TypeShape::single(CLIENT_EXTENSION),
        }
    } else if i == FN_EC_POINT_FORMATS_EXTENSION {
        SymbolView {
            name: "fn_ec_point_formats_extension"@,
            inputs: Seq::empty(),
            output: TypeShape::single(CLIENT_EXTENSION),
        }
    } else if i == FN_SIGNED_CERTIFICATE_TIMESTAMP_EXTENSION {
        SymbolView {
            name: "fn_signed_certificate_timestamp_extension"@,
            inputs: Seq::empty(),
            output: TypeShape::single(CLIENT_EXTENSION),
        }
    } else if i == FN_RENEGOTIATION_INFO_EXTENSION {
        SymbolView {
            name: "fn_renegotiation_info_extension"@,
            inputs: seq![TypeShape::single(BYTES)],
            output: TypeShape::single(CLIENT_EXTENSION),
        }
    } else if i == FN_KEY_SHARE_DETERMINISTIC_EXTENSION {
        SymbolView {
            name: "fn_key_share_deterministic_extension"@,
            inputs: Seq::empty(),
            output: TypeShape::single(CLIENT_EXTENSION),
        }
    } else if i == FN_SUPPORTED_VERSIONS13_EXTENSION {
        SymbolView {
            name: "fn_supported_versions13_extension"@,
            inputs: Seq::empty(),
            output: TypeShape::single(CLIENT_EXTENSION),
        }
    } else if i == FN_PSK_EXCHANGE_MODE_DHE_KE_EXTENSION {
        SymbolView {
            name: "fn_psk_exchange_mode_dhe_ke_extension"@,
            inputs: Seq::empty(),
            output: TypeShape::single(CLIENT_EXTENSION),
        }
    } else if i == FN_PRESHARED_KEYS_EXTENSION_EMPTY_BINDER {
        SymbolView {
            name: "fn_preshared_keys_extension_empty_binder"@,
            inputs: seq![TypeShape::single(BYTES), TypeShape::single(NUMBER)],
            output: TypeShape::single(CLIENT_EXTENSION),
        }
    } else if i == FN_NEW_TRANSCRIPT {
        SymbolView {
            name: "fn_new_transcript"@,
            inputs: Seq::empty(),
            output: TypeShape::single(TRANSCRIPT),
        }
    } else if i == FN_NEW_TRANSCRIPT12 {
        SymbolView {
            name: "fn_new_transcript12"@,
            inputs: Seq::empty(),
            output: TypeShape::single(TRANSCRIPT),
        }
    } else if i == FN_APPEND_TRANSCRIPT {
        SymbolView {
            name: "fn_append_transcript"@,
            inputs: seq![TypeShape::single(TRANSCRIPT), TypeShape::single(MESSAGE)],
            output: TypeShape::single(TRANSCRIPT),
        }
    } else if i == FN_DECRYPT_HANDSHAKE {
        SymbolView {
            name: "fn_decrypt_handshake"@,
            inputs: seq![
                TypeShape::single(MESSAGE),
                TypeShape::many(SERVER_EXTENSION),
                TypeShape::single(TRANSCRIPT),
                TypeShape::single(PRESHARED_KEY),
                TypeShape::single(NUMBER),
            ],
            output: TypeShape::single(MESSAGE),
        }
    } else if i == FN_DECRYPT_APPLICATION {
        SymbolView {
            name: "fn_decrypt_application"@,
            inputs: seq![
                TypeShape::single(MESSAGE),
                TypeShape::many(SERVER_EXTENSION),
                TypeShape::single(TRANSCRIPT),
                TypeShape::single(TRANSCRIPT),
                TypeShape::single(PRESHARED_KEY),
                TypeShape::single(NUMBER),
            ],
            output: TypeShape::single(MESSAGE),
        }
    } else if i == FN_ENCRYPT_HANDSHAKE {
        SymbolView {
            name: "fn_encrypt_handshake"@,
            inputs: seq![
                TypeShape::single(MESSAGE),
                TypeShape::many(SERVER_EXTENSION),
                TypeShape::single(TRANSCRIPT),
                TypeShape::single(PRESHARED_KEY),
                TypeShape::single(NUMBER),
            ],
            output: TypeShape::single(MESSAGE),
        }
    } else if i == FN_ENCRYPT12 {
        SymbolView {
            name: "fn_encrypt12"@,
            inputs: seq![
                TypeShape::single(MESSAGE),
                TypeShape::single(RANDOM),
                TypeShape::single(KEY_EXCHANGE_PARAMS),
                TypeShape::single(NUMBER),
            ],
            output: TypeShape::single(MESSAGE),
        }
    } else if i == FN_VERIFY_DATA {
        SymbolView {
            name: "fn_verify_data"@,
            inputs: seq![
                TypeShape::many(SERVER_EXTENSION),
                TypeShape::single(TRANSCRIPT),
                TypeShape::single(TRANSCRIPT),
                TypeShape::single(PRESHARED_KEY),
            ],
            output: TypeShape::single(BYTES),
        }
    } else if i == FN_SIGN_TRANSCRIPT {
        SymbolView {
            name: "fn_sign_transcript"@,
            inputs: seq![
                TypeShape::single(RANDOM),
                TypeShape::single(KEY_EXCHANGE_PARAMS),
                TypeShape::single(TRANSCRIPT),
            ],
            output: TypeShape::single(BYTES),
        }
    } else if i == FN_DECODE_ECDH_PARAMS {
        SymbolView {
            name: "fn_decode_ecdh_params"@,
            inputs: seq![TypeShape::single(BYTES)],
            output: TypeShape::single(KEY_EXCHANGE_PARAMS),
        }
    } else if i == FN_NEW_PUBKEY12 {
        SymbolView {
            name: "fn_new_pubkey12"@,
            inputs: seq![TypeShape::single(KEY_EXCHANGE_PARAMS)],
            output: TypeShape::single(BYTES),
        }
    } else if i == FN_NO_PSK {
        SymbolView {
            name: "fn_no_psk"@,
            inputs: Seq::empty(),
            output: TypeShape::single(PRESHARED_KEY),
        }
    } else if i == FN_PSK {
        SymbolView {
            name: "fn_psk"@,
            inputs: seq![TypeShape::single(BYTES)],
            output: TypeShape::single(PRESHARED_KEY),
        }
    } else if i == FN_DERIVE_PSK {
        SymbolView {
            name: "fn_derive_psk"@,
            inputs: seq![
                TypeShape::many(SERVER_EXTENSION),
                TypeShape::single(TRANSCRIPT),
                TypeShape::single(TRANSCRIPT),
                TypeShape::single(TRANSCRIPT),
                TypeShape::single(BYTES),
            ],
            output: TypeShape::single(BYTES),
        }
    } else if i == FN_DERIVE_BINDER {
        SymbolView {
            name: "fn_derive_binder"@,
            inputs: seq![TypeShape::single(MESSAGE), TypeShape::single(BYTES)],
            output: TypeShape::single(BYTES),
        }
    } else if i == FN_FILL_BINDER {
        SymbolView {
            name: "fn_fill_binder"@,
            inputs: seq![TypeShape::single(MESSAGE), TypeShape::single(BYTES)],
            output: TypeShape::single(MESSAGE),
        }
    } else if i == FN_GET_TICKET {
        SymbolView {
            name: "fn_get_ticket"@,
            inputs: seq![TypeShape::single(MESSAGE)],
            output: TypeShape::single(BYTES),
        }
    } else if i == FN_GET_TICKET_AGE_ADD {
        SymbolView {
            name: "fn_get_ticket_age_add"@,
            inputs: seq![TypeShape::single(MESSAGE)],
            output: TypeShape::single(NUMBER),
        }
    } else if i == FN_GET_TICKET_NONCE {
        SymbolView {
            name: "fn_get_ticket_nonce"@,
            inputs: seq![TypeShape::single(MESSAGE)],
            output: TypeShape::single(BYTES),
        }
    } else if i == FN_SEQ_0 {
        SymbolView {
            name: "fn_seq_0"@,
            inputs: Seq::empty(),
            output: TypeShape::single(NUMBER),
        }
    } else if i == FN_SEQ_1 {
        SymbolView {
            name: "fn_seq_1"@,
            inputs: Seq::empty(),
            output: TypeShape::single(NUMBER),
        }
    } else if i == FN_SEQ_2 {
        SymbolView {
            name: "fn_seq_2"@,
            inputs: Seq::empty(),
            output: TypeShape::single(NUMBER),
        }
    } else if i == FN_SEQ_3 {
        SymbolView {
            name: "fn_seq_3"@,
            inputs: Seq::empty(),
            output: TypeShape::single(NUMBER),
        }
    } else if i == FN_EMPTY_BYTES_VEC {
        SymbolView {
            name: "fn_empty_bytes_vec"@,
            inputs: Seq::empty(),
            output: TypeShape::single(BYTES),
        }
    } else if i == FN_LARGE_LENGTH {
        SymbolView {
            name: "fn_large_length"@,
            inputs: Seq::empty(),
            output: TypeShape::single(NUMBER),
        }
    } else {
        arbitrary()
    }
}

/// The catalog of the function symbols of TLS.
pub open spec fn tls_symbols() -> Seq<SymbolView> {
    Seq::new(TLS_SYMBOL_COUNT as nat, |i: int| tls_symbol(i))
}

/// A function symbol with the given name, input types and output type.
pub fn symbol(name: &str, inputs: Vec<TypeShape>, output: TypeShape) -> (f: Symbol)
    ensures
        f@.name == name@,
        f@.inputs == inputs@,
        f@.output == output,
{
    Symbol { name: name.to_owned(), inputs, output }
}

/// The function symbol of TLS at position `i` of the catalog.
pub fn tls_symbol_at(i: usize) -> (f: Symbol)
    requires
        i < TLS_SYMBOL_COUNT,
    ensures
        f@ == tls_symbol(i as int),
{
    let f = if i == FN_CLIENT_HELLO {
        symbol(
            "fn_client_hello",
            vec![
                TypeShape::single(PROTOCOL_VERSION),
                TypeShape::single(RANDOM),
                TypeShape::single(SESSION_ID),
                TypeShape::many(CIPHER_SUITE),
                TypeShape::many(COMPRESSION),
                TypeShape::many(CLIENT_EXTENSION),
            ],
            TypeShape::single(MESSAGE),
        )
    } else if i == FN_SERVER_HELLO {
        symbol(
            "fn_server_hello",
            vec![
                TypeShape::single(PROTOCOL_VERSION),
                TypeShape::single(RANDOM),
                TypeShape::single(SESSION_ID),
                TypeShape::single(CIPHER_SUITE),
                TypeShape::single(COMPRESSION),
                TypeShape::many(SERVER_EXTENSION),
            ],
            TypeShape::single(MESSAGE),
        )
    } else if i == FN_APPLICATION_DATA {
        symbol("fn_application_data", vec![TypeShape::single(BYTES)], TypeShape::single(MESSAGE))
    } else if i == FN_CERTIFICATE {
        symbol(
            "fn_certificate",
            vec![TypeShape::single(CERTIFICATE_PAYLOAD)],
            TypeShape::single(MESSAGE),
        )
    } else if i == FN_SERVER_KEY_EXCHANGE {
        symbol(
            "fn_server_key_exchange",
            vec![TypeShape::single(BYTES)],
            TypeShape::single(MESSAGE),
        )
    } else if i == FN_SERVER_HELLO_DONE {
        symbol("fn_server_hello_done", Vec::new(), TypeShape::single(MESSAGE))
    } else if i == FN_CLIENT_KEY_EXCHANGE {
        symbol(
            "fn_client_key_exchange",
            vec![TypeShape::single(BYTES)],
            TypeShape::single(MESSAGE),
        )
    } else if i == FN_CHANGE_CIPHER_SPEC {
        symbol("fn_change_cipher_spec", Vec::new(), TypeShape::single(MESSAGE))
    } else if i == FN_OPAQUE_MESSAGE {
        symbol(
            "fn_opaque_message",
            vec![TypeShape::single(OPAQUE_MESSAGE)],
            TypeShape::single(OPAQUE_MESSAGE),
        )
    } else if i == FN_NEW_SESSION_TICKET {
        symbol(
            "fn_new_session_ticket",
            vec![TypeShape::single(NUMBER), TypeShape::single(BYTES)],
            TypeShape::single(MESSAGE),
        )
    } else if i == FN_FINISHED {
        symbol("fn_finished", vec![TypeShape::single(BYTES)], TypeShape::single(MESSAGE))
    } else if i == FN_HEARTBEAT_FAKE_LENGTH {
        symbol(
            "fn_heartbeat_fake_length",
            vec![TypeShape::single(BYTES), TypeShape::single(NUMBER)],
            TypeShape::single(MESSAGE),
        )
    } else if i == FN_PROTOCOL_VERSION12 {
        symbol("fn_protocol_version12", Vec::new(), TypeShape::single(PROTOCOL_VERSION))
    } else if i == FN_NEW_RANDOM {
        symbol("fn_new_random", Vec::new(), TypeShape::single(RANDOM))
    } else if i == FN_NEW_SESSION_ID {
        symbol("fn_new_session_id", Vec::new(), TypeShape::single(SESSION_ID))
    } else if i == FN_NEW_CIPHER_SUITES {
        symbol("fn_new_cipher_suites", Vec::new(), TypeShape::many(CIPHER_SUITE))
    } else if i == FN_APPEND_CIPHER_SUITE {
        symbol(
            "fn_append_cipher_suite",
            vec![TypeShape::many(CIPHER_SUITE), TypeShape::single(CIPHER_SUITE)],
            TypeShape::many(CIPHER_SUITE),
        )
    } else if i == FN_CIPHER_SUITE12 {
        symbol("fn_cipher_suite12", Vec::new(), TypeShape::single(CIPHER_SUITE))
    } else if i == FN_CIPHER_SUITE13 {
        symbol("fn_cipher_suite13", Vec::new(), TypeShape::single(CIPHER_SUITE))
    } else if i == FN_WEAK_EXPORT_CIPHER_SUITE {
        symbol("fn_weak_export_cipher_suite", Vec::new(), TypeShape::single(CIPHER_SUITE))
    } else if i == FN_SECURE_RSA_CIPHER_SUITE12 {
        symbol("fn_secure_rsa_cipher_suite12", Vec::new(), TypeShape::single(CIPHER_SUITE))
    } else if i == FN_COMPRESSIONS {
        symbol("fn_compressions", Vec::new(), TypeShape::many(COMPRESSION))
    } else if i == FN_CLIENT_EXTENSIONS_NEW {
        symbol("fn_client_extensions_new", Vec::new(), TypeShape::many(CLIENT_EXTENSION))
    } else if i == FN_CLIENT_EXTENSIONS_APPEND {
        symbol(
            "fn_client_extensions_append",
            vec![TypeShape::many(CLIENT_EXTENSION), TypeShape::single(CLIENT_EXTENSION)],
            TypeShape::many(CLIENT_EXTENSION),
        )
    } else if i == FN_SECP384R1_SUPPORT_GROUP_EXTENSION {
        symbol(
            "fn_secp384r1_support_group_extension",
            Vec::new(),
            TypeShape::single(CLIENT_EXTENSION),
        )
    } else if i == FN_SIGNATURE_ALGORITHM_EXTENSION {
        symbol("fn_signature_algorithm_extension", Vec::new(), TypeShape::single(CLIENT_EXTENSION))
    } else if i == FN_SIGNATURE_ALGORITHM_CERT_EXTENSION {
        symbol(
            "fn_signature_algorithm_cert_extension",
            Vec::new(),
            TypeShape::single(CLIENT_EXTENSION),
        )
    } else if i == FN_EC_POINT_FORMATS_EXTENSION {
        symbol("fn_ec_point_formats_extension", Vec::new(), TypeShape::single(CLIENT_EXTENSION))
    } else if i == FN_SIGNED_CERTIFICATE_TIMESTAMP_EXTENSION {
        symbol(
            "fn_signed_certificate_timestamp_extension",
            Vec::new(),
            TypeShape::single(CLIENT_EXTENSION),
        )
    } else if i == FN_RENEGOTIATION_INFO_EXTENSION {
        symbol(
            "fn_renegotiation_info_extension",
            vec![TypeShape::single(BYTES)],
            TypeShape::single(CLIENT_EXTENSION),
        )
    } else if i == FN_KEY_SHARE_DETERMINISTIC_EXTENSION {
        symbol(
            "fn_key_share_deterministic_extension",
            Vec::new(),
            TypeShape::single(CLIENT_EXTENSION),
        )
    } else if i == FN_SUPPORTED_VERSIONS13_EXTENSION {
        symbol(
            "fn_supported_versions13_extension",
            Vec::new(),
            TypeShape::single(CLIENT_EXTENSION),
        )
    } else if i == FN_PSK_EXCHANGE_MODE_DHE_KE_EXTENSION {
        symbol(
            "fn_psk_exchange_mode_dhe_ke_extension",
            Vec::new(),
            TypeShape::single(CLIENT_EXTENSION),
        )
    } else if i == FN_PRESHARED_KEYS_EXTENSION_EMPTY_BINDER {
        symbol(
            "fn_preshared_keys_extension_empty_binder",
            vec![TypeShape::single(BYTES), TypeShape::single(NUMBER)],
            TypeShape::single(CLIENT_EXTENSION),
        )
    } else if i == FN_NEW_TRANSCRIPT {
        symbol("fn_new_transcript", Vec::new(), TypeShape::single(TRANSCRIPT))
    } else if i == FN_NEW_TRANSCRIPT12 {
        symbol("fn_new_transcript12", Vec::new(), TypeShape::single(TRANSCRIPT))
    } else if i == FN_APPEND_TRANSCRIPT {
        symbol(
            "fn_append_transcript",
            vec![TypeShape::single(TRANSCRIPT), TypeShape::single(MESSAGE)],
            TypeShape::single(TRANSCRIPT),
        )
    } else if i == FN_DECRYPT_HANDSHAKE {
        symbol(
            "fn_decrypt_handshake",
            vec![
                TypeShape::single(MESSAGE),
                TypeShape::many(SERVER_EXTENSION),
                TypeShape::single(TRANSCRIPT),
                TypeShape::single(PRESHARED_KEY),
                TypeShape::single(NUMBER),
            ],
            TypeShape::single(MESSAGE),
        )
    } else if i == FN_DECRYPT_APPLICATION {
        symbol(
            "fn_decrypt_application",
            vec![
                TypeShape::single(MESSAGE),
                TypeShape::many(SERVER_EXTENSION),
                TypeShape::single(TRANSCRIPT),
                TypeShape::single(TRANSCRIPT),
                TypeShape::single(PRESHARED_KEY),
                TypeShape::single(NUMBER),
            ],
            TypeShape::single(MESSAGE),
        )
    } else if i == FN_ENCRYPT_HANDSHAKE {
        symbol(
            "fn_encrypt_handshake",
            vec![
                TypeShape::single(MESSAGE),
                TypeShape::many(SERVER_EXTENSION),
                TypeShape::single(TRANSCRIPT),
                TypeShape::single(PRESHARED_KEY),
                TypeShape::single(NUMBER),
            ],
            TypeShape::single(MESSAGE),
        )
    } else if i == FN_ENCRYPT12 {
        symbol(
            "fn_encrypt12",
            vec![
                TypeShape::single(MESSAGE),
                TypeShape::single(RANDOM),
                TypeShape::single(KEY_EXCHANGE_PARAMS),
                TypeShape::single(NUMBER),
            ],
            TypeShape::single(MESSAGE),
        )
    } else if i == FN_VERIFY_DATA {
        symbol(
            "fn_verify_data",
            vec![
                TypeShape::many(SERVER_EXTENSION),
                TypeShape::single(TRANSCRIPT),
                TypeShape::single(TRANSCRIPT),
                TypeShape::single(PRESHARED_KEY),
            ],
            TypeShape::single(BYTES),
        )
    } else if i == FN_SIGN_TRANSCRIPT {
        symbol(
            "fn_sign_transcript",
            vec![
                TypeShape::single(RANDOM),
                TypeShape::single(KEY_EXCHANGE_PARAMS),
                TypeShape::single(TRANSCRIPT),
            ],
            TypeShape::single(BYTES),
        )
    } else if i == FN_DECODE_ECDH_PARAMS {
        symbol(
            "fn_decode_ecdh_params",
            vec![TypeShape::single(BYTES)],
            TypeShape::single(KEY_EXCHANGE_PARAMS),
        )
    } else if i == FN_NEW_PUBKEY12 {
        symbol(
            "fn_new_pubkey12",
            vec![TypeShape::single(KEY_EXCHANGE_PARAMS)],
            TypeShape::single(BYTES),
        )
    } else if i == FN_NO_PSK {
        symbol("fn_no_psk", Vec::new(), TypeShape::single(PRESHARED_KEY))
    } else if i == FN_PSK {
        symbol("fn_psk", vec![TypeShape::single(BYTES)], TypeShape::single(PRESHARED_KEY))
    } else if i == FN_DERIVE_PSK {
        symbol(
            "fn_derive_psk",
            vec![
                TypeShape::many(SERVER_EXTENSION),
                TypeShape::single(TRANSCRIPT),
                TypeShape::single(TRANSCRIPT),
                TypeShape::single(TRANSCRIPT),
                TypeShape::single(BYTES),
            ],
            TypeShape::single(BYTES),
        )
    } else if i == FN_DERIVE_BINDER {
        symbol(
            "fn_derive_binder",
            vec![TypeShape::single(MESSAGE), TypeShape::single(BYTES)],
            TypeShape::single(BYTES),
        )
    } else if i == FN_FILL_BINDER {
        symbol(
            "fn_fill_binder",
            vec![TypeShape::single(MESSAGE), TypeShape::single(BYTES)],
            TypeShape::single(MESSAGE),
        )
    } else if i == FN_GET_TICKET {
        symbol("fn_get_ticket", vec![TypeShape::single(MESSAGE)], TypeShape::single(BYTES))
    } else if i == FN_GET_TICKET_AGE_ADD {
        symbol(
            "fn_get_ticket_age_add",
            vec![TypeShape::single(MESSAGE)],
            TypeShape::single(NUMBER),
        )
    } else if i == FN_GET_TICKET_NONCE {
        symbol("fn_get_ticket_nonce", vec![TypeShape::single(MESSAGE)], TypeShape::single(BYTES))
    } else if i == FN_SEQ_0 {
        symbol("fn_seq_0", Vec::new(), TypeShape::single(NUMBER))
    } else if i == FN_SEQ_1 {
        symbol("fn_seq_1", Vec::new(), TypeShape::single(NUMBER))
    } else if i == FN_SEQ_2 {
        symbol("fn_seq_2", Vec::new(), TypeShape::single(NUMBER))
    } else if i == FN_SEQ_3 {
        symbol("fn_seq_3", Vec::new(), TypeShape::single(NUMBER))
    } else if i == FN_EMPTY_BYTES_VEC {
        symbol("fn_empty_bytes_vec", Vec::new(), TypeShape::single(BYTES))
    } else {
        symbol("fn_large_length", Vec::new(), TypeShape::single(NUMBER))
    };
    assert(f@.inputs =~= tls_symbol(i as int).inputs);
    f
}

/// The signature of TLS.
pub fn tls_signature() -> (sig: Signature)
    ensures
        sig@ == tls_symbols(),
{
    let mut functions: Vec<Symbol> = Vec::new();
    let mut i: usize = 0;
    while i < TLS_SYMBOL_COUNT
        invariant
            i <= TLS_SYMBOL_COUNT,
            functions@.len() == i,
            forall|k: int| 0 <= k < i ==> (#[trigger] functions@[k])@ == tls_symbol(k),
        decreases TLS_SYMBOL_COUNT - i,
    {
        functions.push(tls_symbol_at(i));
        i += 1;
    }
    let sig = Signature { functions };
    assert(sig@ =~= tls_symbols());
    sig
}

} // verus!
