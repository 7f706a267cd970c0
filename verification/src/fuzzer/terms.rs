//! The terms that the seed traces are made of: the messages of an attacker,
//! and the transcripts and keys that they are computed from.

use crate::algebra::{Term, TermView, TypeShape};
use crate::tls::recipes::{app0, app1, app2, app3, app4, app5, app6, apply, var, variable};
use crate::tls::signature::{
    BYTES, CLIENT_EXTENSION, COMPRESSION, FN_APPEND_CIPHER_SUITE, FN_APPEND_TRANSCRIPT,
    FN_CIPHER_SUITE12, FN_CIPHER_SUITE13, FN_CLIENT_EXTENSIONS_APPEND, FN_CLIENT_EXTENSIONS_NEW,
    FN_CLIENT_HELLO, FN_CLIENT_KEY_EXCHANGE, FN_COMPRESSIONS, FN_DECODE_ECDH_PARAMS,
    FN_DECRYPT_APPLICATION, FN_DECRYPT_HANDSHAKE, FN_DERIVE_BINDER, FN_DERIVE_PSK,
    FN_EC_POINT_FORMATS_EXTENSION, FN_EMPTY_BYTES_VEC, FN_ENCRYPT12, FN_ENCRYPT_HANDSHAKE,
    FN_FILL_BINDER, FN_FINISHED, FN_GET_TICKET, FN_GET_TICKET_AGE_ADD, FN_GET_TICKET_NONCE,
    FN_HEARTBEAT_FAKE_LENGTH, FN_KEY_SHARE_DETERMINISTIC_EXTENSION, FN_LARGE_LENGTH,
    FN_NEW_CIPHER_SUITES, FN_NEW_PUBKEY12, FN_NEW_RANDOM, FN_NEW_SESSION_ID, FN_NEW_TRANSCRIPT,
    FN_NEW_TRANSCRIPT12, FN_NO_PSK, FN_PRESHARED_KEYS_EXTENSION_EMPTY_BINDER,
    FN_PROTOCOL_VERSION12, FN_PSK, FN_PSK_EXCHANGE_MODE_DHE_KE_EXTENSION,
    FN_RENEGOTIATION_INFO_EXTENSION, FN_SECP384R1_SUPPORT_GROUP_EXTENSION,
    FN_SECURE_RSA_CIPHER_SUITE12, FN_SEQ_0, FN_SEQ_1, FN_SEQ_2, FN_SEQ_3, FN_SERVER_HELLO,
    FN_SIGNATURE_ALGORITHM_CERT_EXTENSION, FN_SIGNATURE_ALGORITHM_EXTENSION,
    FN_SIGNED_CERTIFICATE_TIMESTAMP_EXTENSION, FN_SIGN_TRANSCRIPT,
    FN_SUPPORTED_VERSIONS13_EXTENSION, FN_VERIFY_DATA, FN_WEAK_EXPORT_CIPHER_SUITE, MESSAGE,
    PROTOCOL_VERSION, RANDOM, SERVER_EXTENSION, SESSION_ID, TRANSCRIPT, tls_symbols,
};
use vstd::prelude::*;

verus! {

/// The client hello of an attacker that speaks TLS 1.3.
pub open spec fn attacker_client_hello_term() -> TermView {
    apply(
        FN_CLIENT_HELLO,
        seq![
            apply(FN_PROTOCOL_VERSION12, Seq::empty()),
            apply(FN_NEW_RANDOM, Seq::empty()),
            apply(FN_NEW_SESSION_ID, Seq::empty()),
            apply(
                FN_APPEND_CIPHER_SUITE,
                seq![
                    apply(FN_NEW_CIPHER_SUITES, Seq::empty()),
                    apply(FN_CIPHER_SUITE13, Seq::empty()),
                ],
            ),
            apply(FN_COMPRESSIONS, Seq::empty()),
            apply(
                FN_CLIENT_EXTENSIONS_APPEND,
                seq![
                    apply(
                        FN_CLIENT_EXTENSIONS_APPEND,
                        seq![
                            apply(
                                FN_CLIENT_EXTENSIONS_APPEND,
                                seq![
                                    apply(
                                        FN_CLIENT_EXTENSIONS_APPEND,
                                        seq![
                                            apply(FN_CLIENT_EXTENSIONS_NEW, Seq::empty()),
                                            apply(
                                                FN_SECP384R1_SUPPORT_GROUP_EXTENSION,
                                                Seq::empty(),
                                            ),
                                        ],
                                    ),
                                    apply(FN_SIGNATURE_ALGORITHM_EXTENSION, Seq::empty()),
                                ],
                            ),
                            apply(FN_KEY_SHARE_DETERMINISTIC_EXTENSION, Seq::empty()),
                        ],
                    ),
                    apply(FN_SUPPORTED_VERSIONS13_EXTENSION, Seq::empty()),
                ],
            ),
        ],
    )
}

/// The client hello of an attacker that speaks TLS 1.3.
pub fn attacker_client_hello() -> (t: Term)
    ensures
        t@ == attacker_client_hello_term(),
        t@.well_typed(tls_symbols()),
        t@.result_type(tls_symbols()) == TypeShape::single(MESSAGE),
        forall|s: Set<u64>| #[trigger] t@.refers_within(s),
{
    app6(
        FN_CLIENT_HELLO,
        app0(FN_PROTOCOL_VERSION12),
        app0(FN_NEW_RANDOM),
        app0(FN_NEW_SESSION_ID),
        app2(FN_APPEND_CIPHER_SUITE, app0(FN_NEW_CIPHER_SUITES), app0(FN_CIPHER_SUITE13)),
        app0(FN_COMPRESSIONS),
        app2(
            FN_CLIENT_EXTENSIONS_APPEND,
            app2(
                FN_CLIENT_EXTENSIONS_APPEND,
                app2(
                    FN_CLIENT_EXTENSIONS_APPEND,
                    app2(
                        FN_CLIENT_EXTENSIONS_APPEND,
                        app0(FN_CLIENT_EXTENSIONS_NEW),
                        app0(FN_SECP384R1_SUPPORT_GROUP_EXTENSION),
                    ),
                    app0(FN_SIGNATURE_ALGORITHM_EXTENSION),
                ),
                app0(FN_KEY_SHARE_DETERMINISTIC_EXTENSION),
            ),
            app0(FN_SUPPORTED_VERSIONS13_EXTENSION),
        ),
    )
}

/// The transcript up to the server hello, which is in the clear.
pub open spec fn server_hello_transcript_term() -> TermView {
    apply(
        FN_APPEND_TRANSCRIPT,
        seq![
            apply(
                FN_APPEND_TRANSCRIPT,
                seq![
                    apply(FN_NEW_TRANSCRIPT, Seq::empty()),
                    attacker_client_hello_term(),
                ],
            ),
            variable(0, 0, TypeShape::single(MESSAGE)),
        ],
    )
}

/// The transcript up to the server hello, which is in the clear.
pub fn server_hello_transcript() -> (t: Term)
    ensures
        t@ == server_hello_transcript_term(),
        t@.well_typed(tls_symbols()),
        t@.result_type(tls_symbols()) == TypeShape::single(TRANSCRIPT),
        forall|s: Set<u64>| s.contains(0) ==> #[trigger] t@.refers_within(s),
{
    app2(
        FN_APPEND_TRANSCRIPT,
        app2(FN_APPEND_TRANSCRIPT, app0(FN_NEW_TRANSCRIPT), attacker_client_hello()),
        var(0, 0, TypeShape::single(MESSAGE)),
    )
}

/// The encrypted extensions of the server, decrypted.
pub open spec fn encrypted_extensions_term() -> TermView {
    apply(
        FN_DECRYPT_HANDSHAKE,
        seq![
            variable(0, 1, TypeShape::single(MESSAGE)),
            variable(0, 0, TypeShape::many(SERVER_EXTENSION)),
            server_hello_transcript_term(),
            apply(FN_NO_PSK, Seq::empty()),
            apply(FN_SEQ_0, Seq::empty()),
        ],
    )
}

/// The encrypted extensions of the server, decrypted.
pub fn encrypted_extensions() -> (t: Term)
    ensures
        t@ == encrypted_extensions_term(),
        t@.well_typed(tls_symbols()),
        t@.result_type(tls_symbols()) == TypeShape::single(MESSAGE),
        forall|s: Set<u64>| s.contains(0) ==> #[trigger] t@.refers_within(s),
{
    app5(
        FN_DECRYPT_HANDSHAKE,
        var(0, 1, TypeShape::single(MESSAGE)),
        var(0, 0, TypeShape::many(SERVER_EXTENSION)),
        server_hello_transcript(),
        app0(FN_NO_PSK),
        app0(FN_SEQ_0),
    )
}

/// The transcript up to the encrypted extensions.
pub open spec fn encrypted_extensions_transcript_term() -> TermView {
    apply(FN_APPEND_TRANSCRIPT, seq![server_hello_transcript_term(), encrypted_extensions_term()])
}

/// The transcript up to the encrypted extensions.
pub fn encrypted_extensions_transcript() -> (t: Term)
    ensures
        t@ == encrypted_extensions_transcript_term(),
        t@.well_typed(tls_symbols()),
        t@.result_type(tls_symbols()) == TypeShape::single(TRANSCRIPT),
        forall|s: Set<u64>| s.contains(0) ==> #[trigger] t@.refers_within(s),
{
    app2(FN_APPEND_TRANSCRIPT, server_hello_transcript(), encrypted_extensions())
}

/// The certificate of the server, decrypted.
pub open spec fn server_certificate_term() -> TermView {
    apply(
        FN_DECRYPT_HANDSHAKE,
        seq![
            variable(0, 2, TypeShape::single(MESSAGE)),
            variable(0, 0, TypeShape::many(SERVER_EXTENSION)),
            server_hello_transcript_term(),
            apply(FN_NO_PSK, Seq::empty()),
            apply(FN_SEQ_1, Seq::empty()),
        ],
    )
}

/// The certificate of the server, decrypted.
pub fn server_certificate() -> (t: Term)
    ensures
        t@ == server_certificate_term(),
        t@.well_typed(tls_symbols()),
        t@.result_type(tls_symbols()) == TypeShape::single(MESSAGE),
        forall|s: Set<u64>| s.contains(0) ==> #[trigger] t@.refers_within(s),
{
    app5(
        FN_DECRYPT_HANDSHAKE,
        var(0, 2, TypeShape::single(MESSAGE)),
        var(0, 0, TypeShape::many(SERVER_EXTENSION)),
        server_hello_transcript(),
        app0(FN_NO_PSK),
        app0(FN_SEQ_1),
    )
}

/// The transcript up to the certificate of the server.
pub open spec fn server_certificate_transcript_term() -> TermView {
    apply(
        FN_APPEND_TRANSCRIPT,
        seq![
            encrypted_extensions_transcript_term(),
            server_certificate_term(),
        ],
    )
}

/// The transcript up to the certificate of the server.
pub fn server_certificate_transcript() -> (t: Term)
    ensures
        t@ == server_certificate_transcript_term(),
        t@.well_typed(tls_symbols()),
        t@.result_type(tls_symbols()) == TypeShape::single(TRANSCRIPT),
        forall|s: Set<u64>| s.contains(0) ==> #[trigger] t@.refers_within(s),
{
    app2(FN_APPEND_TRANSCRIPT, encrypted_extensions_transcript(), server_certificate())
}

/// The certificate verification of the server, decrypted.
pub open spec fn server_certificate_verify_term() -> TermView {
    apply(
        FN_DECRYPT_HANDSHAKE,
        seq![
            variable(0, 3, TypeShape::single(MESSAGE)),
            variable(0, 0, TypeShape::many(SERVER_EXTENSION)),
            server_hello_transcript_term(),
            apply(FN_NO_PSK, Seq::empty()),
            apply(FN_SEQ_2, Seq::empty()),
        ],
    )
}

/// The certificate verification of the server, decrypted.
pub fn server_certificate_verify() -> (t: Term)
    ensures
        t@ == server_certificate_verify_term(),
        t@.well_typed(tls_symbols()),
        t@.result_type(tls_symbols()) == TypeShape::single(MESSAGE),
        forall|s: Set<u64>| s.contains(0) ==> #[trigger] t@.refers_within(s),
{
    app5(
        FN_DECRYPT_HANDSHAKE,
        var(0, 3, TypeShape::single(MESSAGE)),
        var(0, 0, TypeShape::many(SERVER_EXTENSION)),
        server_hello_transcript(),
        app0(FN_NO_PSK),
        app0(FN_SEQ_2),
    )
}

/// The transcript up to the certificate verification of the server.
pub open spec fn server_certificate_verify_transcript_term() -> TermView {
    apply(
        FN_APPEND_TRANSCRIPT,
        seq![
            server_certificate_transcript_term(),
            server_certificate_verify_term(),
        ],
    )
}

/// The transcript up to the certificate verification of the server.
pub fn server_certificate_verify_transcript() -> (t: Term)
    ensures
        t@ == server_certificate_verify_transcript_term(),
        t@.well_typed(tls_symbols()),
        t@.result_type(tls_symbols()) == TypeShape::single(TRANSCRIPT),
        forall|s: Set<u64>| s.contains(0) ==> #[trigger] t@.refers_within(s),
{
    app2(FN_APPEND_TRANSCRIPT, server_certificate_transcript(), server_certificate_verify())
}

/// The finished message of the server, decrypted.
pub open spec fn server_finished_term() -> TermView {
    apply(
        FN_DECRYPT_HANDSHAKE,
        seq![
            variable(0, 4, TypeShape::single(MESSAGE)),
            variable(0, 0, TypeShape::many(SERVER_EXTENSION)),
            server_hello_transcript_term(),
            apply(FN_NO_PSK, Seq::empty()),
            apply(FN_SEQ_3, Seq::empty()),
        ],
    )
}

/// The finished message of the server, decrypted.
pub fn server_finished() -> (t: Term)
    ensures
        t@ == server_finished_term(),
        t@.well_typed(tls_symbols()),
        t@.result_type(tls_symbols()) == TypeShape::single(MESSAGE),
        forall|s: Set<u64>| s.contains(0) ==> #[trigger] t@.refers_within(s),
{
    app5(
        FN_DECRYPT_HANDSHAKE,
        var(0, 4, TypeShape::single(MESSAGE)),
        var(0, 0, TypeShape::many(SERVER_EXTENSION)),
        server_hello_transcript(),
        app0(FN_NO_PSK),
        app0(FN_SEQ_3),
    )
}

/// The transcript up to the finished message of the server.
pub open spec fn server_finished_transcript_term() -> TermView {
    apply(
        FN_APPEND_TRANSCRIPT,
        seq![
            server_certificate_verify_transcript_term(),
            server_finished_term(),
        ],
    )
}

/// The transcript up to the finished message of the server.
pub fn server_finished_transcript() -> (t: Term)
    ensures
        t@ == server_finished_transcript_term(),
        t@.well_typed(tls_symbols()),
        t@.result_type(tls_symbols()) == TypeShape::single(TRANSCRIPT),
        forall|s: Set<u64>| s.contains(0) ==> #[trigger] t@.refers_within(s),
{
    app2(FN_APPEND_TRANSCRIPT, server_certificate_verify_transcript(), server_finished())
}

/// The finished message of the client.
pub open spec fn client_finished_term() -> TermView {
    apply(
        FN_FINISHED,
        seq![
            apply(
                FN_VERIFY_DATA,
                seq![
                    variable(0, 0, TypeShape::many(SERVER_EXTENSION)),
                    server_finished_transcript_term(),
                    server_hello_transcript_term(),
                    apply(FN_NO_PSK, Seq::empty()),
                ],
            ),
        ],
    )
}

/// The finished message of the client.
pub fn client_finished() -> (t: Term)
    ensures
        t@ == client_finished_term(),
        t@.well_typed(tls_symbols()),
        t@.result_type(tls_symbols()) == TypeShape::single(MESSAGE),
        forall|s: Set<u64>| s.contains(0) ==> #[trigger] t@.refers_within(s),
{
    app1(
        FN_FINISHED,
        app4(
            FN_VERIFY_DATA,
            var(0, 0, TypeShape::many(SERVER_EXTENSION)),
            server_finished_transcript(),
            server_hello_transcript(),
            app0(FN_NO_PSK),
        ),
    )
}

/// The transcript up to the finished message of the client.
pub open spec fn client_finished_transcript_term() -> TermView {
    apply(FN_APPEND_TRANSCRIPT, seq![server_finished_transcript_term(), client_finished_term()])
}

/// The transcript up to the finished message of the client.
pub fn client_finished_transcript() -> (t: Term)
    ensures
        t@ == client_finished_transcript_term(),
        t@.well_typed(tls_symbols()),
        t@.result_type(tls_symbols()) == TypeShape::single(TRANSCRIPT),
        forall|s: Set<u64>| s.contains(0) ==> #[trigger] t@.refers_within(s),
{
    app2(FN_APPEND_TRANSCRIPT, server_finished_transcript(), client_finished())
}

/// The finished message of the client, encrypted.
pub open spec fn encrypted_client_finished_term() -> TermView {
    apply(
        FN_ENCRYPT_HANDSHAKE,
        seq![
            client_finished_term(),
            variable(0, 0, TypeShape::many(SERVER_EXTENSION)),
            server_hello_transcript_term(),
            apply(FN_NO_PSK, Seq::empty()),
            apply(FN_SEQ_0, Seq::empty()),
        ],
    )
}

/// The finished message of the client, encrypted.
pub fn encrypted_client_finished() -> (t: Term)
    ensures
        t@ == encrypted_client_finished_term(),
        t@.well_typed(tls_symbols()),
        t@.result_type(tls_symbols()) == TypeShape::single(MESSAGE),
        forall|s: Set<u64>| s.contains(0) ==> #[trigger] t@.refers_within(s),
{
    app5(
        FN_ENCRYPT_HANDSHAKE,
        client_finished(),
        var(0, 0, TypeShape::many(SERVER_EXTENSION)),
        server_hello_transcript(),
        app0(FN_NO_PSK),
        app0(FN_SEQ_0),
    )
}

/// The client hello of an attacker that speaks TLS 1.2 and offers
/// renegotiation.
pub open spec fn attacker_client_hello12_term() -> TermView {
    apply(
        FN_CLIENT_HELLO,
        seq![
            apply(FN_PROTOCOL_VERSION12, Seq::empty()),
            apply(FN_NEW_RANDOM, Seq::empty()),
            apply(FN_NEW_SESSION_ID, Seq::empty()),
            apply(
                FN_APPEND_CIPHER_SUITE,
                seq![
                    apply(FN_NEW_CIPHER_SUITES, Seq::empty()),
                    apply(FN_CIPHER_SUITE12, Seq::empty()),
                ],
            ),
            apply(FN_COMPRESSIONS, Seq::empty()),
            apply(
                FN_CLIENT_EXTENSIONS_APPEND,
                seq![
                    apply(
                        FN_CLIENT_EXTENSIONS_APPEND,
                        seq![
                            apply(
                                FN_CLIENT_EXTENSIONS_APPEND,
                                seq![
                                    apply(
                                        FN_CLIENT_EXTENSIONS_APPEND,
                                        seq![
                                            apply(
                                                FN_CLIENT_EXTENSIONS_APPEND,
                                                seq![
                                                    apply(
                                                        FN_CLIENT_EXTENSIONS_APPEND,
                                                        seq![
                                                            apply(
                                                                FN_CLIENT_EXTENSIONS_NEW,
                                                                Seq::empty(),
                                                            ),
                                                            apply(
                                                                FN_SECP384R1_SUPPORT_GROUP_EXTENSION,
                                                                Seq::empty(),
                                                            ),
                                                        ],
                                                    ),
                                                    apply(
                                                        FN_SIGNATURE_ALGORITHM_EXTENSION,
                                                        Seq::empty(),
                                                    ),
                                                ],
                                            ),
                                            apply(FN_EC_POINT_FORMATS_EXTENSION, Seq::empty()),
                                        ],
                                    ),
                                    apply(FN_SIGNED_CERTIFICATE_TIMESTAMP_EXTENSION, Seq::empty()),
                                ],
                            ),
                            apply(
                                FN_RENEGOTIATION_INFO_EXTENSION,
                                seq![
                                    apply(FN_EMPTY_BYTES_VEC, Seq::empty()),
                                ],
                            ),
                        ],
                    ),
                    apply(FN_SIGNATURE_ALGORITHM_CERT_EXTENSION, Seq::empty()),
                ],
            ),
        ],
    )
}

/// The client hello of an attacker that speaks TLS 1.2 and offers
/// renegotiation.
pub fn attacker_client_hello12() -> (t: Term)
    ensures
        t@ == attacker_client_hello12_term(),
        t@.well_typed(tls_symbols()),
        t@.result_type(tls_symbols()) == TypeShape::single(MESSAGE),
        forall|s: Set<u64>| #[trigger] t@.refers_within(s),
{
    app6(
        FN_CLIENT_HELLO,
        app0(FN_PROTOCOL_VERSION12),
        app0(FN_NEW_RANDOM),
        app0(FN_NEW_SESSION_ID),
        app2(FN_APPEND_CIPHER_SUITE, app0(FN_NEW_CIPHER_SUITES), app0(FN_CIPHER_SUITE12)),
        app0(FN_COMPRESSIONS),
        app2(
            FN_CLIENT_EXTENSIONS_APPEND,
            app2(
                FN_CLIENT_EXTENSIONS_APPEND,
                app2(
                    FN_CLIENT_EXTENSIONS_APPEND,
                    app2(
                        FN_CLIENT_EXTENSIONS_APPEND,
                        app2(
                            FN_CLIENT_EXTENSIONS_APPEND,
                            app2(
                                FN_CLIENT_EXTENSIONS_APPEND,
                                app0(FN_CLIENT_EXTENSIONS_NEW),
                                app0(FN_SECP384R1_SUPPORT_GROUP_EXTENSION),
                            ),
                            app0(FN_SIGNATURE_ALGORITHM_EXTENSION),
                        ),
                        app0(FN_EC_POINT_FORMATS_EXTENSION),
                    ),
                    app0(FN_SIGNED_CERTIFICATE_TIMESTAMP_EXTENSION),
                ),
                app1(FN_RENEGOTIATION_INFO_EXTENSION, app0(FN_EMPTY_BYTES_VEC)),
            ),
            app0(FN_SIGNATURE_ALGORITHM_CERT_EXTENSION),
        ),
    )
}

/// The TLS 1.2 transcript up to the server hello.
pub open spec fn server_hello_transcript12_term() -> TermView {
    apply(
        FN_APPEND_TRANSCRIPT,
        seq![
            apply(
                FN_APPEND_TRANSCRIPT,
                seq![
                    apply(FN_NEW_TRANSCRIPT12, Seq::empty()),
                    attacker_client_hello12_term(),
                ],
            ),
            variable(0, 0, TypeShape::single(MESSAGE)),
        ],
    )
}

/// The TLS 1.2 transcript up to the server hello.
pub fn server_hello_transcript12() -> (t: Term)
    ensures
        t@ == server_hello_transcript12_term(),
        t@.well_typed(tls_symbols()),
        t@.result_type(tls_symbols()) == TypeShape::single(TRANSCRIPT),
        forall|s: Set<u64>| s.contains(0) ==> #[trigger] t@.refers_within(s),
{
    app2(
        FN_APPEND_TRANSCRIPT,
        app2(FN_APPEND_TRANSCRIPT, app0(FN_NEW_TRANSCRIPT12), attacker_client_hello12()),
        var(0, 0, TypeShape::single(MESSAGE)),
    )
}

/// The TLS 1.2 transcript up to the certificate of the server.
pub open spec fn certificate_transcript12_term() -> TermView {
    apply(
        FN_APPEND_TRANSCRIPT,
        seq![
            server_hello_transcript12_term(),
            variable(0, 1, TypeShape::single(MESSAGE)),
        ],
    )
}

/// The TLS 1.2 transcript up to the certificate of the server.
pub fn certificate_transcript12() -> (t: Term)
    ensures
        t@ == certificate_transcript12_term(),
        t@.well_typed(tls_symbols()),
        t@.result_type(tls_symbols()) == TypeShape::single(TRANSCRIPT),
        forall|s: Set<u64>| s.contains(0) ==> #[trigger] t@.refers_within(s),
{
    app2(FN_APPEND_TRANSCRIPT, server_hello_transcript12(), var(0, 1, TypeShape::single(MESSAGE)))
}

/// The TLS 1.2 transcript up to the key exchange of the server.
pub open spec fn server_key_exchange_transcript12_term() -> TermView {
    apply(
        FN_APPEND_TRANSCRIPT,
        seq![
            certificate_transcript12_term(),
            variable(0, 2, TypeShape::single(MESSAGE)),
        ],
    )
}

/// The TLS 1.2 transcript up to the key exchange of the server.
pub fn server_key_exchange_transcript12() -> (t: Term)
    ensures
        t@ == server_key_exchange_transcript12_term(),
        t@.well_typed(tls_symbols()),
        t@.result_type(tls_symbols()) == TypeShape::single(TRANSCRIPT),
        forall|s: Set<u64>| s.contains(0) ==> #[trigger] t@.refers_within(s),
{
    app2(FN_APPEND_TRANSCRIPT, certificate_transcript12(), var(0, 2, TypeShape::single(MESSAGE)))
}

/// The TLS 1.2 transcript up to the end of the server hello.
pub open spec fn server_hello_done_transcript12_term() -> TermView {
    apply(
        FN_APPEND_TRANSCRIPT,
        seq![
            server_key_exchange_transcript12_term(),
            variable(0, 3, TypeShape::single(MESSAGE)),
        ],
    )
}

/// The TLS 1.2 transcript up to the end of the server hello.
pub fn server_hello_done_transcript12() -> (t: Term)
    ensures
        t@ == server_hello_done_transcript12_term(),
        t@.well_typed(tls_symbols()),
        t@.result_type(tls_symbols()) == TypeShape::single(TRANSCRIPT),
        forall|s: Set<u64>| s.contains(0) ==> #[trigger] t@.refers_within(s),
{
    app2(
        FN_APPEND_TRANSCRIPT,
        server_key_exchange_transcript12(),
        var(0, 3, TypeShape::single(MESSAGE)),
    )
}

/// The key exchange of the client, for the parameters that the server sent.
pub open spec fn client_key_exchange12_term() -> TermView {
    apply(
        FN_CLIENT_KEY_EXCHANGE,
        seq![
            apply(
                FN_NEW_PUBKEY12,
                seq![
                    apply(FN_DECODE_ECDH_PARAMS, seq![variable(0, 0, TypeShape::single(BYTES))]),
                ],
            ),
        ],
    )
}

/// The key exchange of the client, for the parameters that the server sent.
pub fn client_key_exchange12() -> (t: Term)
    ensures
        t@ == client_key_exchange12_term(),
        t@.well_typed(tls_symbols()),
        t@.result_type(tls_symbols()) == TypeShape::single(MESSAGE),
        forall|s: Set<u64>| s.contains(0) ==> #[trigger] t@.refers_within(s),
{
    app1(
        FN_CLIENT_KEY_EXCHANGE,
        app1(FN_NEW_PUBKEY12, app1(FN_DECODE_ECDH_PARAMS, var(0, 0, TypeShape::single(BYTES)))),
    )
}

/// The TLS 1.2 transcript up to the key exchange of the client.
pub open spec fn client_key_exchange_transcript12_term() -> TermView {
    apply(
        FN_APPEND_TRANSCRIPT,
        seq![
            server_hello_done_transcript12_term(),
            client_key_exchange12_term(),
        ],
    )
}

/// The TLS 1.2 transcript up to the key exchange of the client.
pub fn client_key_exchange_transcript12() -> (t: Term)
    ensures
        t@ == client_key_exchange_transcript12_term(),
        t@.well_typed(tls_symbols()),
        t@.result_type(tls_symbols()) == TypeShape::single(TRANSCRIPT),
        forall|s: Set<u64>| s.contains(0) ==> #[trigger] t@.refers_within(s),
{
    app2(FN_APPEND_TRANSCRIPT, server_hello_done_transcript12(), client_key_exchange12())
}

/// The verify data of the client over the TLS 1.2 transcript.
pub open spec fn client_verify_data12_term() -> TermView {
    apply(
        FN_SIGN_TRANSCRIPT,
        seq![
            variable(0, 0, TypeShape::single(RANDOM)),
            apply(FN_DECODE_ECDH_PARAMS, seq![variable(0, 0, TypeShape::single(BYTES))]),
            client_key_exchange_transcript12_term(),
        ],
    )
}

/// The verify data of the client over the TLS 1.2 transcript.
pub fn client_verify_data12() -> (t: Term)
    ensures
        t@ == client_verify_data12_term(),
        t@.well_typed(tls_symbols()),
        t@.result_type(tls_symbols()) == TypeShape::single(BYTES),
        forall|s: Set<u64>| s.contains(0) ==> #[trigger] t@.refers_within(s),
{
    app3(
        FN_SIGN_TRANSCRIPT,
        var(0, 0, TypeShape::single(RANDOM)),
        app1(FN_DECODE_ECDH_PARAMS, var(0, 0, TypeShape::single(BYTES))),
        client_key_exchange_transcript12(),
    )
}

/// The finished message of the client, encrypted for TLS 1.2.
pub open spec fn encrypted_client_finished12_term() -> TermView {
    apply(
        FN_ENCRYPT12,
        seq![
            apply(FN_FINISHED, seq![client_verify_data12_term()]),
            variable(0, 0, TypeShape::single(RANDOM)),
            apply(FN_DECODE_ECDH_PARAMS, seq![variable(0, 0, TypeShape::single(BYTES))]),
            apply(FN_SEQ_0, Seq::empty()),
        ],
    )
}

/// The finished message of the client, encrypted for TLS 1.2.
pub fn encrypted_client_finished12() -> (t: Term)
    ensures
        t@ == encrypted_client_finished12_term(),
        t@.well_typed(tls_symbols()),
        t@.result_type(tls_symbols()) == TypeShape::single(MESSAGE),
        forall|s: Set<u64>| s.contains(0) ==> #[trigger] t@.refers_within(s),
{
    app4(
        FN_ENCRYPT12,
        app1(FN_FINISHED, client_verify_data12()),
        var(0, 0, TypeShape::single(RANDOM)),
        app1(FN_DECODE_ECDH_PARAMS, var(0, 0, TypeShape::single(BYTES))),
        app0(FN_SEQ_0),
    )
}

/// A client hello that renegotiates without the signature algorithms extension.
pub open spec fn renegotiation_client_hello_term() -> TermView {
    apply(
        FN_CLIENT_HELLO,
        seq![
            apply(FN_PROTOCOL_VERSION12, Seq::empty()),
            apply(FN_NEW_RANDOM, Seq::empty()),
            apply(FN_NEW_SESSION_ID, Seq::empty()),
            apply(
                FN_APPEND_CIPHER_SUITE,
                seq![
                    apply(FN_NEW_CIPHER_SUITES, Seq::empty()),
                    apply(FN_CIPHER_SUITE12, Seq::empty()),
                ],
            ),
            apply(FN_COMPRESSIONS, Seq::empty()),
            apply(
                FN_CLIENT_EXTENSIONS_APPEND,
                seq![
                    apply(
                        FN_CLIENT_EXTENSIONS_APPEND,
                        seq![
                            apply(
                                FN_CLIENT_EXTENSIONS_APPEND,
                                seq![
                                    apply(
                                        FN_CLIENT_EXTENSIONS_APPEND,
                                        seq![
                                            apply(
                                                FN_CLIENT_EXTENSIONS_APPEND,
                                                seq![
                                                    apply(FN_CLIENT_EXTENSIONS_NEW, Seq::empty()),
                                                    apply(
                                                        FN_SECP384R1_SUPPORT_GROUP_EXTENSION,
                                                        Seq::empty(),
                                                    ),
                                                ],
                                            ),
                                            apply(FN_EC_POINT_FORMATS_EXTENSION, Seq::empty()),
                                        ],
                                    ),
                                    apply(FN_SIGNED_CERTIFICATE_TIMESTAMP_EXTENSION, Seq::empty()),
                                ],
                            ),
                            apply(
                                FN_RENEGOTIATION_INFO_EXTENSION,
                                seq![
                                    client_verify_data12_term(),
                                ],
                            ),
                        ],
                    ),
                    apply(FN_SIGNATURE_ALGORITHM_CERT_EXTENSION, Seq::empty()),
                ],
            ),
        ],
    )
}

/// A client hello that renegotiates without the signature algorithms extension.
pub fn renegotiation_client_hello() -> (t: Term)
    ensures
        t@ == renegotiation_client_hello_term(),
        t@.well_typed(tls_symbols()),
        t@.result_type(tls_symbols()) == TypeShape::single(MESSAGE),
        forall|s: Set<u64>| s.contains(0) ==> #[trigger] t@.refers_within(s),
{
    app6(
        FN_CLIENT_HELLO,
        app0(FN_PROTOCOL_VERSION12),
        app0(FN_NEW_RANDOM),
        app0(FN_NEW_SESSION_ID),
        app2(FN_APPEND_CIPHER_SUITE, app0(FN_NEW_CIPHER_SUITES), app0(FN_CIPHER_SUITE12)),
        app0(FN_COMPRESSIONS),
        app2(
            FN_CLIENT_EXTENSIONS_APPEND,
            app2(
                FN_CLIENT_EXTENSIONS_APPEND,
                app2(
                    FN_CLIENT_EXTENSIONS_APPEND,
                    app2(
                        FN_CLIENT_EXTENSIONS_APPEND,
                        app2(
                            FN_CLIENT_EXTENSIONS_APPEND,
                            app0(FN_CLIENT_EXTENSIONS_NEW),
                            app0(FN_SECP384R1_SUPPORT_GROUP_EXTENSION),
                        ),
                        app0(FN_EC_POINT_FORMATS_EXTENSION),
                    ),
                    app0(FN_SIGNED_CERTIFICATE_TIMESTAMP_EXTENSION),
                ),
                app1(FN_RENEGOTIATION_INFO_EXTENSION, client_verify_data12()),
            ),
            app0(FN_SIGNATURE_ALGORITHM_CERT_EXTENSION),
        ),
    )
}

/// The renegotiating client hello, encrypted.
pub open spec fn encrypted_renegotiation_term() -> TermView {
    apply(
        FN_ENCRYPT12,
        seq![
            renegotiation_client_hello_term(),
            variable(0, 0, TypeShape::single(RANDOM)),
            apply(FN_DECODE_ECDH_PARAMS, seq![variable(0, 2, TypeShape::single(BYTES))]),
            apply(FN_SEQ_1, Seq::empty()),
        ],
    )
}

/// The renegotiating client hello, encrypted.
pub fn encrypted_renegotiation() -> (t: Term)
    ensures
        t@ == encrypted_renegotiation_term(),
        t@.well_typed(tls_symbols()),
        t@.result_type(tls_symbols()) == TypeShape::single(MESSAGE),
        forall|s: Set<u64>| s.contains(0) ==> #[trigger] t@.refers_within(s),
{
    app4(
        FN_ENCRYPT12,
        renegotiation_client_hello(),
        var(0, 0, TypeShape::single(RANDOM)),
        app1(FN_DECODE_ECDH_PARAMS, var(0, 2, TypeShape::single(BYTES))),
        app0(FN_SEQ_1),
    )
}

/// The client hello that precedes an oversized heartbeat.
pub open spec fn heartbleed_client_hello_term() -> TermView {
    apply(
        FN_CLIENT_HELLO,
        seq![
            apply(FN_PROTOCOL_VERSION12, Seq::empty()),
            apply(FN_NEW_RANDOM, Seq::empty()),
            apply(FN_NEW_SESSION_ID, Seq::empty()),
            apply(
                FN_APPEND_CIPHER_SUITE,
                seq![
                    apply(FN_NEW_CIPHER_SUITES, Seq::empty()),
                    apply(FN_CIPHER_SUITE12, Seq::empty()),
                ],
            ),
            apply(FN_COMPRESSIONS, Seq::empty()),
            apply(
                FN_CLIENT_EXTENSIONS_APPEND,
                seq![
                    apply(
                        FN_CLIENT_EXTENSIONS_APPEND,
                        seq![
                            apply(
                                FN_CLIENT_EXTENSIONS_APPEND,
                                seq![
                                    apply(FN_CLIENT_EXTENSIONS_NEW, Seq::empty()),
                                    apply(FN_SECP384R1_SUPPORT_GROUP_EXTENSION, Seq::empty()),
                                ],
                            ),
                            apply(FN_EC_POINT_FORMATS_EXTENSION, Seq::empty()),
                        ],
                    ),
                    apply(FN_SIGNED_CERTIFICATE_TIMESTAMP_EXTENSION, Seq::empty()),
                ],
            ),
        ],
    )
}

/// The client hello that precedes an oversized heartbeat.
pub fn heartbleed_client_hello() -> (t: Term)
    ensures
        t@ == heartbleed_client_hello_term(),
        t@.well_typed(tls_symbols()),
        t@.result_type(tls_symbols()) == TypeShape::single(MESSAGE),
        forall|s: Set<u64>| #[trigger] t@.refers_within(s),
{
    app6(
        FN_CLIENT_HELLO,
        app0(FN_PROTOCOL_VERSION12),
        app0(FN_NEW_RANDOM),
        app0(FN_NEW_SESSION_ID),
        app2(FN_APPEND_CIPHER_SUITE, app0(FN_NEW_CIPHER_SUITES), app0(FN_CIPHER_SUITE12)),
        app0(FN_COMPRESSIONS),
        app2(
            FN_CLIENT_EXTENSIONS_APPEND,
            app2(
                FN_CLIENT_EXTENSIONS_APPEND,
                app2(
                    FN_CLIENT_EXTENSIONS_APPEND,
                    app0(FN_CLIENT_EXTENSIONS_NEW),
                    app0(FN_SECP384R1_SUPPORT_GROUP_EXTENSION),
                ),
                app0(FN_EC_POINT_FORMATS_EXTENSION),
            ),
            app0(FN_SIGNED_CERTIFICATE_TIMESTAMP_EXTENSION),
        ),
    )
}

/// A heartbeat that claims more payload than it carries.
pub open spec fn oversized_heartbeat_term() -> TermView {
    apply(
        FN_HEARTBEAT_FAKE_LENGTH,
        seq![
            apply(FN_EMPTY_BYTES_VEC, Seq::empty()),
            apply(FN_LARGE_LENGTH, Seq::empty()),
        ],
    )
}

/// A heartbeat that claims more payload than it carries.
pub fn oversized_heartbeat() -> (t: Term)
    ensures
        t@ == oversized_heartbeat_term(),
        t@.well_typed(tls_symbols()),
        t@.result_type(tls_symbols()) == TypeShape::single(MESSAGE),
        forall|s: Set<u64>| #[trigger] t@.refers_within(s),
{
    app2(FN_HEARTBEAT_FAKE_LENGTH, app0(FN_EMPTY_BYTES_VEC), app0(FN_LARGE_LENGTH))
}

/// The observed client hello, with a weak export cipher suite in place of its
/// own.
pub open spec fn export_client_hello_term() -> TermView {
    apply(
        FN_CLIENT_HELLO,
        seq![
            variable(0, 0, TypeShape::single(PROTOCOL_VERSION)),
            variable(0, 0, TypeShape::single(RANDOM)),
            variable(0, 0, TypeShape::single(SESSION_ID)),
            apply(
                FN_APPEND_CIPHER_SUITE,
                seq![
                    apply(FN_NEW_CIPHER_SUITES, Seq::empty()),
                    apply(FN_WEAK_EXPORT_CIPHER_SUITE, Seq::empty()),
                ],
            ),
            variable(0, 0, TypeShape::many(COMPRESSION)),
            variable(0, 0, TypeShape::many(CLIENT_EXTENSION)),
        ],
    )
}

/// The observed client hello, with a weak export cipher suite in place of its
/// own.
pub fn export_client_hello() -> (t: Term)
    ensures
        t@ == export_client_hello_term(),
        t@.well_typed(tls_symbols()),
        t@.result_type(tls_symbols()) == TypeShape::single(MESSAGE),
        forall|s: Set<u64>| s.contains(0) ==> #[trigger] t@.refers_within(s),
{
    app6(
        FN_CLIENT_HELLO,
        var(0, 0, TypeShape::single(PROTOCOL_VERSION)),
        var(0, 0, TypeShape::single(RANDOM)),
        var(0, 0, TypeShape::single(SESSION_ID)),
        app2(FN_APPEND_CIPHER_SUITE, app0(FN_NEW_CIPHER_SUITES), app0(FN_WEAK_EXPORT_CIPHER_SUITE)),
        var(0, 0, TypeShape::many(COMPRESSION)),
        var(0, 0, TypeShape::many(CLIENT_EXTENSION)),
    )
}

/// The observed server hello, with a strong cipher suite in place of its own.
pub open spec fn downgraded_server_hello_term() -> TermView {
    apply(
        FN_SERVER_HELLO,
        seq![
            variable(1, 0, TypeShape::single(PROTOCOL_VERSION)),
            variable(1, 0, TypeShape::single(RANDOM)),
            variable(1, 0, TypeShape::single(SESSION_ID)),
            apply(FN_SECURE_RSA_CIPHER_SUITE12, Seq::empty()),
            variable(1, 0, TypeShape::single(COMPRESSION)),
            variable(1, 0, TypeShape::many(SERVER_EXTENSION)),
        ],
    )
}

/// The observed server hello, with a strong cipher suite in place of its own.
pub fn downgraded_server_hello() -> (t: Term)
    ensures
        t@ == downgraded_server_hello_term(),
        t@.well_typed(tls_symbols()),
        t@.result_type(tls_symbols()) == TypeShape::single(MESSAGE),
        forall|s: Set<u64>| s.contains(1) ==> #[trigger] t@.refers_within(s),
{
    app6(
        FN_SERVER_HELLO,
        var(1, 0, TypeShape::single(PROTOCOL_VERSION)),
        var(1, 0, TypeShape::single(RANDOM)),
        var(1, 0, TypeShape::single(SESSION_ID)),
        app0(FN_SECURE_RSA_CIPHER_SUITE12),
        var(1, 0, TypeShape::single(COMPRESSION)),
        var(1, 0, TypeShape::many(SERVER_EXTENSION)),
    )
}

/// The session ticket of the first handshake, decrypted.
pub open spec fn new_ticket_message_term() -> TermView {
    apply(
        FN_DECRYPT_APPLICATION,
        seq![
            variable(1, 0, TypeShape::single(MESSAGE)),
            variable(0, 0, TypeShape::many(SERVER_EXTENSION)),
            server_hello_transcript_term(),
            server_finished_transcript_term(),
            apply(FN_NO_PSK, Seq::empty()),
            apply(FN_SEQ_0, Seq::empty()),
        ],
    )
}

/// The session ticket of the first handshake, decrypted.
pub fn new_ticket_message() -> (t: Term)
    ensures
        t@ == new_ticket_message_term(),
        t@.well_typed(tls_symbols()),
        t@.result_type(tls_symbols()) == TypeShape::single(MESSAGE),
        forall|s: Set<u64>| s.contains(0) && s.contains(1) ==> #[trigger] t@.refers_within(s),
{
    app6(
        FN_DECRYPT_APPLICATION,
        var(1, 0, TypeShape::single(MESSAGE)),
        var(0, 0, TypeShape::many(SERVER_EXTENSION)),
        server_hello_transcript(),
        server_finished_transcript(),
        app0(FN_NO_PSK),
        app0(FN_SEQ_0),
    )
}

/// The client hello that resumes the session, its binder still empty.
pub open spec fn resumption_client_hello_term() -> TermView {
    apply(
        FN_CLIENT_HELLO,
        seq![
            apply(FN_PROTOCOL_VERSION12, Seq::empty()),
            apply(FN_NEW_RANDOM, Seq::empty()),
            apply(FN_NEW_SESSION_ID, Seq::empty()),
            apply(
                FN_APPEND_CIPHER_SUITE,
                seq![
                    apply(FN_NEW_CIPHER_SUITES, Seq::empty()),
                    apply(FN_CIPHER_SUITE13, Seq::empty()),
                ],
            ),
            apply(FN_COMPRESSIONS, Seq::empty()),
            apply(
                FN_CLIENT_EXTENSIONS_APPEND,
                seq![
                    apply(
                        FN_CLIENT_EXTENSIONS_APPEND,
                        seq![
                            apply(
                                FN_CLIENT_EXTENSIONS_APPEND,
                                seq![
                                    apply(
                                        FN_CLIENT_EXTENSIONS_APPEND,
                                        seq![
                                            apply(
                                                FN_CLIENT_EXTENSIONS_APPEND,
                                                seq![
                                                    apply(
                                                        FN_CLIENT_EXTENSIONS_APPEND,
                                                        seq![
                                                            apply(
                                                                FN_CLIENT_EXTENSIONS_NEW,
                                                                Seq::empty(),
                                                            ),
                                                            apply(
                                                                FN_SECP384R1_SUPPORT_GROUP_EXTENSION,
                                                                Seq::empty(),
                                                            ),
                                                        ],
                                                    ),
                                                    apply(
                                                        FN_SIGNATURE_ALGORITHM_EXTENSION,
                                                        Seq::empty(),
                                                    ),
                                                ],
                                            ),
                                            apply(FN_SUPPORTED_VERSIONS13_EXTENSION, Seq::empty()),
                                        ],
                                    ),
                                    apply(FN_KEY_SHARE_DETERMINISTIC_EXTENSION, Seq::empty()),
                                ],
                            ),
                            apply(FN_PSK_EXCHANGE_MODE_DHE_KE_EXTENSION, Seq::empty()),
                        ],
                    ),
                    apply(
                        FN_PRESHARED_KEYS_EXTENSION_EMPTY_BINDER,
                        seq![
                            apply(FN_GET_TICKET, seq![new_ticket_message_term()]),
                            apply(FN_GET_TICKET_AGE_ADD, seq![new_ticket_message_term()]),
                        ],
                    ),
                ],
            ),
        ],
    )
}

/// The client hello that resumes the session, its binder still empty.
pub fn resumption_client_hello() -> (t: Term)
    ensures
        t@ == resumption_client_hello_term(),
        t@.well_typed(tls_symbols()),
        t@.result_type(tls_symbols()) == TypeShape::single(MESSAGE),
        forall|s: Set<u64>| s.contains(0) && s.contains(1) ==> #[trigger] t@.refers_within(s),
{
    app6(
        FN_CLIENT_HELLO,
        app0(FN_PROTOCOL_VERSION12),
        app0(FN_NEW_RANDOM),
        app0(FN_NEW_SESSION_ID),
        app2(FN_APPEND_CIPHER_SUITE, app0(FN_NEW_CIPHER_SUITES), app0(FN_CIPHER_SUITE13)),
        app0(FN_COMPRESSIONS),
        app2(
            FN_CLIENT_EXTENSIONS_APPEND,
            app2(
                FN_CLIENT_EXTENSIONS_APPEND,
                app2(
                    FN_CLIENT_EXTENSIONS_APPEND,
                    app2(
                        FN_CLIENT_EXTENSIONS_APPEND,
                        app2(
                            FN_CLIENT_EXTENSIONS_APPEND,
                            app2(
                                FN_CLIENT_EXTENSIONS_APPEND,
                                app0(FN_CLIENT_EXTENSIONS_NEW),
                                app0(FN_SECP384R1_SUPPORT_GROUP_EXTENSION),
                            ),
                            app0(FN_SIGNATURE_ALGORITHM_EXTENSION),
                        ),
                        app0(FN_SUPPORTED_VERSIONS13_EXTENSION),
                    ),
                    app0(FN_KEY_SHARE_DETERMINISTIC_EXTENSION),
                ),
                app0(FN_PSK_EXCHANGE_MODE_DHE_KE_EXTENSION),
            ),
            app2(
                FN_PRESHARED_KEYS_EXTENSION_EMPTY_BINDER,
                app1(FN_GET_TICKET, new_ticket_message()),
                app1(FN_GET_TICKET_AGE_ADD, new_ticket_message()),
            ),
        ),
    )
}

/// The pre-shared key that the ticket stands for.
pub open spec fn resumption_psk_term() -> TermView {
    apply(
        FN_DERIVE_PSK,
        seq![
            variable(0, 0, TypeShape::many(SERVER_EXTENSION)),
            server_hello_transcript_term(),
            server_finished_transcript_term(),
            client_finished_transcript_term(),
            apply(FN_GET_TICKET_NONCE, seq![new_ticket_message_term()]),
        ],
    )
}

/// The pre-shared key that the ticket stands for.
pub fn resumption_psk() -> (t: Term)
    ensures
        t@ == resumption_psk_term(),
        t@.well_typed(tls_symbols()),
        t@.result_type(tls_symbols()) == TypeShape::single(BYTES),
        forall|s: Set<u64>| s.contains(0) && s.contains(1) ==> #[trigger] t@.refers_within(s),
{
    app5(
        FN_DERIVE_PSK,
        var(0, 0, TypeShape::many(SERVER_EXTENSION)),
        server_hello_transcript(),
        server_finished_transcript(),
        client_finished_transcript(),
        app1(FN_GET_TICKET_NONCE, new_ticket_message()),
    )
}

/// The binder of the resuming client hello.
pub open spec fn resumption_binder_term() -> TermView {
    apply(FN_DERIVE_BINDER, seq![resumption_client_hello_term(), resumption_psk_term()])
}

/// The binder of the resuming client hello.
pub fn resumption_binder() -> (t: Term)
    ensures
        t@ == resumption_binder_term(),
        t@.well_typed(tls_symbols()),
        t@.result_type(tls_symbols()) == TypeShape::single(BYTES),
        forall|s: Set<u64>| s.contains(0) && s.contains(1) ==> #[trigger] t@.refers_within(s),
{
    app2(FN_DERIVE_BINDER, resumption_client_hello(), resumption_psk())
}

/// The client hello that resumes the session, with its binder.
pub open spec fn full_client_hello_term() -> TermView {
    apply(FN_FILL_BINDER, seq![resumption_client_hello_term(), resumption_binder_term()])
}

/// The client hello that resumes the session, with its binder.
pub fn full_client_hello() -> (t: Term)
    ensures
        t@ == full_client_hello_term(),
        t@.well_typed(tls_symbols()),
        t@.result_type(tls_symbols()) == TypeShape::single(MESSAGE),
        forall|s: Set<u64>| s.contains(0) && s.contains(1) ==> #[trigger] t@.refers_within(s),
{
    app2(FN_FILL_BINDER, resumption_client_hello(), resumption_binder())
}

/// The transcript of the resumed handshake up to the server hello.
pub open spec fn resumption_server_hello_transcript_term() -> TermView {
    apply(
        FN_APPEND_TRANSCRIPT,
        seq![
            apply(
                FN_APPEND_TRANSCRIPT,
                seq![
                    apply(FN_NEW_TRANSCRIPT, Seq::empty()),
                    full_client_hello_term(),
                ],
            ),
            variable(10, 0, TypeShape::single(MESSAGE)),
        ],
    )
}

/// The transcript of the resumed handshake up to the server hello.
pub fn resumption_server_hello_transcript() -> (t: Term)
    ensures
        t@ == resumption_server_hello_transcript_term(),
        t@.well_typed(tls_symbols()),
        t@.result_type(tls_symbols()) == TypeShape::single(TRANSCRIPT),
        forall|s: Set<u64>|
            s.contains(0) && s.contains(1) && s.contains(10) ==> #[trigger] t@.refers_within(s),
{
    app2(
        FN_APPEND_TRANSCRIPT,
        app2(FN_APPEND_TRANSCRIPT, app0(FN_NEW_TRANSCRIPT), full_client_hello()),
        var(10, 0, TypeShape::single(MESSAGE)),
    )
}

/// The encrypted extensions of the resumed handshake, decrypted.
pub open spec fn resumption_encrypted_extensions_term() -> TermView {
    apply(
        FN_DECRYPT_HANDSHAKE,
        seq![
            variable(10, 1, TypeShape::single(MESSAGE)),
            variable(10, 0, TypeShape::many(SERVER_EXTENSION)),
            resumption_server_hello_transcript_term(),
            apply(FN_PSK, seq![resumption_psk_term()]),
            apply(FN_SEQ_0, Seq::empty()),
        ],
    )
}

/// The encrypted extensions of the resumed handshake, decrypted.
pub fn resumption_encrypted_extensions() -> (t: Term)
    ensures
        t@ == resumption_encrypted_extensions_term(),
        t@.well_typed(tls_symbols()),
        t@.result_type(tls_symbols()) == TypeShape::single(MESSAGE),
        forall|s: Set<u64>|
            s.contains(0) && s.contains(1) && s.contains(10) ==> #[trigger] t@.refers_within(s),
{
    app5(
        FN_DECRYPT_HANDSHAKE,
        var(10, 1, TypeShape::single(MESSAGE)),
        var(10, 0, TypeShape::many(SERVER_EXTENSION)),
        resumption_server_hello_transcript(),
        app1(FN_PSK, resumption_psk()),
        app0(FN_SEQ_0),
    )
}

/// The transcript of the resumed handshake up to the encrypted extensions.
pub open spec fn resumption_encrypted_extensions_transcript_term() -> TermView {
    apply(
        FN_APPEND_TRANSCRIPT,
        seq![
            resumption_server_hello_transcript_term(),
            resumption_encrypted_extensions_term(),
        ],
    )
}

/// The transcript of the resumed handshake up to the encrypted extensions.
pub fn resumption_encrypted_extensions_transcript() -> (t: Term)
    ensures
        t@ == resumption_encrypted_extensions_transcript_term(),
        t@.well_typed(tls_symbols()),
        t@.result_type(tls_symbols()) == TypeShape::single(TRANSCRIPT),
        forall|s: Set<u64>|
            s.contains(0) && s.contains(1) && s.contains(10) ==> #[trigger] t@.refers_within(s),
{
    app2(
        FN_APPEND_TRANSCRIPT,
        resumption_server_hello_transcript(),
        resumption_encrypted_extensions(),
    )
}

/// The finished message of the server in the resumed handshake, decrypted.
pub open spec fn resumption_server_finished_term() -> TermView {
    apply(
        FN_DECRYPT_HANDSHAKE,
        seq![
            variable(10, 2, TypeShape::single(MESSAGE)),
            variable(10, 0, TypeShape::many(SERVER_EXTENSION)),
            resumption_server_hello_transcript_term(),
            apply(FN_PSK, seq![resumption_psk_term()]),
            apply(FN_SEQ_1, Seq::empty()),
        ],
    )
}

/// The finished message of the server in the resumed handshake, decrypted.
pub fn resumption_server_finished() -> (t: Term)
    ensures
        t@ == resumption_server_finished_term(),
        t@.well_typed(tls_symbols()),
        t@.result_type(tls_symbols()) == TypeShape::single(MESSAGE),
        forall|s: Set<u64>|
            s.contains(0) && s.contains(1) && s.contains(10) ==> #[trigger] t@.refers_within(s),
{
    app5(
        FN_DECRYPT_HANDSHAKE,
        var(10, 2, TypeShape::single(MESSAGE)),
        var(10, 0, TypeShape::many(SERVER_EXTENSION)),
        resumption_server_hello_transcript(),
        app1(FN_PSK, resumption_psk()),
        app0(FN_SEQ_1),
    )
}

/// The transcript of the resumed handshake up to the finished message of the
/// server.
pub open spec fn resumption_server_finished_transcript_term() -> TermView {
    apply(
        FN_APPEND_TRANSCRIPT,
        seq![
            resumption_encrypted_extensions_transcript_term(),
            resumption_server_finished_term(),
        ],
    )
}

/// The transcript of the resumed handshake up to the finished message of the
/// server.
pub fn resumption_server_finished_transcript() -> (t: Term)
    ensures
        t@ == resumption_server_finished_transcript_term(),
        t@.well_typed(tls_symbols()),
        t@.result_type(tls_symbols()) == TypeShape::single(TRANSCRIPT),
        forall|s: Set<u64>|
            s.contains(0) && s.contains(1) && s.contains(10) ==> #[trigger] t@.refers_within(s),
{
    app2(
        FN_APPEND_TRANSCRIPT,
        resumption_encrypted_extensions_transcript(),
        resumption_server_finished(),
    )
}

/// The finished message of the client in the resumed handshake.
pub open spec fn resumption_client_finished_term() -> TermView {
    apply(
        FN_FINISHED,
        seq![
            apply(
                FN_VERIFY_DATA,
                seq![
                    variable(10, 0, TypeShape::many(SERVER_EXTENSION)),
                    resumption_server_finished_transcript_term(),
                    resumption_server_hello_transcript_term(),
                    apply(FN_PSK, seq![resumption_psk_term()]),
                ],
            ),
        ],
    )
}

/// The finished message of the client in the resumed handshake.
pub fn resumption_client_finished() -> (t: Term)
    ensures
        t@ == resumption_client_finished_term(),
        t@.well_typed(tls_symbols()),
        t@.result_type(tls_symbols()) == TypeShape::single(MESSAGE),
        forall|s: Set<u64>|
            s.contains(0) && s.contains(1) && s.contains(10) ==> #[trigger] t@.refers_within(s),
{
    app1(
        FN_FINISHED,
        app4(
            FN_VERIFY_DATA,
            var(10, 0, TypeShape::many(SERVER_EXTENSION)),
            resumption_server_finished_transcript(),
            resumption_server_hello_transcript(),
            app1(FN_PSK, resumption_psk()),
        ),
    )
}

/// The finished message of the client in the resumed handshake, encrypted.
pub open spec fn encrypted_resumption_client_finished_term() -> TermView {
    apply(
        FN_ENCRYPT_HANDSHAKE,
        seq![
            resumption_client_finished_term(),
            variable(10, 0, TypeShape::many(SERVER_EXTENSION)),
            resumption_server_hello_transcript_term(),
            apply(FN_PSK, seq![resumption_psk_term()]),
            apply(FN_SEQ_0, Seq::empty()),
        ],
    )
}

/// The finished message of the client in the resumed handshake, encrypted.
pub fn encrypted_resumption_client_finished() -> (t: Term)
    ensures
        t@ == encrypted_resumption_client_finished_term(),
        t@.well_typed(tls_symbols()),
        t@.result_type(tls_symbols()) == TypeShape::single(MESSAGE),
        forall|s: Set<u64>|
            s.contains(0) && s.contains(1) && s.contains(10) ==> #[trigger] t@.refers_within(s),
{
    app5(
        FN_ENCRYPT_HANDSHAKE,
        resumption_client_finished(),
        var(10, 0, TypeShape::many(SERVER_EXTENSION)),
        resumption_server_hello_transcript(),
        app1(FN_PSK, resumption_psk()),
        app0(FN_SEQ_0),
    )
}

} // verus!
