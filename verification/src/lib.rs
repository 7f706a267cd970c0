//! A symbolic trace engine for fuzzing TLS implementations.
//!
//! Traces are scripted multi-party handshakes. Their messages are terms of a
//! typed algebra, evaluated against the knowledge that earlier steps of the
//! run have produced, and handed to the programs under test.

pub mod agent;
pub mod algebra;
pub mod codec;
pub mod engine;
pub mod evaluation;
pub mod execution;
pub mod fuzzer;
pub mod knowledge;
pub mod policy;
pub mod put;
pub mod stream;
pub mod subterms;
pub mod text;
pub mod tls;
pub mod trace;
