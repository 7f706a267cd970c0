//! What is specific to TLS: its vocabulary, its records on the wire and the
//! crafting of its messages.

pub mod client_hello;
pub mod query;
pub mod recipes;
pub mod record;
pub mod signature;
