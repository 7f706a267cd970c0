//! What a fuzzing campaign starts from and works with: seed traces, mutation
//! operators and their configuration.

pub mod config;
pub mod generate;
pub mod mutations;
pub mod scheduled;
pub mod seeds;
pub mod terms;
