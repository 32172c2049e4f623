//! Certificate batches: a registry of batch records addressed by issuer and
//! nonce, and a claim engine that marks each certificate of a batch at most once.
pub mod address;
pub mod errors;
pub mod instructions;
pub mod registry;
pub mod states;
