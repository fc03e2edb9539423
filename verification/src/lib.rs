//! Client library for a document-extraction web API.
//!
//! The library computes, for each API operation, a fully determined request
//! plan: the target URL, the authentication headers (including a keyed-hash
//! signature over the payload and a timestamp), and the JSON request body.
//! Performing the HTTP exchange itself is left to the embedding program.

pub mod client;
pub mod client_factory;
pub mod json;
pub mod signer;
pub mod text;
