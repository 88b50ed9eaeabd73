//! Issuer-side engine of a verifiable-credential exchange protocol.
//!
//! The library manages the lifecycle of a claim (a credential offered by an
//! issuer to a holder) from creation through offer, request, and delivery:
//! a handle registry owning claim records, the claim issuance state machine,
//! the serialized record format, and the interpretation of protocol
//! responses.  Network transport and the foreign-function surface live
//! outside the library and hand it plain values.

pub mod codec;
pub mod connection;
pub mod errors;
pub mod machine;
pub mod record;
pub mod registry;
pub mod state;
pub mod validate;
