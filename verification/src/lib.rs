//! Session protocol over a deterministic machine emulator.
//!
//! The crate holds the data model of the protocol (digests, Merkle proofs,
//! access logs), the conversion of decoded messages into that model, the
//! verification of Merkle proofs, and the bookkeeping of sessions and their
//! snapshots. The emulator itself, the transport and the byte encoding of
//! messages are left to the caller.

pub mod access;
pub mod error;
pub mod hash;
pub mod manager;
pub mod merkle;
pub mod messages;
pub mod protocol;
pub mod session;
pub mod snapshot;
pub mod wire;
