//! A permissioned document registry: organizations issue document records to
//! users and may later revoke them, every mutation authorized by proof of
//! control over a public key and recorded as an event.
//!
//! Records live in an address-keyed store with strict insert-if-absent
//! semantics; the derived address of a record is a deterministic function of
//! its namespace and owner keys, so creation is inherently collision-checked.

pub mod addressing;
pub mod contexts;
pub mod error;
pub mod events;
pub mod keys;
pub mod laws;
pub mod records;
pub mod registry;
