//! A decentralized-identifier (DID) registry: mints unique, hash-derived
//! identifiers bound to an owning account, stores resolvable metadata for
//! each identifier, and answers lookups in both directions.

pub mod derivation;
pub mod laws;
pub mod record;
pub mod registry;
pub mod validation;
