//! Identity registry and soulbound-token lifecycle.
//!
//! An identity is a triple of digests of a person's name, date of birth and
//! gender. A record binds one triple to one token and says whether the token
//! is live; the registry lists every triple that is taken. The lifecycle
//! module decides what each transition does to a record and to the registry,
//! and what it asks of the token service.

pub mod error;
pub mod identity;
pub mod laws;
pub mod lifecycle;
pub mod record;
pub mod registry;
pub mod system;
pub mod token;
