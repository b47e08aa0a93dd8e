//! A builder-construction synthesis engine.
//!
//! Given a schema of fields, each with a presence requirement (always
//! required, optional, defaulted, or required/optional under a boolean
//! condition over the other fields' presence), this library decides which
//! combinations of supplied fields form a legally completable object and
//! derives the observable construction protocol: setters, the set of
//! presence states from which a finalize operation is available, and the
//! per-field composition rule applied at finalize.

pub mod condition;
pub mod parse;
pub mod schema;
pub mod validity;
pub mod builder;
pub mod protocol;
