//! Access-control decision engine with a consistency-aware decision cache.
//!
//! Policies are triples `(subject, object, grant)` where a grant is either a
//! role or an access level. Requests `(subject, object, requirement)` are
//! decided against the materialized policy set: the grouping closure maps a
//! grant to the actions it implies, and threshold requirements are compared by
//! rank. Decisions are cached per request and the cache is invalidated
//! narrowly on mutation, so a cached answer always equals a fresh evaluation.

pub mod access;
pub mod enforcer;
pub mod matcher;
pub mod model;
pub mod policy;

pub use access::AccessControl;
pub use access::AccessError;
pub use access::ConsistencyMode;
pub use access::GenerationCounter;
pub use enforcer::Enforcer;
pub use model::AccessLevel;
pub use model::Action;
pub use model::EnforceAct;
pub use model::Grant;
pub use model::Role;
pub use policy::ObjectType;
pub use policy::PolicyEntry;
pub use policy::SubjectType;
