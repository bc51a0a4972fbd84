//! Core of a desktop assistant that turns a natural-language request into a
//! filesystem side effect safely: a deterministic parser produces a canonical
//! action plan, a verifier checks paths and preconditions and recomputes the
//! plan's risk score, a capability engine mints and checks scoped expiring
//! tokens, and an executor runs the plan over a filesystem model with
//! pre-operation snapshots and best-effort rollback, after which an audit
//! entry with a hash-chained signature can be prepared for external storage.
//!
//! All scores are integers in thousandths (a score of 150 stands for 0.15),
//! so that risk arithmetic is exact. Filesystem effects are expressed against
//! the in-library model [`fs_model::FsState`]; a host process owns the real
//! disk and the mapping between the two.

pub mod text;
pub mod types;
pub mod runtime;
pub mod fs_model;
pub mod validator;
pub mod parser;
pub mod plan_verifier;
pub mod snapshot;
pub mod executor;
pub mod audit;
pub mod host;
pub mod policy;
