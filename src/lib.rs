//! A minimal continuous-integration engine: the run-state model, the status
//! aggregation rule, the fail-fast execution sequencing and an in-memory run
//! store whose operations keep run and job state consistent.

pub mod status;
pub mod models;
pub mod aggregate;
pub mod store;
pub mod query;
pub mod engine;
pub mod file;
