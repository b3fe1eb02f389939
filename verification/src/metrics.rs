//! Observability: record types and recorders for instruction and cache
//! metrics. A pure observer of the engine, never part of its outcome.

pub mod cachedb;
pub mod instruction;
pub mod types;
