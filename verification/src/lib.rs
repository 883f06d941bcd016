//! A workload-generation engine for benchmarking concurrent key-value
//! collections: a pre-generated pool of unique keys with disjoint
//! range allocation, an operation-mix model expanded into a shuffled
//! operation sequence, the per-worker operation loop, and the
//! aggregation of per-thread elapsed times into a mean latency.

pub mod engine;
pub mod keys;
pub mod latency;
pub mod mix;
