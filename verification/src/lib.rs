//! A coverage-guided differential fuzzing engine.
//!
//! The engine repeatedly mutates byte-string inputs, feeds each candidate to
//! two independent JSON parsers, and flags any input on which the two
//! disagree about acceptance. Novel executions (those that improve the
//! cumulative edge-coverage table) are kept in a corpus; crash-classified and
//! timed-out inputs are recorded, deduplicated, in an objective store.

pub mod canon;
pub mod corpus;
pub mod coverage;
pub mod engine;
pub mod mutate;
pub mod objective;
pub mod oracle;
pub mod rng;
pub mod sched;
