//! The analyzers: each one walks the syntax tree and produces its result
//! collection.
pub mod cognitive_complexity;
pub mod cpd;
pub mod cyclomatic_complexity;
pub mod highlight;
pub mod metrics;
pub mod syntax_error;
pub mod walk;
