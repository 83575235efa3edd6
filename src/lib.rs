//! A verification harness for a corpus of reproduction cases: metadata
//! parsing, a case registry, runner decisions, outcome classification and
//! aggregation.

pub mod bytes;
pub mod kinds;

pub use kinds::{BugClass, OutcomeKind};
pub mod case;
pub mod classify;
pub mod runner;
pub mod registry;
pub mod report;
pub mod poc;
pub mod words;
pub mod text;
pub mod scan;
pub mod values;
pub mod metadata;
