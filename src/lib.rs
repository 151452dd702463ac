//! Test-plan driven stub generation: merges generated test stubs into existing
//! files without destroying hand-written content, validates generated files
//! against the plan, and classifies runner output against the plan.
pub mod case;
pub mod config;
pub mod document;
pub mod error;
pub mod git;
pub mod merge;
pub mod parsing;
pub mod paths;
pub mod pattern;
pub mod plan;
pub mod render;
pub mod run;
pub mod runner;
pub mod target;
pub mod text;
pub mod template;
pub mod validate;
