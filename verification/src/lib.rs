//! Script execution subsystem of a static-analysis engine.
//!
//! Rule authors extend the engine with scripted logic written in an embedded
//! dynamic language.  This crate compiles script source into invokable
//! units, exchanges values between the host and the embedded runtime through
//! a closed value model, and lets scripts be invoked standalone or during
//! query evaluation with a call-scoped context capability.

pub mod aspects;
pub mod ctx;
pub mod engine;
pub mod files;
pub mod dict;
pub mod error;
pub mod marshal;
pub mod python;
pub mod strord;
pub mod value;
