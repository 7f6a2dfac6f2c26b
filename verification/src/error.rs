//! The error taxonomy of the script subsystem.
//!
//! Compile-time failures (`Compilation`, `InvalidAspectDeclaration`) are
//! surfaced to the rule-loading caller keyed by file name; run-time failures
//! (`RuntimeError`, `UnsupportedType`, `InvalidType`, `InvalidMessageType`)
//! are surfaced per invocation and never tear down the engine.  Error values
//! are plain immutable data.

use crate::value::{clone_value, value_eq, view_value, ScriptVal, ScriptValue};
use vstd::prelude::*;

verus! {

/// Mathematical shape of a `ScriptError`.
pub enum ErrVal {
    Runtime(Seq<char>),
    Unsupported(Seq<char>),
    Invalid(Seq<char>, ScriptVal),
    Compilation(Seq<char>, Seq<char>),
    InvalidAspectDecl,
    InvalidMessage(Seq<char>),
}

/// Everything that can go wrong while compiling or running a script.
#[derive(Debug)]
pub enum ScriptError {
    /// The embedded interpreter raised a failure while executing a script
    /// body; the detail names the raised error.
    RuntimeError(String),
    /// A value crossing the host/guest boundary has no defined
    /// representation on the other side.
    UnsupportedType(String),
    /// A type-directed extraction from a `ScriptValue` was attempted against
    /// the wrong variant; carries the expected kind and the mismatched
    /// value.
    InvalidType(String, ScriptValue),
    /// Parse, codegen or missing-declaration failure; carries the offending
    /// file name and a detail.
    Compilation(String, String),
    /// A file does not follow the structural convention expected of an
    /// aspect file.
    InvalidAspectDeclaration,
    /// A value reported by a script as a diagnostic message does not match a
    /// recognized shape.
    InvalidMessageType(String),
}

pub open spec fn view_error(e: ScriptError) -> ErrVal {
    match e {
        ScriptError::RuntimeError(d) => ErrVal::Runtime(d@),
        ScriptError::UnsupportedType(d) => ErrVal::Unsupported(d@),
        ScriptError::InvalidType(k, v) => ErrVal::Invalid(k@, view_value(v)),
        ScriptError::Compilation(f, d) => ErrVal::Compilation(f@, d@),
        ScriptError::InvalidAspectDeclaration => ErrVal::InvalidAspectDecl,
        ScriptError::InvalidMessageType(d) => ErrVal::InvalidMessage(d@),
    }
}

impl View for ScriptError {
    type V = ErrVal;

    open spec fn view(&self) -> ErrVal {
        view_error(*self)
    }
}

impl PartialEq for ScriptError {
    fn eq(&self, other: &ScriptError) -> (r: bool) {
        match (self, other) {
            (ScriptError::RuntimeError(a), ScriptError::RuntimeError(b)) => *a == *b,
            (ScriptError::UnsupportedType(a), ScriptError::UnsupportedType(b)) => *a == *b,
            (ScriptError::InvalidType(ka, va), ScriptError::InvalidType(kb, vb)) => *ka == *kb
                && value_eq(va, vb),
            (ScriptError::Compilation(fa, da), ScriptError::Compilation(fb, db)) => *fa == *fb && *da == *db,
            (ScriptError::InvalidAspectDeclaration, ScriptError::InvalidAspectDeclaration) => true,
            (ScriptError::InvalidMessageType(a), ScriptError::InvalidMessageType(b)) => *a == *b,
            _ => false,
        }
    }
}

impl vstd::std_specs::cmp::PartialEqSpecImpl for ScriptError {
    open spec fn obeys_eq_spec() -> bool {
        true
    }

    open spec fn eq_spec(&self, other: &ScriptError) -> bool {
        view_error(*self) == view_error(*other)
    }
}


impl Clone for ScriptError {
    /// Deep copy; the clone has the same mathematical shape as the
    /// original.
    fn clone(&self) -> (r: ScriptError)
        ensures
            view_error(r) == view_error(*self),
    {
        match self {
            ScriptError::RuntimeError(d) => ScriptError::RuntimeError(d.clone()),
            ScriptError::UnsupportedType(d) => ScriptError::UnsupportedType(d.clone()),
            ScriptError::InvalidType(k, v) => ScriptError::InvalidType(k.clone(), clone_value(v)),
            ScriptError::Compilation(f, d) => ScriptError::Compilation(f.clone(), d.clone()),
            ScriptError::InvalidAspectDeclaration => ScriptError::InvalidAspectDeclaration,
            ScriptError::InvalidMessageType(d) => ScriptError::InvalidMessageType(d.clone()),
        }
    }
}

} // verus!
