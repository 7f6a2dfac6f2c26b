//! The script-engine capability: what any embedded-language backend
//! implements.
//!
//! A backend compiles source into an opaque invokable `Script`, evaluates it
//! standalone, evaluates it inside a query with the context capability
//! attached, and compiles a whole file into named aspects of named rule
//! scripts.

use crate::ctx::EvalCtxRegistry;
use crate::error::ScriptError;
use crate::marshal::{spec_from_native, spec_to_native, FromNative, PyNativeV};
use crate::value::{view_value, ScriptQueryValue, ScriptValue};
use vstd::prelude::*;

verus! {

/// A mapping from aspect name to its rule scripts by rule name; aspect
/// names unique, rule names unique within each aspect, no aspect empty.
pub open spec fn aspects_wf<S>(m: Seq<(String, Vec<(String, S)>)>) -> bool {
    (forall|i: int, j: int| 0 <= i < j < m.len() ==> m[i].0@ != m[j].0@) && (forall|i: int|
        0 <= i < m.len() ==> m[i].1@.len() > 0) && (forall|i: int, j: int, k: int|
        0 <= i < m.len() && 0 <= j < k < m[i].1@.len() ==> m[i].1@[j].0@ != m[i].1@[k].0@)
}

/// An embedded-language backend.
pub trait ScriptEngine {
    type Script;

    /// Standalone invocation outside any query context.  An argument with
    /// no guest representation (one holding a `Scope`) fails with
    /// `UnsupportedType("scope")`; errors are confined to `RuntimeError`
    /// (the guest raised) and `UnsupportedType` (a value could not cross
    /// the boundary), and a successful result lies in the guest-to-host
    /// conversion's image.
    fn eval(&self, script: &Self::Script, args: Vec<ScriptValue>) -> (r: Result<
        ScriptValue,
        ScriptError,
    >)
        ensures
            ((exists|i: int|
                0 <= i < args@.len() && spec_to_native(view_value(args@[i])) is None) ==> (r
                matches Err(e) && e matches ScriptError::UnsupportedType(d) && d@ == "scope"@)),
            (r matches Err(e) ==> (e is RuntimeError || e is UnsupportedType)),
            (r matches Ok(v) ==> (exists|nv: PyNativeV|
                spec_from_native(nv) == FromNative::Val(view_value(v)))),
    ;

    /// In-query invocation: node references may cross the boundary, and
    /// the registry issues a context token for the duration of the call
    /// and revokes it before returning.  Plain arguments and results obey
    /// the same boundary as `eval`.
    fn eval_in_query(
        &self,
        script: &Self::Script,
        args: Vec<ScriptQueryValue>,
        ctx: &mut EvalCtxRegistry,
    ) -> (r: Result<ScriptQueryValue, ScriptError>)
        requires
            old(ctx).wf(),
            old(ctx).live_token() is None,
            old(ctx).next_token() < u64::MAX,
            args@.len() <= 9223372036854775807,
        ensures
            final(ctx).wf(),
            final(ctx).live_token() is None,
            ((exists|i: int|
                0 <= i < args@.len() && (#[trigger] args@[i] matches ScriptQueryValue::Simple(v)
                    && spec_to_native(view_value(v)) is None)) ==> (r matches Err(e) && e matches
                ScriptError::UnsupportedType(d) && d@ == "scope"@)),
            (r matches Err(e) ==> (e is RuntimeError || e is UnsupportedType)),
            (r matches Ok(qv) ==> (qv matches ScriptQueryValue::Simple(v) ==> (exists|
                nv: PyNativeV,
            |
                spec_from_native(nv) == FromNative::Val(view_value(v))))),
    ;

    /// Compile `script`, binding the result to the top-level function named
    /// `fun_name`; `file_name` keys every compilation diagnostic.
    fn compile_function(&self, script: &str, file_name: &str, fun_name: &str) -> (r: Result<
        Self::Script,
        ScriptError,
    >)
        ensures
            (r matches Err(e) ==> e matches ScriptError::Compilation(f, _) && f@ == file_name@),
    ;

    /// Compile one file that declares one or more aspects, each owning one
    /// or more named rule functions.
    fn compile_aspects(&self, script: &str, file_name: &str) -> (r: Result<
        Vec<(String, Vec<(String, Self::Script)>)>,
        ScriptError,
    >)
        ensures
            (r matches Ok(m) ==> aspects_wf(m@) && m@.len() >= 1),
            (r matches Err(e) ==> (e matches ScriptError::Compilation(f, _) && f@ == file_name@)
                || e is InvalidAspectDeclaration),
    ;
}

} // verus!
