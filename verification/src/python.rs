//! The concrete script backend embedding a Python interpreter.
//!
//! Compilation parses the source as one interactive module, rejects an empty
//! module or a module lacking the requested top-level function, appends a
//! trailing name-reference statement, compiles the augmented tree, and runs
//! it in a fresh scope so that the module's value is the function object.
//! Invocation marshals arguments through the verified `PyNative` model; the
//! only trusted steps are the calls into the interpreter itself.

use crate::ctx::EvalCtxRegistry;
use crate::error::ScriptError;
use crate::marshal::{
    native_to_value, spec_from_native, spec_to_native, value_to_native, view_native, FromNative,
    PyNative, PyNativeV,
};
use crate::strord::str_compare;
use crate::value::{view_value, ScriptQueryValue, ScriptVal, ScriptValue, SylvaNode};
use rustpython_parser::ast;
use rustpython_parser::ast::fold::Fold;
use rustpython_vm::{AsObject, Interpreter, PyObjectRef, VirtualMachine};
use vstd::prelude::*;
use vstd::string::*;

verus! {

#[verifier::external_type_specification]
#[verifier::external_body]
pub struct ExInterpreter(Interpreter);

#[verifier::external_type_specification]
#[verifier::external_body]
pub struct ExVirtualMachine(VirtualMachine);

#[verifier::external_type_specification]
#[verifier::external_body]
pub struct ExPyObjectRef(PyObjectRef);

#[verifier::external_type_specification]
#[verifier::external_body]
#[verifier::reject_recursive_types(R)]
pub struct ExMod<R>(ast::Mod<R>);

#[verifier::external_type_specification]
#[verifier::external_body]
pub struct ExTextRange(rustpython_parser::text_size::TextRange);

/// A compiled loadable unit.  Verus refuses the declaration of the
/// bytecode object type itself (its generic parameter carries an outside
/// trait bound), so the value is held opaque in this wrapper.
#[verifier::external_body]
pub struct LoadableCode {
    code: rustpython_vm::bytecode::CodeObject,
}

/// Relies on `PyObjectRef`'s reference-counted clone.
pub assume_specification[ <PyObjectRef as Clone>::clone ](o: &PyObjectRef) -> PyObjectRef;

/// How deep a dictionary result may nest.  Reading a guest result stops at
/// this depth, so a cyclic guest dictionary cannot hang the host; anything
/// deeper comes back as `UnsupportedType`.
pub const MAX_RESULT_NESTING: u64 = 64;

/// Whether a parsed module is an interactive module (the shape that
/// interactive-mode parsing produces).
pub uninterp spec fn mod_interactive(m: ast::Mod) -> bool;

/// Shape of one top-level statement, as the compiler pipeline reads it: a
/// function definition with its name, an expression statement that is a
/// bare name reference, or anything else.
pub enum StmtShape {
    FnDef(Seq<char>),
    NameRef(Seq<char>),
    Other,
}

/// The statements of a parsed module, each reduced to its `StmtShape`.
pub uninterp spec fn mod_stmts(m: ast::Mod) -> Seq<StmtShape>;

/// What interactive-mode parsing makes of a source text: `None` when the
/// text does not parse, else its top-level statement list, reduced as
/// `mod_stmts` reduces it.  Parsing is a function of the source text
/// alone.
pub uninterp spec fn parse_stmts(code: Seq<char>) -> Option<Seq<StmtShape>>;

/// Relies on `rustpython_parser::parse` in interactive mode: source text
/// in, parsed module or error message out.  Success depends on the source
/// text alone; a successfully parsed module is the interactive variant and
/// its statements are the named parse outcome.
#[verifier::external_body]
fn parse_module(code: &str, path: &str) -> (r: Result<ast::Mod, String>)
    ensures
        (r is Ok <==> parse_stmts(code@) is Some),
        (r matches Ok(m) ==> mod_interactive(m) && Some(mod_stmts(m)) == parse_stmts(code@)),
{
    rustpython_parser::parse(code, rustpython_parser::Mode::Interactive, path).map_err(
        |e| e.to_string(),
    )
}

/// Relies on the parsed tree's shape: the number of top-level statements.
#[verifier::external_body]
fn module_len(m: &ast::Mod) -> (r: usize)
    ensures
        r == mod_stmts(*m).len(),
{
    match m {
        ast::Mod::Interactive(inner) => inner.body.len(),
        ast::Mod::Module(inner) => inner.body.len(),
        _ => 0,
    }
}

/// Relies on the parsed tree's shape: the name of the `i`-th top-level
/// statement if it is a function definition.
#[verifier::external_body]
fn stmt_function_name(m: &ast::Mod, i: usize) -> (r: Option<String>)
    requires
        i < mod_stmts(*m).len(),
    ensures
        (r matches Some(s) ==> mod_stmts(*m)[i as int] == StmtShape::FnDef(s@)),
        (r is Some <==> mod_stmts(*m)[i as int] is FnDef),
{
    let body = match m {
        ast::Mod::Interactive(inner) => &inner.body,
        ast::Mod::Module(inner) => &inner.body,
        _ => return None,
    };
    match body.get(i) {
        Some(ast::Stmt::FunctionDef(f)) => Some(f.name.as_str().to_string()),
        _ => None,
    }
}

/// Relies on pushing one trailing expression statement that references
/// `name` at the position of the last statement, so that evaluating the
/// module as a block yields the named binding.
#[verifier::external_body]
fn append_name_ref(m: &mut ast::Mod, name: &str)
    requires
        mod_interactive(*old(m)),
        mod_stmts(*old(m)).len() > 0,
    ensures
        mod_interactive(*final(m)),
        mod_stmts(*final(m)) == mod_stmts(*old(m)).push(StmtShape::NameRef(name@)),
{
    if let ast::Mod::Interactive(inner) = m {
        if let Some(last) = inner.body.last() {
            let range = rustpython_parser::text_size::TextRange::empty(
                ast::Ranged::range(last).end(),
            );
            let expr = ast::Expr::Name(ast::ExprName {
                range,
                id: ast::Identifier::new(name.to_string()),
                ctx: ast::ExprContext::Load,
            });
            inner.body.push(ast::Stmt::Expr(ast::StmtExpr { range, value: Box::new(expr) }));
        }
    }
}

/// Relies on `rustpython_codegen::compile::compile_top` (after locating the
/// tree against the source text): bytecode for the module, or the codegen
/// error rendered as text.  Only an interactive module may be handed in:
/// codegen aborts on a function-type module.
#[verifier::external_body]
fn compile_module(source: &str, path: &str, m: &ast::Mod) -> (r: Result<LoadableCode, String>)
    requires
        mod_interactive(*m),
{
    let mut locator = rustpython_parser::source_code::LinearLocator::new(source);
    let located = locator.fold_mod(m.clone()).unwrap_or_else(|e| match e {});
    rustpython_codegen::compile::compile_top(
        &located,
        path.to_string(),
        rustpython_vm::compiler::Mode::Single,
        rustpython_codegen::CompileOpts { optimize: 1 },
    ).map(|code| LoadableCode { code }).map_err(|e| e.to_string())
}

/// Relies on `Interpreter::enter` to run the module loading step inside the
/// interpreter.
#[verifier::external_body]
fn enter_run(interp: &Interpreter, code: LoadableCode) -> (r: Result<PyObjectRef, ()>) {
    interp.enter(|vm| run_code_in_vm(vm, code))
}

/// Relies on `VirtualMachine::run_code_obj` in a fresh scope pre-populated
/// with the built-ins.
#[verifier::external_body]
fn vm_run_code(vm: &VirtualMachine, code: LoadableCode) -> (r: Result<PyObjectRef, ()>) {
    vm.run_code_obj(vm.ctx.new_code(code.code), vm.new_scope_with_builtins()).map_err(|_| ())
}

/// Load a compiled module inside the interpreter, yielding its value.
pub(crate) fn run_code_in_vm(vm: &VirtualMachine, code: LoadableCode) -> (r: Result<
    PyObjectRef,
    (),
>) {
    vm_run_code(vm, code)
}

/// Relies on `Interpreter::without_stdlib`: a fresh interpreter instance.
#[verifier::external_body]
fn new_interpreter() -> (r: Interpreter) {
    Interpreter::without_stdlib(rustpython_vm::Settings::default())
}

/// Relies on `VirtualMachine::invoke`; a raised guest error is reduced to
/// the name of its class, followed by its rendered message when it has
/// one.
#[verifier::external_body]
fn vm_invoke(vm: &VirtualMachine, f: &PyObjectRef, args: Vec<PyObjectRef>) -> (r: Result<
    PyObjectRef,
    String,
>) {
    vm.invoke(f, args).map_err(|e| match e.as_object().str(vm) {
        Ok(msg) if !msg.as_str().is_empty() => format!("{}: {}", e.class().name(), msg.as_str()),
        _ => format!("{}", e.class().name()),
    })
}

/// Relies on `Context::new_int`.
#[verifier::external_body]
fn py_int(vm: &VirtualMachine, i: i64) -> (r: PyObjectRef) {
    vm.ctx.new_int(i).into()
}

/// Relies on `Context::new_bool`.
#[verifier::external_body]
fn py_bool(vm: &VirtualMachine, b: bool) -> (r: PyObjectRef) {
    vm.ctx.new_bool(b).into()
}

/// Relies on `Context::new_str`.
#[verifier::external_body]
fn py_str(vm: &VirtualMachine, s: &str) -> (r: PyObjectRef) {
    vm.ctx.new_str(s).into()
}

/// Relies on `Context::new_list`.
#[verifier::external_body]
fn py_list(vm: &VirtualMachine, items: Vec<PyObjectRef>) -> (r: PyObjectRef) {
    vm.ctx.new_list(items).into()
}

/// Relies on `Context::new_dict`.
#[verifier::external_body]
fn py_new_dict(vm: &VirtualMachine) -> (r: PyObjectRef) {
    vm.ctx.new_dict().into()
}

/// Relies on `PyDict::set_item` (guest dictionaries keep insertion order).
#[verifier::external_body]
fn py_dict_set(vm: &VirtualMachine, d: &PyObjectRef, k: PyObjectRef, v: PyObjectRef) -> (r: Result<
    (),
    (),
>) {
    match d.downcast_ref::<rustpython_vm::builtins::PyDict>() {
        Some(dict) => dict.set_item(&*k, v, vm).map_err(|_| ()),
        None => Err(()),
    }
}

/// Relies on `PyObject::payload` for `PyInt` and integer narrowing: `None`
/// if the object is no integer, `Some(None)` if it does not fit 64 signed
/// bits.
#[verifier::external_body]
fn py_int_of(o: &PyObjectRef) -> (r: Option<Option<i64>>) {
    o.payload::<rustpython_vm::builtins::PyInt>().map(|p| i64::try_from(p.as_bigint()).ok())
}

/// Relies on `PyObject::payload` for `PyStr`.
#[verifier::external_body]
fn py_str_of(o: &PyObjectRef) -> (r: Option<String>) {
    o.payload::<rustpython_vm::builtins::PyStr>().map(|s| s.as_str().to_string())
}

/// Relies on downcasting to `PyDict` and iterating its pairs in guest
/// insertion order.
#[verifier::external_body]
fn py_dict_items(o: &PyObjectRef) -> (r: Option<Vec<(PyObjectRef, PyObjectRef)>>) {
    o.to_owned().downcast::<rustpython_vm::builtins::PyDict>().ok().map(
        |d| d.into_iter().collect(),
    )
}

/// Relies on the object's class name, as the guest renders it.
#[verifier::external_body]
fn py_class_name(o: &PyObjectRef) -> (r: String) {
    format!("{}", o.class().name())
}

/// Build the guest object a `PyNative` describes.  Fails only on the model
/// variants that stand for values the host never sends (`Big`, `Other`).
fn build_object(vm: &VirtualMachine, n: &PyNative) -> (r: Result<PyObjectRef, ()>)
    decreases *n,
{
    match n {
        PyNative::Int(i) => Ok(py_int(vm, *i)),
        PyNative::Big => Err(()),
        PyNative::Bool(b) => Ok(py_bool(vm, *b)),
        PyNative::Str(s) => Ok(py_str(vm, s.as_str())),
        PyNative::List(items) => build_list(vm, items),
        PyNative::Dict(pairs) => build_dict(vm, pairs),
        PyNative::Other(_) => Err(()),
    }
}

fn build_list(vm: &VirtualMachine, items: &Vec<PyNative>) -> (r: Result<PyObjectRef, ()>)
    decreases items@,
{
    let mut objs: Vec<PyObjectRef> = Vec::new();
    let mut j: usize = 0;
    while j < items.len()
        decreases items@.len() - j,
    {
        match build_object(vm, &items[j]) {
            Ok(o) => {
                objs.push(o);
            },
            Err(e) => {
                return Err(e);
            },
        }
        j = j + 1;
    }
    Ok(py_list(vm, objs))
}

fn build_dict(vm: &VirtualMachine, pairs: &Vec<(PyNative, PyNative)>) -> (r: Result<
    PyObjectRef,
    (),
>)
    decreases pairs@,
{
    let d = py_new_dict(vm);
    let mut j: usize = 0;
    while j < pairs.len()
        decreases pairs@.len() - j,
    {
        let k = match build_object(vm, &pairs[j].0) {
            Ok(o) => o,
            Err(e) => {
                return Err(e);
            },
        };
        let v = match build_object(vm, &pairs[j].1) {
            Ok(o) => o,
            Err(e) => {
                return Err(e);
            },
        };
        match py_dict_set(vm, &d, k, v) {
            Ok(_) => {},
            Err(e) => {
                return Err(e);
            },
        }
        j = j + 1;
    }
    Ok(d)
}

/// Read a guest object into the model, like the original boundary: integer
/// first (guest booleans are integers), then string, then dictionary, and
/// anything else by class name.  `depth` bounds dictionary nesting so that
/// a cyclic guest dictionary cannot hang the host.
fn classify_object(o: &PyObjectRef, depth: u64) -> (r: PyNative)
    decreases depth,
{
    match py_int_of(o) {
        Some(fit) => {
            return match fit {
                Some(i) => PyNative::Int(i),
                None => PyNative::Big,
            };
        },
        None => {},
    }
    match py_str_of(o) {
        Some(s) => {
            return PyNative::Str(s);
        },
        None => {},
    }
    match py_dict_items(o) {
        Some(items) => {
            if depth == 0 {
                return PyNative::Other(py_class_name(o));
            }

            let mut out: Vec<(PyNative, PyNative)> = Vec::new();
            let mut j: usize = 0;
            while j < items.len()
                invariant
                    depth >= 1,
                decreases items@.len() - j,
            {
                let k = classify_object(&items[j].0, depth - 1);
                let v = classify_object(&items[j].1, depth - 1);
                out.push((k, v));
                j = j + 1;
            }
            PyNative::Dict(out)
        },
        None => PyNative::Other(py_class_name(o)),
    }
}

/// What one invocation inside the interpreter came to.
pub enum EvalOutcome {
    /// The script returned; the value is reduced to the guest model.
    Value(PyNative),
    /// The guest raised; the detail names the raised error.
    Raised(String),
}

/// Invoke a script inside the interpreter: build the argument objects, call
/// the function, and classify what came back.
pub(crate) fn eval_in_vm(vm: &VirtualMachine, f: &PyObjectRef, args: Vec<PyNative>) -> (r:
    EvalOutcome) {
    let mut objs: Vec<PyObjectRef> = Vec::new();
    let mut j: usize = 0;
    while j < args.len()
        decreases args@.len() - j,
    {
        match build_object(vm, &args[j]) {
            Ok(o) => {
                objs.push(o);
            },
            Err(_) => {
                return EvalOutcome::Raised(String::from_str("argument conversion failed"));
            },
        }
        j = j + 1;
    }
    match vm_invoke(vm, f, objs) {
        Ok(res) => EvalOutcome::Value(classify_object(&res, MAX_RESULT_NESTING)),
        Err(d) => EvalOutcome::Raised(d),
    }
}

/// Relies on `Interpreter::enter` to run one invocation inside the
/// interpreter.
#[verifier::external_body]
fn enter_eval(interp: &Interpreter, f: &PyObjectRef, args: Vec<PyNative>) -> (r: EvalOutcome) {
    interp.enter(|vm| eval_in_vm(vm, f, args))
}

/// An opaque compiled script: the guest function object, ready to be
/// invoked repeatedly.
#[derive(Debug, Clone)]
pub struct PythonScript {
    pub(crate) invokable: PyObjectRef,
}

/// Compiles script source against a borrowed interpreter instance.
pub struct PythonScriptCompiler<'i> {
    interpreter: &'i Interpreter,
}

/// Whether the statement list declares a top-level function of this name.
pub open spec fn has_function(stmts: Seq<StmtShape>, name: Seq<char>) -> bool {
    exists|i: int| 0 <= i < stmts.len() && stmts[i] == StmtShape::FnDef(name)
}

/// Reject an empty module, then a module that does not declare a top-level
/// function named `fn_name`; accept anything else.
pub fn check_module(m: &ast::Mod, fn_name: &str, path: &str) -> (r: Result<(), ScriptError>)
    ensures
        (mod_stmts(*m).len() == 0 ==> (r matches Err(e) && e matches ScriptError::Compilation(
            f,
            d,
        ) && f@ == path@ && d@ == "Empty script"@)),
        ((mod_stmts(*m).len() > 0 && !has_function(mod_stmts(*m), fn_name@)) ==> (r matches Err(e)
            && e matches ScriptError::Compilation(f, d) && f@ == path@ && d@ == "Function "@
            + fn_name@ + " not found"@)),
        (has_function(mod_stmts(*m), fn_name@) ==> r is Ok),
{
    let n = module_len(m);
    if n == 0 {
        return Err(
            ScriptError::Compilation(String::from_str(path), String::from_str("Empty script")),
        );
    }
    let mut i: usize = 0;
    while i < n
        invariant
            0 <= i <= n,
            n == mod_stmts(*m).len(),
            forall|j: int| 0 <= j < i ==> mod_stmts(*m)[j] != StmtShape::FnDef(fn_name@),
        decreases n - i,
    {
        match stmt_function_name(m, i) {
            Some(s) => {
                if str_compare(s.as_str(), fn_name) == 0 {
                    proof {
                        assert(mod_stmts(*m)[i as int] == StmtShape::FnDef(fn_name@));
                    }
                    return Ok(());
                }
            },
            None => {},
        }
        i = i + 1;
    }
    let detail: String = String::from_str("Function ").concat(fn_name).concat(" not found");
    Err(ScriptError::Compilation(String::from_str(path), detail))
}

impl<'i> PythonScriptCompiler<'i> {
    /// A compiler bound to one interpreter instance; scripts it produces
    /// must be run through the same instance.
    pub fn new(interpreter: &'i Interpreter) -> (r: PythonScriptCompiler<'i>) {
        PythonScriptCompiler { interpreter }
    }

    /// Compile `code` as one module and return the top-level function named
    /// `fn_name` as an invokable script.  Every failure is a `Compilation`
    /// error carrying `path`: a parse error, an empty module ("Empty
    /// script"), a missing declaration ("Function ... not found"), a
    /// codegen failure, or a failure to run the module.  A source that does
    /// not parse never succeeds; a parsed-but-empty module and a module
    /// without the declaration fail with exactly the stated details; and a
    /// success implies the source declares the function.
    pub fn compile_function(&self, code: &str, path: &str, fn_name: &str) -> (r: Result<
        PythonScript,
        ScriptError,
    >)
        ensures
            (r matches Err(e) ==> e matches ScriptError::Compilation(f, _) && f@ == path@),
            (parse_stmts(code@) is None ==> r is Err),
            ((parse_stmts(code@) matches Some(st) && st.len() == 0) ==> (r matches Err(e)
                && e matches ScriptError::Compilation(f, d) && f@ == path@ && d@
                == "Empty script"@)),
            ((parse_stmts(code@) matches Some(st) && st.len() > 0 && !has_function(
                st,
                fn_name@,
            )) ==> (r matches Err(e) && e matches ScriptError::Compilation(f, d) && f@ == path@
                && d@ == "Function "@ + fn_name@ + " not found"@)),
            (r is Ok ==> (parse_stmts(code@) matches Some(st) && has_function(st, fn_name@))),
    {
        let mut m = match parse_module(code, path) {
            Ok(m) => m,
            Err(d) => {
                return Err(ScriptError::Compilation(String::from_str(path), d));
            },
        };
        match check_module(&m, fn_name, path) {
            Ok(_) => {},
            Err(e) => {
                return Err(e);
            },
        }
        append_name_ref(&mut m, fn_name);
        let code_obj = match compile_module(code, path, &m) {
            Ok(c) => c,
            Err(d) => {
                return Err(ScriptError::Compilation(String::from_str(path), d));
            },
        };
        match enter_run(self.interpreter, code_obj) {
            Ok(obj) => Ok(PythonScript { invokable: obj }),
            Err(_) => Err(
                ScriptError::Compilation(
                    String::from_str(path),
                    String::from_str("failed to run code object"),
                ),
            ),
        }
    }
}

/// The Python script engine: owns one interpreter instance, through which
/// every compilation and invocation runs.
pub struct PythonScriptEngine {
    pub(crate) interpreter: Interpreter,
}

impl PythonScriptEngine {
    /// An engine around a fresh interpreter without a standard library.
    pub fn new() -> (r: PythonScriptEngine) {
        PythonScriptEngine { interpreter: new_interpreter() }
    }

    /// An engine around an existing interpreter instance, so that scripts
    /// compiled against that instance can be invoked through it.
    pub fn from_interpreter(interpreter: Interpreter) -> (r: PythonScriptEngine) {
        PythonScriptEngine { interpreter }
    }

    /// Invoke a compiled script outside any query.  Arguments cross through
    /// the verified marshalling layer; an argument holding a `Scope` fails
    /// with `UnsupportedType("scope")`.  A guest raise surfaces as
    /// `RuntimeError` naming the raised error's class, and an
    /// unrepresentable result (a big integer, a list, a non-string
    /// dictionary key, any other guest type, or a dictionary nested beyond
    /// `MAX_RESULT_NESTING` levels) as `UnsupportedType`; no other error
    /// shape can come back.  A successful result always lies in the image
    /// of the guest-to-host conversion: an integer, a string, a boolean, or
    /// a canonical dictionary of such values.
    pub fn eval(&self, script: &PythonScript, args: Vec<ScriptValue>) -> (r: Result<
        ScriptValue,
        ScriptError,
    >)
        ensures
            ((exists|i: int|
                0 <= i < args@.len() && spec_to_native(view_value(args@[i])) is None) ==> (r
                matches Err(e) && e matches ScriptError::UnsupportedType(d) && d@ == "scope"@)),
            (r matches Err(e) ==> (e is RuntimeError || e is UnsupportedType)),
            (r matches Ok(v) ==> (exists|nv: PyNativeV|
                spec_from_native(nv) == FromNative::Val(view_value(v)))),
    {
        let mut natives: Vec<PyNative> = Vec::new();
        let mut j: usize = 0;
        while j < args.len()
            invariant
                0 <= j <= args@.len(),
                forall|i: int| 0 <= i < j ==> spec_to_native(view_value(args@[i])) is Some,
            decreases args@.len() - j,
        {
            match value_to_native(&args[j]) {
                Ok(n) => {
                    natives.push(n);
                },
                Err(e) => {
                    return Err(e);
                },
            }
            j = j + 1;
        }
        match enter_eval(&self.interpreter, &script.invokable, natives) {
            EvalOutcome::Value(n) => {
                let res = native_to_value(&n);
                proof {
                    if res is Ok {
                        assert(spec_from_native(view_native(n)) == FromNative::Val(
                            view_value(res->Ok_0),
                        ));
                    }
                }
                res
            },
            EvalOutcome::Raised(d) => Err(ScriptError::RuntimeError(d)),
        }
    }

    /// Compile a function from source through this engine's interpreter;
    /// the contract is `PythonScriptCompiler::compile_function`'s.
    pub fn compile_function(&self, code: &str, path: &str, fn_name: &str) -> (r: Result<
        PythonScript,
        ScriptError,
    >)
        ensures
            (r matches Err(e) ==> e matches ScriptError::Compilation(f, _) && f@ == path@),
            (parse_stmts(code@) is None ==> r is Err),
            ((parse_stmts(code@) matches Some(st) && st.len() == 0) ==> (r matches Err(e)
                && e matches ScriptError::Compilation(f, d) && f@ == path@ && d@
                == "Empty script"@)),
            ((parse_stmts(code@) matches Some(st) && st.len() > 0 && !has_function(
                st,
                fn_name@,
            )) ==> (r matches Err(e) && e matches ScriptError::Compilation(f, d) && f@ == path@
                && d@ == "Function "@ + fn_name@ + " not found"@)),
            (r is Ok ==> (parse_stmts(code@) matches Some(st) && has_function(st, fn_name@))),
    {
        let compiler = PythonScriptCompiler::new(&self.interpreter);
        compiler.compile_function(code, path, fn_name)
    }
}

/// Key of the dictionary shape that carries a node handle across the
/// boundary during in-query evaluation.
pub open spec fn node_key() -> Seq<char> {
    "__sylva_node__"@
}

/// The node handle a result value designates, if it has the marker shape: a
/// one-pair dictionary mapping the marker key to an in-range integer.
pub open spec fn node_marker(v: ScriptVal, n: int) -> Option<int> {
    match v {
        ScriptVal::Dict(pairs) => if pairs.len() == 1 && pairs[0].0 == node_key() && pairs[0].1
            is Int && 0 <= pairs[0].1->Int_0 < n {
            Some(pairs[0].1->Int_0)
        } else {
            None
        },
        _ => None,
    }
}

/// Turn an invocation result back into a query value: a marker dictionary
/// becomes the node it designates, anything else is a plain value.
pub fn query_value_from_result(v: ScriptValue, table: &Vec<SylvaNode>) -> (r: ScriptQueryValue)
    ensures
        (match node_marker(view_value(v), table@.len() as int) {
            Some(i) => r == ScriptQueryValue::Node(table@[i]),
            None => r == ScriptQueryValue::Simple(v),
        }),
{
    let idx: Option<usize> = match &v {
        ScriptValue::Dict(pairs) => {
            proof {
                crate::value::lemma_view_pairs(pairs@);
            }
            if pairs.len() == 1 && str_compare(pairs[0].0.as_str(), "__sylva_node__") == 0 {
                match &pairs[0].1 {
                    ScriptValue::Integer(i) => {
                        if 0 <= *i && (*i as u64) < (table.len() as u64) {
                            Some(*i as usize)
                        } else {
                            None
                        }
                    },
                    _ => None,
                }
            } else {
                None
            }
        },
        _ => None,
    };
    match idx {
        Some(i) => ScriptQueryValue::Node(table[i]),
        None => ScriptQueryValue::Simple(v),
    }
}

/// Position of `key` among the aspect entries, if present.
fn find_aspect(out: &Vec<(String, Vec<(String, PythonScript)>)>, key: &String) -> (r: Option<
    usize,
>)
    ensures
        (r matches Some(i) ==> i < out@.len() && out@[i as int].0@ == key@),
        (r is None ==> forall|k: int| 0 <= k < out@.len() ==> out@[k].0@ != key@),
{
    let mut i: usize = 0;
    while i < out.len()
        invariant
            0 <= i <= out@.len(),
            forall|k: int| 0 <= k < i ==> out@[k].0@ != key@,
        decreases out@.len() - i,
    {
        if out[i].0 == *key {
            return Some(i);
        }
        i = i + 1;
    }
    None
}

/// Position of `key` among the rule entries, if present.
fn find_rule(rules: &Vec<(String, PythonScript)>, key: &String) -> (r: Option<usize>)
    ensures
        (r matches Some(i) ==> i < rules@.len() && rules@[i as int].0@ == key@),
        (r is None ==> forall|k: int| 0 <= k < rules@.len() ==> rules@[k].0@ != key@),
{
    let mut i: usize = 0;
    while i < rules.len()
        invariant
            0 <= i <= rules@.len(),
            forall|k: int| 0 <= k < i ==> rules@[k].0@ != key@,
        decreases rules@.len() - i,
    {
        if rules[i].0 == *key {
            return Some(i);
        }
        i = i + 1;
    }
    None
}

/// Whether the aspect mapping holds a rule named `r` under an aspect
/// named `a`.
pub open spec fn has_pair(
    m: Seq<(String, Vec<(String, PythonScript)>)>,
    a: Seq<char>,
    r: Seq<char>,
) -> bool {
    exists|i: int|
        0 <= i < m.len() && #[trigger] m[i].0@ == a && (exists|j: int|
            0 <= j < m[i].1@.len() && #[trigger] m[i].1@[j].0@ == r)
}

/// Insert one compiled rule under its aspect, keeping aspect names unique,
/// rule names unique within each aspect, and no aspect empty; a rule
/// compiled twice replaces its earlier script.  Afterwards the named rule
/// stands under the named aspect with the given script, entries of other
/// aspects are untouched, and no aspect/rule name pair appears that was not
/// already there, besides the inserted one.
fn insert_rule(
    out: &mut Vec<(String, Vec<(String, PythonScript)>)>,
    aspect: String,
    rule: String,
    script: PythonScript,
)
    requires
        crate::engine::aspects_wf(old(out)@),
    ensures
        crate::engine::aspects_wf(final(out)@),
        final(out)@.len() >= old(out)@.len(),
        final(out)@.len() >= 1,
        has_pair(final(out)@, aspect@, rule@),
        (exists|i: int|
            0 <= i < final(out)@.len() && #[trigger] final(out)@[i].0@ == aspect@
                && (exists|j: int|
                0 <= j < final(out)@[i].1@.len() && #[trigger] final(out)@[i].1@[j].0@ == rule@
                    && final(out)@[i].1@[j].1 == script)),
        forall|i: int|
            0 <= i < old(out)@.len() && old(out)@[i].0@ != aspect@
                ==> final(out)@[i] == old(out)@[i],
        forall|a2: Seq<char>, r2: Seq<char>|
            #[trigger] has_pair(final(out)@, a2, r2) ==> (a2 == aspect@ && r2 == rule@)
                || has_pair(old(out)@, a2, r2),
{
    let ghost o0 = old(out)@;
    match find_aspect(out, &aspect) {
        None => {
            let mut rules: Vec<(String, PythonScript)> = Vec::new();
            rules.push((rule, script));
            out.push((aspect, rules));
            proof {
                assert forall|a: int, b: int| 0 <= a < b < out@.len() implies out@[a].0@ != out@[
                    b
                ].0@ by {
                    if b < o0.len() {
                        assert(out@[a] == o0[a]);
                        assert(out@[b] == o0[b]);
                    } else {
                        assert(a < o0.len());
                        assert(out@[a] == o0[a]);
                    }
                }
                assert forall|a: int| 0 <= a < out@.len() implies out@[a].1@.len() > 0 by {
                    if a < o0.len() {
                        assert(out@[a] == o0[a]);
                    }
                }
                assert forall|a: int, b: int, c: int|
                    0 <= a < out@.len() && 0 <= b < c < out@[a].1@.len() implies out@[a].1@[b].0@
                    != out@[a].1@[c].0@ by {
                    if a < o0.len() {
                        assert(out@[a] == o0[a]);
                    }
                }
                // the inserted pair is present at the end
                assert(out@[o0.len() as int].0@ == aspect@);
                assert(out@[o0.len() as int].1@[0].0@ == rule@);
                assert(out@[o0.len() as int].1@[0].1 == script);
                assert(has_pair(out@, aspect@, rule@));
                // earlier entries are untouched
                assert forall|a: int| 0 <= a < o0.len() implies out@[a] == o0[a] by {}
                // no name pair besides the inserted one is new
                assert forall|a2: Seq<char>, r2: Seq<char>|
                    #[trigger] has_pair(out@, a2, r2) implies ((a2 == aspect@ && r2 == rule@)
                    || has_pair(o0, a2, r2)) by {
                    let a = choose|a: int|
                        0 <= a < out@.len() && #[trigger] out@[a].0@ == a2 && (exists|j: int|
                            0 <= j < out@[a].1@.len() && #[trigger] out@[a].1@[j].0@ == r2);
                    let b = choose|b: int| 0 <= b < out@[a].1@.len() && #[trigger] out@[a].1@[
                        b
                    ].0@ == r2;
                    if a < o0.len() {
                        assert(out@[a] == o0[a]);
                        assert(o0[a].0@ == a2 && o0[a].1@[b].0@ == r2);
                        assert(has_pair(o0, a2, r2));
                    } else {
                        assert(b == 0);
                    }
                }
            }
        },
        Some(i) => {
            let mut entry = out.remove(i);
            proof {
                assert(entry == o0[i as int]);
            }
            let ghost r0 = entry.1@;
            match find_rule(&entry.1, &rule) {
                Some(j) => {
                    let _replaced = entry.1.remove(j);
                    proof {
                        assert forall|k: int| 0 <= k < entry.1@.len() implies entry.1@[k].0@
                            != rule@ by {
                            if k < j {
                                assert(entry.1@[k] == r0[k]);
                                assert(r0[j as int].0@ == rule@);
                            } else {
                                assert(entry.1@[k] == r0[k + 1]);
                                assert(r0[j as int].0@ == rule@);
                            }
                        }
                        assert forall|a: int, b: int|
                            0 <= a < b < entry.1@.len() implies entry.1@[a].0@ != entry.1@[
                            b
                        ].0@ by {
                            let a2 = if a < j { a } else { a + 1 };
                            let b2 = if b < j { b } else { b + 1 };
                            assert(entry.1@[a] == r0[a2]);
                            assert(entry.1@[b] == r0[b2]);
                        }
                        assert forall|k: int|
                            0 <= k < entry.1@.len() implies (exists|k2: int|
                            0 <= k2 < r0.len() && r0[k2] == #[trigger] entry.1@[k]) by {
                            if k < j {
                                assert(r0[k] == entry.1@[k]);
                            } else {
                                assert(r0[k + 1] == entry.1@[k]);
                            }
                        }
                    }
                },
                None => {
                    proof {
                        assert forall|k: int|
                            0 <= k < entry.1@.len() implies (exists|k2: int|
                            0 <= k2 < r0.len() && r0[k2] == #[trigger] entry.1@[k]) by {
                            assert(r0[k] == entry.1@[k]);
                        }
                    }
                },
            }
            let ghost rpre = entry.1@;
            entry.1.push((rule, script));
            let ghost r1 = entry.1@;
            proof {
                assert(r1[r1.len() - 1].0@ == rule@);
                assert forall|a: int, b: int| 0 <= a < b < r1.len() implies r1[a].0@ != r1[
                    b
                ].0@ by {
                }
            }
            out.insert(i, entry);
            proof {
                let s1 = o0.remove(i as int);
                assert(out@ == s1.insert(i as int, (entry.0, entry.1)));
                assert(out@.len() == o0.len());
                assert forall|k: int| 0 <= k < out@.len() implies out@[k].0@ == o0[k].0@ by {
                    if k < i {
                        assert(out@[k] == s1[k]);
                        assert(s1[k] == o0[k]);
                    } else if k == i {
                        assert(out@[k].0 == entry.0);
                    } else {
                        assert(out@[k] == s1[k - 1]);
                        assert(s1[k - 1] == o0[k]);
                    }
                }
                assert forall|a: int, b: int| 0 <= a < b < out@.len() implies out@[a].0@ != out@[
                    b
                ].0@ by {
                    assert(out@[a].0@ == o0[a].0@);
                    assert(out@[b].0@ == o0[b].0@);
                }
                assert forall|a: int| 0 <= a < out@.len() implies out@[a].1@.len() > 0 by {
                    if a < i {
                        assert(out@[a] == s1[a]);
                        assert(s1[a] == o0[a]);
                    } else if a == i {
                    } else {
                        assert(out@[a] == s1[a - 1]);
                        assert(s1[a - 1] == o0[a]);
                    }
                }
                assert forall|a: int, b: int, c: int|
                    0 <= a < out@.len() && 0 <= b < c < out@[a].1@.len() implies out@[a].1@[b].0@
                    != out@[a].1@[c].0@ by {
                    if a < i {
                        assert(out@[a] == s1[a]);
                        assert(s1[a] == o0[a]);
                    } else if a == i {
                        assert(out@[a].1@ == r1);
                    } else {
                        assert(out@[a] == s1[a - 1]);
                        assert(s1[a - 1] == o0[a]);
                    }
                }
                // the inserted pair is present at position i
                assert(out@[i as int] == (entry.0, entry.1));
                assert(out@[i as int].1@ == r1);
                assert(out@[i as int].0@ == aspect@);
                assert(r1[r1.len() - 1] == (rule, script));
                assert(out@[i as int].1@[r1.len() - 1].0@ == rule@ && out@[i as int].1@[r1.len()
                    - 1].1 == script);
                assert(has_pair(out@, aspect@, rule@));
                // entries of other aspects are untouched
                assert forall|k: int|
                    0 <= k < o0.len() && o0[k].0@ != aspect@ implies out@[k] == o0[k] by {
                    assert(o0[i as int].0@ == aspect@);
                    if k < i {
                        assert(out@[k] == s1[k]);
                        assert(s1[k] == o0[k]);
                    } else {
                        assert(k != i);
                        assert(out@[k] == s1[k - 1]);
                        assert(s1[k - 1] == o0[k]);
                    }
                }
                // no name pair besides the inserted one is new
                assert(o0[i as int].1@ == r0);
                assert forall|a2: Seq<char>, r2: Seq<char>|
                    #[trigger] has_pair(out@, a2, r2) implies ((a2 == aspect@ && r2 == rule@)
                    || has_pair(o0, a2, r2)) by {
                    let a = choose|a: int|
                        0 <= a < out@.len() && #[trigger] out@[a].0@ == a2 && (exists|j: int|
                            0 <= j < out@[a].1@.len() && #[trigger] out@[a].1@[j].0@ == r2);
                    let b = choose|b: int| 0 <= b < out@[a].1@.len() && #[trigger] out@[a].1@[
                        b
                    ].0@ == r2;
                    if a == i {
                        assert(out@[a].1@ == r1);
                        if b == r1.len() - 1 {
                            assert(a2 == aspect@ && r2 == rule@);
                        } else {
                            assert(r1[b] == rpre[b]);
                            let k2 = choose|k2: int| 0 <= k2 < r0.len() && r0[k2] == rpre[b];
                            assert(o0[i as int].0@ == a2);
                            assert(o0[i as int].1@[k2].0@ == r2);
                            assert(has_pair(o0, a2, r2));
                        }
                    } else if a < i {
                        assert(out@[a] == s1[a]);
                        assert(s1[a] == o0[a]);
                        assert(o0[a].0@ == a2 && o0[a].1@[b].0@ == r2);
                        assert(has_pair(o0, a2, r2));
                    } else {
                        assert(out@[a] == s1[a - 1]);
                        assert(s1[a - 1] == o0[a]);
                        assert(o0[a].0@ == a2 && o0[a].1@[b].0@ == r2);
                        assert(has_pair(o0, a2, r2));
                    }
                }
            }
        },
    }
}

/// The statement list declares a function whose name splits into this
/// aspect and rule.
pub open spec fn declared_aspect_rule(
    stmts: Seq<StmtShape>,
    aspect: Seq<char>,
    rule: Seq<char>,
) -> bool {
    exists|k: int|
        0 <= k < stmts.len() && ((#[trigger] stmts[k]) matches StmtShape::FnDef(nm)
            && crate::aspects::spec_split_aspect(nm) == Some((aspect, rule)))
}

/// The statement list declares no aspect rule at all: no top-level function
/// name splits at a double underscore.
pub open spec fn no_aspect_decl(stmts: Seq<StmtShape>) -> bool {
    forall|k: int|
        0 <= k < stmts.len() ==> ((#[trigger] stmts[k]) matches StmtShape::FnDef(nm)
            ==> crate::aspects::spec_split_aspect(nm) is None)
}

impl PythonScriptEngine {
    /// Compile the aspects a parsed module declares, from the source text
    /// it was parsed from.  Exactly the top-level functions named
    /// `<aspect>__<rule>` contribute: every rule of the result arises from
    /// such a declaration, and `InvalidAspectDeclaration` comes exactly
    /// when the module declares none.
    pub fn compile_module_aspects(&self, m: &ast::Mod, code: &str, path: &str) -> (r: Result<
        Vec<(String, Vec<(String, PythonScript)>)>,
        ScriptError,
    >)
        ensures
            (r matches Ok(out) ==> crate::engine::aspects_wf(out@) && out@.len() >= 1 && (forall|
                a2: Seq<char>,
                r2: Seq<char>,
            |
                #[trigger] has_pair(out@, a2, r2) ==> declared_aspect_rule(
                    mod_stmts(*m),
                    a2,
                    r2,
                ))),
            ((r matches Err(e) && e is InvalidAspectDeclaration) <==> no_aspect_decl(
                mod_stmts(*m),
            )),
            (r matches Err(e) ==> (e matches ScriptError::Compilation(f, _) && f@ == path@) || e
                is InvalidAspectDeclaration),
    {
        let n = module_len(m);
        let mut out: Vec<(String, Vec<(String, PythonScript)>)> = Vec::new();
        let mut i: usize = 0;
        while i < n
            invariant
                0 <= i <= n,
                n == mod_stmts(*m).len(),
                crate::engine::aspects_wf(out@),
                (out@.len() == 0 ==> forall|k: int|
                    0 <= k < i ==> ((#[trigger] mod_stmts(*m)[k]) matches StmtShape::FnDef(nm)
                        ==> crate::aspects::spec_split_aspect(nm) is None)),
                (out@.len() > 0 ==> !no_aspect_decl(mod_stmts(*m))),
                forall|a2: Seq<char>, r2: Seq<char>|
                    #[trigger] has_pair(out@, a2, r2) ==> declared_aspect_rule(
                        mod_stmts(*m),
                        a2,
                        r2,
                    ),
            decreases n - i,
        {
            match stmt_function_name(m, i) {
                Some(full) => {
                    match crate::aspects::split_aspect_name(full.as_str()) {
                        Some(parts) => {
                            proof {
                                assert(mod_stmts(*m)[i as int] == StmtShape::FnDef(full@));
                                assert(crate::aspects::spec_split_aspect(full@) == Some(
                                    (parts.0@, parts.1@),
                                ));
                                assert(!no_aspect_decl(mod_stmts(*m)));
                                assert(declared_aspect_rule(mod_stmts(*m), parts.0@, parts.1@));
                            }
                            let script = match self.compile_function(code, path, full.as_str()) {
                                Ok(s) => s,
                                Err(e) => {
                                    return Err(e);
                                },
                            };
                            let ghost pre = out@;
                            insert_rule(&mut out, parts.0, parts.1, script);
                            proof {
                                assert forall|a2: Seq<char>, r2: Seq<char>|
                                    #[trigger] has_pair(out@, a2, r2) implies declared_aspect_rule(
                                    mod_stmts(*m),
                                    a2,
                                    r2,
                                ) by {
                                    if a2 == parts.0@ && r2 == parts.1@ {
                                    } else {
                                        assert(has_pair(pre, a2, r2));
                                    }
                                }
                            }
                        },
                        None => {},
                    }
                },
                None => {},
            }
            i = i + 1;
        }
        if out.len() == 0 {
            proof {
                assert(no_aspect_decl(mod_stmts(*m)));
            }
            return Err(ScriptError::InvalidAspectDeclaration);
        }
        Ok(out)
    }

    /// Compile one file declaring aspects.  Every top-level function named
    /// `<aspect>__<rule>` (split at the first double underscore, both parts
    /// non-empty) is compiled into rule `<rule>` of aspect `<aspect>`;
    /// other functions are helpers.  A source that does not parse never
    /// succeeds, and `InvalidAspectDeclaration` comes exactly when the
    /// source parses but declares no aspect rule; how the result relates to
    /// the parsed statements, declaration by declaration, is stated on
    /// `compile_module_aspects`.
    pub fn compile_aspects(&self, code: &str, path: &str) -> (r: Result<
        Vec<(String, Vec<(String, PythonScript)>)>,
        ScriptError,
    >)
        ensures
            (r matches Ok(m) ==> crate::engine::aspects_wf(m@) && m@.len() >= 1),
            (r matches Err(e) ==> (e matches ScriptError::Compilation(f, _) && f@ == path@) || e
                is InvalidAspectDeclaration),
            (parse_stmts(code@) is None ==> r is Err),
            ((r matches Err(e) && e is InvalidAspectDeclaration) <==> (parse_stmts(code@)
                matches Some(st) && no_aspect_decl(st))),
    {
        let m = match parse_module(code, path) {
            Ok(m) => m,
            Err(d) => {
                return Err(ScriptError::Compilation(String::from_str(path), d));
            },
        };
        self.compile_module_aspects(&m, code, path)
    }

    /// Invoke a compiled script during query evaluation.  A context token
    /// is issued for the duration of the call and revoked before
    /// returning, whatever the outcome.  Node arguments cross as marker
    /// dictionaries carrying a handle into a per-call node table, under the
    /// reserved key `__sylva_node__`; a result of exactly that shape (a
    /// one-pair dictionary from the reserved key to an in-range integer)
    /// comes back as the node it designates, so plain dictionary results
    /// must avoid the reserved key.  A plain argument holding a `Scope`
    /// fails with `UnsupportedType("scope")`; errors are confined to
    /// `RuntimeError` and `UnsupportedType` as for `eval`, and a plain
    /// result lies in the guest-to-host conversion's image.
    pub fn eval_in_query(
        &self,
        script: &PythonScript,
        args: Vec<ScriptQueryValue>,
        ctx: &mut EvalCtxRegistry,
    ) -> (r: Result<ScriptQueryValue, ScriptError>)
        requires
            old(ctx).wf(),
            old(ctx).live_token() is None,
            old(ctx).next_token() < u64::MAX,
            args@.len() <= 9223372036854775807,
        ensures
            final(ctx).wf(),
            final(ctx).live_token() is None,
            final(ctx).next_token() == old(ctx).next_token() + 1,
            ((exists|i: int|
                0 <= i < args@.len() && (#[trigger] args@[i] matches ScriptQueryValue::Simple(v)
                    && spec_to_native(view_value(v)) is None)) ==> (r matches Err(e) && e matches
                ScriptError::UnsupportedType(d) && d@ == "scope"@)),
            (r matches Err(e) ==> (e is RuntimeError || e is UnsupportedType)),
            (r matches Ok(qv) ==> (qv matches ScriptQueryValue::Simple(v) ==> (exists|
                nv: PyNativeV,
            |
                spec_from_native(nv) == FromNative::Val(view_value(v))))),
    {
        let _token = ctx.issue();
        let mut table: Vec<SylvaNode> = Vec::new();
        let mut natives: Vec<PyNative> = Vec::new();
        let mut j: usize = 0;
        while j < args.len()
            invariant
                ctx.wf(),
                ctx.next_token() == old(ctx).next_token() + 1,
                0 <= j <= args@.len(),
                args@.len() <= 9223372036854775807,
                table@.len() <= j,
                forall|i: int|
                    0 <= i < j ==> (#[trigger] args@[i] matches ScriptQueryValue::Simple(v)
                        ==> spec_to_native(view_value(v)) is Some),
            decreases args@.len() - j,
        {
            match &args[j] {
                ScriptQueryValue::Simple(v) => {
                    match value_to_native(v) {
                        Ok(converted) => {
                            natives.push(converted);
                        },
                        Err(e) => {
                            ctx.revoke();
                            return Err(e);
                        },
                    }
                },
                ScriptQueryValue::Node(nd) => {
                    let h: i64 = table.len() as i64;
                    table.push(*nd);
                    let mut marker: Vec<(PyNative, PyNative)> = Vec::new();
                    marker.push(
                        (PyNative::Str(String::from_str("__sylva_node__")), PyNative::Int(h)),
                    );
                    natives.push(PyNative::Dict(marker));
                },
            }
            j = j + 1;
        }
        match enter_eval(&self.interpreter, &script.invokable, natives) {
            EvalOutcome::Value(res) => {
                match native_to_value(&res) {
                    Ok(v) => {
                        proof {
                            assert(spec_from_native(view_native(res)) == FromNative::Val(
                                view_value(v),
                            ));
                        }
                        ctx.revoke();
                        Ok(query_value_from_result(v, &table))
                    },
                    Err(e) => {
                        ctx.revoke();
                        Err(e)
                    },
                }
            },
            EvalOutcome::Raised(d) => {
                ctx.revoke();
                Err(ScriptError::RuntimeError(d))
            },
        }
    }
}

impl crate::engine::ScriptEngine for PythonScriptEngine {
    type Script = PythonScript;

    fn eval(&self, script: &PythonScript, args: Vec<ScriptValue>) -> Result<
        ScriptValue,
        ScriptError,
    > {
        PythonScriptEngine::eval(self, script, args)
    }

    fn eval_in_query(
        &self,
        script: &PythonScript,
        args: Vec<ScriptQueryValue>,
        ctx: &mut EvalCtxRegistry,
    ) -> Result<ScriptQueryValue, ScriptError> {
        PythonScriptEngine::eval_in_query(self, script, args, ctx)
    }

    fn compile_function(&self, script: &str, file_name: &str, fun_name: &str) -> Result<
        PythonScript,
        ScriptError,
    > {
        PythonScriptEngine::compile_function(self, script, file_name, fun_name)
    }

    fn compile_aspects(&self, script: &str, file_name: &str) -> Result<
        Vec<(String, Vec<(String, PythonScript)>)>,
        ScriptError,
    > {
        PythonScriptEngine::compile_aspects(self, script, file_name)
    }
}

} // verus!
