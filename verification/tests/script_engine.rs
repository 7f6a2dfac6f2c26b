use rustpython_vm::Interpreter;
use sylver_script::ctx::ScriptEvalCtx;
use sylver_script::dict::dict_from_pairs;
use sylver_script::error::ScriptError;
use sylver_script::python::{PythonScriptCompiler, PythonScriptEngine};
use sylver_script::value::{SGraphRef, ScopeId, ScriptValue};

fn eval_python_expr(expr: &str) -> ScriptValue {
    let engine = PythonScriptEngine::new();
    let src = format!("def f():\n    return {}\n", expr);
    let script = engine.compile_function(&src, "test.py", "f").unwrap();
    engine.eval(&script, vec![]).unwrap()
}

#[test]
fn script_from_fun() {
    let python_module = r#"
def value():
    return 42

def hello(n: int):
    return value() + n
"#;

    let interpreter = Interpreter::without_stdlib(Default::default());
    let compiler = PythonScriptCompiler::new(&interpreter);

    let script = compiler
        .compile_function(python_module, "test.py", "hello")
        .unwrap();

    let engine = PythonScriptEngine::from_interpreter(interpreter);

    let value = engine
        .eval(&script, vec![ScriptValue::Integer(10)])
        .unwrap();

    assert_eq!(value, ScriptValue::Integer(52));
}

#[test]
fn python_int_to_int() {
    assert_eq!(ScriptValue::Integer(42), eval_python_expr("42"));
}

#[test]
fn python_str_to_str() {
    assert_eq!(
        ScriptValue::Str("hello".to_string()),
        eval_python_expr("'hello'")
    );
}

#[test]
fn python_dict_to_dict() {
    let expected = dict_from_pairs(vec![
        ("a".to_string(), ScriptValue::Integer(1)),
        ("b".to_string(), ScriptValue::Str("hello".to_string())),
        (
            "c".to_string(),
            dict_from_pairs(vec![("d".to_string(), ScriptValue::Integer(2))]),
        ),
    ]);

    assert_eq!(
        expected,
        eval_python_expr("{'a': 1, 'b': 'hello', 'c': {'d': 2}}")
    );
}

#[test]
fn increment_function() {
    let engine = PythonScriptEngine::new();
    let script = engine
        .compile_function("def f(n): return n + 1\n", "inc.py", "f")
        .unwrap();
    let value = engine.eval(&script, vec![ScriptValue::Integer(5)]).unwrap();
    assert_eq!(value, ScriptValue::Integer(6));
}

#[test]
fn missing_function_is_compilation_error() {
    let engine = PythonScriptEngine::new();
    let err = engine
        .compile_function("def f(n): return n + 1\n", "test.py", "nope")
        .unwrap_err();
    match err {
        ScriptError::Compilation(file, detail) => {
            assert_eq!(file, "test.py");
            assert_eq!(detail, "Function nope not found");
        }
        other => panic!("expected a compilation error, got {:?}", other),
    }
}

#[test]
fn empty_script_is_compilation_error() {
    let engine = PythonScriptEngine::new();
    let err = engine
        .compile_function("", "empty.py", "f")
        .unwrap_err();
    match err {
        ScriptError::Compilation(file, detail) => {
            assert_eq!(file, "empty.py");
            assert_eq!(detail, "Empty script");
        }
        other => panic!("expected a compilation error, got {:?}", other),
    }
}

#[test]
fn parse_error_is_compilation_error() {
    let engine = PythonScriptEngine::new();
    let err = engine
        .compile_function("def f(:\n", "bad.py", "f")
        .unwrap_err();
    assert!(matches!(err, ScriptError::Compilation(file, _) if file == "bad.py"));
}

#[test]
fn raising_script_is_runtime_error() {
    let engine = PythonScriptEngine::new();
    let script = engine
        .compile_function("def f():\n    return 1 // 0\n", "boom.py", "f")
        .unwrap();
    let err = engine.eval(&script, vec![]).unwrap_err();
    match err {
        ScriptError::RuntimeError(detail) => {
            assert!(detail.starts_with("ZeroDivisionError"));
        }
        other => panic!("expected a runtime error, got {:?}", other),
    }
    // the engine stays usable after a failed invocation
    let value = engine.eval(&script, vec![]).unwrap_err();
    assert!(matches!(value, ScriptError::RuntimeError(_)));
    let fine = engine
        .compile_function("def g():\n    return 7\n", "ok.py", "g")
        .unwrap();
    assert_eq!(engine.eval(&fine, vec![]).unwrap(), ScriptValue::Integer(7));
}

#[test]
fn big_int_result_is_unsupported() {
    let err = {
        let engine = PythonScriptEngine::new();
        let script = engine
            .compile_function("def f():\n    return 2 ** 100\n", "big.py", "f")
            .unwrap();
        engine.eval(&script, vec![]).unwrap_err()
    };
    assert!(matches!(err, ScriptError::UnsupportedType(d) if d == "big_int"));
}

#[test]
fn list_result_is_unsupported() {
    let engine = PythonScriptEngine::new();
    let script = engine
        .compile_function("def f():\n    return [1, 2]\n", "list.py", "f")
        .unwrap();
    let err = engine.eval(&script, vec![]).unwrap_err();
    assert!(matches!(err, ScriptError::UnsupportedType(d) if d == "list"));
}

#[test]
fn bool_and_list_arguments_cross_the_boundary() {
    let engine = PythonScriptEngine::new();
    let script = engine
        .compile_function(
            "def f(b, xs):\n    return len(xs) + 1 if b else len(xs)\n",
            "args.py",
            "f",
        )
        .unwrap();
    let value = engine
        .eval(
            &script,
            vec![
                ScriptValue::Bool(true),
                ScriptValue::List(vec![ScriptValue::Integer(1), ScriptValue::Integer(2)]),
            ],
        )
        .unwrap();
    assert_eq!(value, ScriptValue::Integer(3));
}

#[test]
fn dict_argument_round_trips() {
    let engine = PythonScriptEngine::new();
    let script = engine
        .compile_function("def f(d):\n    return d\n", "id.py", "f")
        .unwrap();
    let arg = dict_from_pairs(vec![
        ("x".to_string(), ScriptValue::Integer(1)),
        ("y".to_string(), ScriptValue::Str("s".to_string())),
    ]);
    let arg_again = dict_from_pairs(vec![
        ("y".to_string(), ScriptValue::Str("s".to_string())),
        ("x".to_string(), ScriptValue::Integer(1)),
    ]);
    let value = engine.eval(&script, vec![arg]).unwrap();
    assert_eq!(value, arg_again);
}

#[test]
fn scope_argument_is_unsupported() {
    let engine = PythonScriptEngine::new();
    let script = engine
        .compile_function("def f(x):\n    return 1\n", "scope.py", "f")
        .unwrap();
    let arg = ScriptValue::Scope(
        ScopeId(5),
        SGraphRef { graph: 1 },
        ScriptEvalCtx { token: 0 },
    );
    let err = engine.eval(&script, vec![arg]).unwrap_err();
    assert!(matches!(err, ScriptError::UnsupportedType(d) if d == "scope"));
}

#[test]
fn guest_booleans_read_back_as_integers() {
    assert_eq!(ScriptValue::Integer(1), eval_python_expr("True"));
    assert_eq!(ScriptValue::Integer(0), eval_python_expr("False"));
}
