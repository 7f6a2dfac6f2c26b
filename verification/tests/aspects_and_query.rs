use sylver_script::aspects::split_aspect_name;
use sylver_script::ctx::EvalCtxRegistry;
use sylver_script::error::ScriptError;
use sylver_script::python::PythonScriptEngine;
use sylver_script::value::{ScriptQueryValue, ScriptValue, SylvaNode};

#[test]
fn split_aspect_name_cases() {
    assert_eq!(
        split_aspect_name("lint__check"),
        Some(("lint".to_string(), "check".to_string()))
    );
    assert_eq!(
        split_aspect_name("a__b__c"),
        Some(("a".to_string(), "b__c".to_string()))
    );
    assert_eq!(split_aspect_name("__rule"), None);
    assert_eq!(split_aspect_name("aspect__"), None);
    assert_eq!(split_aspect_name("plain"), None);
    assert_eq!(split_aspect_name(""), None);
}

#[test]
fn compile_aspects_groups_rules() {
    let src = r#"
def helper(n):
    return n * 2

def lint__short(n):
    return helper(n)

def lint__long(n):
    return n + 1

def style__spaces(n):
    return n
"#;
    let engine = PythonScriptEngine::new();
    let aspects = engine.compile_aspects(src, "rules.py").unwrap();
    assert_eq!(aspects.len(), 2);
    assert_eq!(aspects[0].0, "lint");
    assert_eq!(aspects[0].1.len(), 2);
    assert_eq!(aspects[0].1[0].0, "short");
    assert_eq!(aspects[0].1[1].0, "long");
    assert_eq!(aspects[1].0, "style");
    assert_eq!(aspects[1].1.len(), 1);
    assert_eq!(aspects[1].1[0].0, "spaces");

    let value = engine
        .eval(&aspects[0].1[0].1, vec![ScriptValue::Integer(21)])
        .unwrap();
    assert_eq!(value, ScriptValue::Integer(42));
}

#[test]
fn file_without_aspects_is_rejected() {
    let engine = PythonScriptEngine::new();
    let err = engine
        .compile_aspects("def helper(n):\n    return n\n", "rules.py")
        .unwrap_err();
    assert!(matches!(err, ScriptError::InvalidAspectDeclaration));
}

#[test]
fn aspect_file_with_parse_error_is_compilation_error() {
    let engine = PythonScriptEngine::new();
    let err = engine.compile_aspects("def (:\n", "rules.py").unwrap_err();
    assert!(matches!(err, ScriptError::Compilation(f, _) if f == "rules.py"));
}

#[test]
fn eval_in_query_passes_nodes_and_revokes_token() {
    let engine = PythonScriptEngine::new();
    let script = engine
        .compile_function("def f(n):\n    return n\n", "q.py", "f")
        .unwrap();
    let mut ctx = EvalCtxRegistry::new();
    let node = SylvaNode {
        sylva: 1,
        tree: 2,
        node: 3,
    };
    let result = engine
        .eval_in_query(&script, vec![ScriptQueryValue::Node(node)], &mut ctx)
        .unwrap();
    match result {
        ScriptQueryValue::Node(n) => {
            assert_eq!(n, node);
        }
        other => panic!("expected a node back, got {:?}", other),
    }
    assert!(ctx.check(&sylver_script::ctx::ScriptEvalCtx { token: 0 }) == false);
}

#[test]
fn eval_in_query_plain_values() {
    let engine = PythonScriptEngine::new();
    let script = engine
        .compile_function("def f(a, b):\n    return a + b\n", "q.py", "f")
        .unwrap();
    let mut ctx = EvalCtxRegistry::new();
    let result = engine
        .eval_in_query(
            &script,
            vec![
                ScriptQueryValue::Simple(ScriptValue::Integer(2)),
                ScriptQueryValue::Simple(ScriptValue::Integer(40)),
            ],
            &mut ctx,
        )
        .unwrap();
    match result {
        ScriptQueryValue::Simple(v) => {
            assert_eq!(v, ScriptValue::Integer(42));
        }
        other => panic!("expected a plain value, got {:?}", other),
    }
}

#[test]
fn compile_module_aspects_from_parsed_module() {
    let src = "def lint__short(n):\n    return n + 1\n";
    let module =
        rustpython_parser::parse(src, rustpython_parser::Mode::Interactive, "rules.py").unwrap();
    let engine = PythonScriptEngine::new();
    let aspects = engine
        .compile_module_aspects(&module, src, "rules.py")
        .unwrap();
    assert_eq!(aspects.len(), 1);
    assert_eq!(aspects[0].0, "lint");
    assert_eq!(aspects[0].1[0].0, "short");
    let value = engine
        .eval(&aspects[0].1[0].1, vec![ScriptValue::Integer(1)])
        .unwrap();
    assert_eq!(value, ScriptValue::Integer(2));
}

#[test]
fn duplicate_rule_declaration_keeps_one_entry() {
    let src = r#"
def lint__check(n):
    return 1

def lint__check(n):
    return 2
"#;
    let engine = PythonScriptEngine::new();
    let aspects = engine.compile_aspects(src, "rules.py").unwrap();
    assert_eq!(aspects.len(), 1);
    assert_eq!(aspects[0].1.len(), 1);
    let value = engine
        .eval(&aspects[0].1[0].1, vec![ScriptValue::Integer(0)])
        .unwrap();
    assert_eq!(value, ScriptValue::Integer(2));
}
