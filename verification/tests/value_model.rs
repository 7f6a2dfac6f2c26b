use sylver_script::ctx::{EvalCtxRegistry, ScriptEvalCtx};
use sylver_script::dict::dict_from_pairs;
use sylver_script::error::ScriptError;
use sylver_script::strord::str_compare;
use sylver_script::value::{SGraphRef, ScopeId, ScriptQueryValue, ScriptValue, SylvaNode};

fn scope(id: u64, graph: u64, token: u64) -> ScriptValue {
    ScriptValue::Scope(
        ScopeId(id),
        SGraphRef { graph },
        ScriptEvalCtx { token },
    )
}

#[test]
fn scope_equality_ignores_graph_and_context() {
    let a = scope(3, 10, 100);
    let b = scope(3, 99, 777);
    assert_eq!(a, b);
    let c = scope(4, 10, 100);
    assert!(a != c);
}

#[test]
fn dicts_built_in_different_orders_compare_equal() {
    let d1 = dict_from_pairs(vec![
        ("alpha".to_string(), ScriptValue::Integer(1)),
        ("beta".to_string(), ScriptValue::Integer(2)),
        ("gamma".to_string(), ScriptValue::Str("g".to_string())),
    ]);
    let d2 = dict_from_pairs(vec![
        ("gamma".to_string(), ScriptValue::Str("g".to_string())),
        ("alpha".to_string(), ScriptValue::Integer(1)),
        ("beta".to_string(), ScriptValue::Integer(2)),
    ]);
    assert_eq!(d1, d2);
}

#[test]
fn dict_insert_replaces_on_equal_key() {
    let d1 = dict_from_pairs(vec![
        ("k".to_string(), ScriptValue::Integer(1)),
        ("k".to_string(), ScriptValue::Integer(2)),
    ]);
    let d2 = dict_from_pairs(vec![("k".to_string(), ScriptValue::Integer(2))]);
    assert_eq!(d1, d2);
}

#[test]
fn narrowing_to_wrong_case_is_invalid_type() {
    let err = ScriptValue::Integer(1).try_into_bool().unwrap_err();
    match err {
        ScriptError::InvalidType(kind, value) => {
            assert_eq!(kind, "bool");
            assert_eq!(value, ScriptValue::Integer(1));
        }
        other => panic!("expected an invalid-type error, got {:?}", other),
    }
    assert!(matches!(
        ScriptValue::Bool(true).try_into_integer(),
        Err(ScriptError::InvalidType(k, _)) if k == "integer"
    ));
    assert!(matches!(
        ScriptValue::Integer(1).try_into_str(),
        Err(ScriptError::InvalidType(k, _)) if k == "string"
    ));
    assert!(matches!(
        ScriptValue::Integer(1).try_into_dict(),
        Err(ScriptError::InvalidType(k, _)) if k == "dict"
    ));
    assert!(matches!(
        ScriptValue::Integer(1).try_into_list(),
        Err(ScriptError::InvalidType(k, _)) if k == "list"
    ));
}

#[test]
fn narrowing_to_right_case_succeeds() {
    assert_eq!(ScriptValue::Bool(true).try_into_bool().unwrap(), true);
    assert_eq!(ScriptValue::Integer(9).try_into_integer().unwrap(), 9);
    assert_eq!(
        ScriptValue::Str("s".to_string()).try_into_str().unwrap(),
        "s".to_string()
    );
    let items = ScriptValue::List(vec![ScriptValue::Integer(1)])
        .try_into_list()
        .unwrap();
    assert_eq!(items.len(), 1);
}

#[test]
fn string_comparison_is_lexicographic() {
    assert_eq!(str_compare("abc", "abd"), -1);
    assert_eq!(str_compare("abd", "abc"), 1);
    assert_eq!(str_compare("abc", "abc"), 0);
    assert_eq!(str_compare("ab", "abc"), -1);
    assert_eq!(str_compare("abc", "ab"), 1);
    assert_eq!(str_compare("", ""), 0);
    assert_eq!(str_compare("", "a"), -1);
}

#[test]
fn context_tokens_are_revoked_and_never_reused() {
    let mut reg = EvalCtxRegistry::new();
    let t1 = reg.issue();
    assert!(reg.check(&t1));
    reg.revoke();
    assert!(!reg.check(&t1));
    let t2 = reg.issue();
    assert!(reg.check(&t2));
    assert!(!reg.check(&t1));
    assert!(t1.token != t2.token);
    reg.revoke();
}

#[test]
fn from_conversions_pick_the_matching_shape() {
    assert_eq!(ScriptValue::from(true), ScriptValue::Bool(true));
    assert_eq!(ScriptValue::from(7i64), ScriptValue::Integer(7));
    assert_eq!(
        ScriptValue::from("s".to_string()),
        ScriptValue::Str("s".to_string())
    );
    assert_eq!(
        ScriptValue::from(vec![ScriptValue::Integer(1)]),
        ScriptValue::List(vec![ScriptValue::Integer(1)])
    );
    let node = SylvaNode {
        sylva: 1,
        tree: 1,
        node: 1,
    };
    assert!(matches!(
        ScriptQueryValue::from(node),
        ScriptQueryValue::Node(n) if n == node
    ));
    assert!(matches!(
        ScriptQueryValue::from(ScriptValue::Integer(3)),
        ScriptQueryValue::Simple(v) if v == ScriptValue::Integer(3)
    ));
}

#[test]
fn clone_preserves_the_value() {
    let d = dict_from_pairs(vec![
        ("k".to_string(), ScriptValue::Integer(1)),
        (
            "l".to_string(),
            ScriptValue::List(vec![ScriptValue::Str("x".to_string())]),
        ),
    ]);
    let copy = d.clone();
    assert_eq!(copy, d);

    let s = scope(7, 1, 2);
    assert_eq!(s.clone(), s);

    let e = ScriptError::InvalidType("bool".to_string(), ScriptValue::Integer(3));
    assert_eq!(e.clone(), e);
}

#[test]
fn query_values_compare_by_value() {
    let node = SylvaNode {
        sylva: 1,
        tree: 2,
        node: 3,
    };
    assert_eq!(ScriptQueryValue::Node(node), ScriptQueryValue::Node(node));
    assert!(
        ScriptQueryValue::Node(node) != ScriptQueryValue::Simple(ScriptValue::Integer(1))
    );
    assert_eq!(
        ScriptQueryValue::Simple(scope(4, 0, 0)),
        ScriptQueryValue::Simple(scope(4, 9, 9))
    );
}
