//! Marshalling between the host value model and the guest runtime's native
//! objects.
//!
//! The decisions of the marshalling layer — which shapes cross the boundary,
//! in which order dictionary pairs are taken, and which crossings fail with
//! `UnsupportedType` — are verified here over `PyNative`, an exact model of
//! the guest values the boundary understands.  Only the final step that
//! turns a `PyNative` into a live interpreter object (and back) is trusted.

use crate::dict::{dict_insert, lemma_insert_at, spec_dict_insert};
use crate::error::ScriptError;
use crate::strord::lex_lt;
use crate::value::{
    lemma_view_pairs, sorted_keys, view_pairs, view_value, wf_val, ScriptVal, ScriptValue,
};
use vstd::prelude::*;
use vstd::string::*;

verus! {

/// Mathematical shape of a guest native value at the boundary.
pub enum PyNativeV {
    Int(int),
    Big,
    Bool(bool),
    Str(Seq<char>),
    List(Seq<PyNativeV>),
    Dict(Seq<(PyNativeV, PyNativeV)>),
    Other(Seq<char>),
}

/// Model of a guest native value: integers that fit 64 signed bits, big
/// integers, booleans, strings, lists, dictionaries in insertion order, and
/// any other object reduced to its runtime class name.
#[derive(Debug)]
pub enum PyNative {
    Int(i64),
    Big,
    Bool(bool),
    Str(String),
    List(Vec<PyNative>),
    Dict(Vec<(PyNative, PyNative)>),
    Other(String),
}

pub open spec fn view_native_pairs(s: Seq<(PyNative, PyNative)>) -> Seq<(PyNativeV, PyNativeV)>
    decreases s,
{
    if s.len() == 0 {
        Seq::empty()
    } else {
        seq![(view_native(s[0].0), view_native(s[0].1))] + view_native_pairs(s.skip(1))
    }
}

pub open spec fn view_native_items(s: Seq<PyNative>) -> Seq<PyNativeV>
    decreases s,
{
    if s.len() == 0 {
        Seq::empty()
    } else {
        seq![view_native(s[0])] + view_native_items(s.skip(1))
    }
}

pub open spec fn view_native(n: PyNative) -> PyNativeV
    decreases n,
{
    match n {
        PyNative::Int(i) => PyNativeV::Int(i as int),
        PyNative::Big => PyNativeV::Big,
        PyNative::Bool(b) => PyNativeV::Bool(b),
        PyNative::Str(s) => PyNativeV::Str(s@),
        PyNative::List(items) => PyNativeV::List(view_native_items(items@)),
        PyNative::Dict(pairs) => PyNativeV::Dict(view_native_pairs(pairs@)),
        PyNative::Other(c) => PyNativeV::Other(c@),
    }
}

impl View for PyNative {
    type V = PyNativeV;

    open spec fn view(&self) -> PyNativeV {
        view_native(*self)
    }
}

pub proof fn lemma_view_native_pairs(s: Seq<(PyNative, PyNative)>)
    ensures
        view_native_pairs(s).len() == s.len(),
        forall|i: int|
            0 <= i < s.len() ==> view_native_pairs(s)[i] == (
                view_native(s[i].0),
                view_native(s[i].1),
            ),
    decreases s,
{
    if s.len() > 0 {
        lemma_view_native_pairs(s.skip(1));
        assert forall|i: int|
            0 <= i < s.len() implies view_native_pairs(s)[i] == (
            view_native(s[i].0),
            view_native(s[i].1),
        ) by {
            if i > 0 {
                assert(view_native_pairs(s)[i] == view_native_pairs(s.skip(1))[i - 1]);
                assert(s.skip(1)[i - 1] == s[i]);
            }
        }
    }
}

pub proof fn lemma_view_native_items(s: Seq<PyNative>)
    ensures
        view_native_items(s).len() == s.len(),
        forall|i: int| 0 <= i < s.len() ==> view_native_items(s)[i] == view_native(s[i]),
    decreases s,
{
    if s.len() > 0 {
        lemma_view_native_items(s.skip(1));
        assert forall|i: int|
            0 <= i < s.len() implies view_native_items(s)[i] == view_native(s[i]) by {
            if i > 0 {
                assert(view_native_items(s)[i] == view_native_items(s.skip(1))[i - 1]);
                assert(s.skip(1)[i - 1] == s[i]);
            }
        }
    }
}

/// Host to guest, on shapes: `None` exactly when the value contains a
/// `Scope`, which has no guest representation.
pub open spec fn spec_to_native(v: ScriptVal) -> Option<PyNativeV>
    decreases v,
{
    match v {
        ScriptVal::Bool(b) => Some(PyNativeV::Bool(b)),
        ScriptVal::Int(i) => Some(PyNativeV::Int(i)),
        ScriptVal::Str(s) => Some(PyNativeV::Str(s)),
        ScriptVal::Dict(pairs) => match spec_pairs_to_native(pairs) {
            Some(ps) => Some(PyNativeV::Dict(ps)),
            None => None,
        },
        ScriptVal::List(items) => match spec_items_to_native(items) {
            Some(ns) => Some(PyNativeV::List(ns)),
            None => None,
        },
        ScriptVal::Scope(_) => None,
    }
}

/// Dictionary pairs cross in host key order, each key as a guest string.
pub open spec fn spec_pairs_to_native(s: Seq<(Seq<char>, ScriptVal)>) -> Option<
    Seq<(PyNativeV, PyNativeV)>,
>
    decreases s,
{
    if s.len() == 0 {
        Some(Seq::empty())
    } else {
        match (spec_to_native(s[0].1), spec_pairs_to_native(s.skip(1))) {
            (Some(n), Some(rest)) => Some(seq![(PyNativeV::Str(s[0].0), n)] + rest),
            _ => None,
        }
    }
}

pub open spec fn spec_items_to_native(s: Seq<ScriptVal>) -> Option<Seq<PyNativeV>>
    decreases s,
{
    if s.len() == 0 {
        Some(Seq::empty())
    } else {
        match (spec_to_native(s[0]), spec_items_to_native(s.skip(1))) {
            (Some(n), Some(rest)) => Some(seq![n] + rest),
            _ => None,
        }
    }
}

/// Outcome of reading a guest value back into the host model.
pub enum FromNative {
    Val(ScriptVal),
    Fail(Seq<char>),
}

/// Short class label of a guest value, used in `DictKey(...)` details.
pub open spec fn class_label(n: PyNativeV) -> Seq<char> {
    match n {
        PyNativeV::Int(_) => "int"@,
        PyNativeV::Big => "int"@,
        PyNativeV::Bool(_) => "bool"@,
        PyNativeV::Str(_) => "str"@,
        PyNativeV::List(_) => "list"@,
        PyNativeV::Dict(_) => "dict"@,
        PyNativeV::Other(c) => c,
    }
}

/// Guest to host: native integers that fit 64 signed bits, strings, and
/// dictionaries whose keys are all strings; everything else fails with the
/// name of the offending type.  Dictionary pairs are folded in guest
/// iteration order into the canonical host dictionary.
pub open spec fn spec_from_native(n: PyNativeV) -> FromNative
    decreases n, 0int,
{
    match n {
        PyNativeV::Int(i) => FromNative::Val(ScriptVal::Int(i)),
        PyNativeV::Big => FromNative::Fail("big_int"@),
        PyNativeV::Bool(b) => FromNative::Val(ScriptVal::Bool(b)),
        PyNativeV::Str(s) => FromNative::Val(ScriptVal::Str(s)),
        PyNativeV::List(_) => FromNative::Fail("list"@),
        PyNativeV::Dict(pairs) => spec_from_dict(pairs, Seq::empty()),
        PyNativeV::Other(c) => FromNative::Fail(c),
    }
}

pub open spec fn spec_from_dict(
    pairs: Seq<(PyNativeV, PyNativeV)>,
    acc: Seq<(Seq<char>, ScriptVal)>,
) -> FromNative
    decreases pairs, pairs.len(),
{
    if pairs.len() == 0 {
        FromNative::Val(ScriptVal::Dict(acc))
    } else {
        match pairs[0].0 {
            PyNativeV::Str(k) => match spec_from_native(pairs[0].1) {
                FromNative::Val(v) => spec_from_dict(pairs.skip(1), spec_dict_insert(acc, k, v)),
                FromNative::Fail(d) => FromNative::Fail(d),
            },
            _ => FromNative::Fail("DictKey("@ + class_label(pairs[0].0) + ")"@),
        }
    }
}

/// Marshal the values of dictionary pairs into the guest model, keys in
/// host key order.
pub fn pairs_to_native(pairs: &Vec<(String, ScriptValue)>) -> (r: Result<
    Vec<(PyNative, PyNative)>,
    ScriptError,
>)
    ensures
        (r matches Ok(out) ==> spec_pairs_to_native(view_pairs(pairs@)) == Some(
            view_native_pairs(out@),
        )),
        (r is Ok <==> spec_pairs_to_native(view_pairs(pairs@)) is Some),
        (r matches Err(e) ==> e matches ScriptError::UnsupportedType(d) && d@ == "scope"@),
    decreases pairs@,
{
    proof {
        lemma_view_pairs(pairs@);
    }
    let mut out: Vec<(PyNative, PyNative)> = Vec::new();
    let mut j: usize = 0;
    while j < pairs.len()
        invariant
            0 <= j <= pairs@.len(),
            view_pairs(pairs@).len() == pairs@.len(),
            forall|i: int|
                0 <= i < pairs@.len() ==> view_pairs(pairs@)[i] == (
                    pairs@[i].0@,
                    view_value(pairs@[i].1),
                ),
            out@.len() == j,
            forall|i: int| 0 <= i < j ==> spec_to_native(view_value(pairs@[i].1)) is Some,
            forall|i: int|
                0 <= i < j ==> (view_native(out@[i].0), view_native(out@[i].1)) == (
                    PyNativeV::Str(pairs@[i].0@),
                    spec_to_native(view_value(pairs@[i].1)).unwrap(),
                ),
        decreases pairs@.len() - j,
    {
        let key: String = pairs[j].0.clone();
        match value_to_native(&pairs[j].1) {
            Ok(n) => {
                out.push((PyNative::Str(key), n));
            },
            Err(e) => {
                proof {
                    lemma_pairs_to_native_fail(view_pairs(pairs@), j as int);
                }
                return Err(e);
            },
        }
        j = j + 1;
    }
    proof {
        lemma_view_native_pairs(out@);
        lemma_pairs_to_native_ok(view_pairs(pairs@), view_native_pairs(out@));
    }
    Ok(out)
}

/// Marshal list items into the guest model, in order.
pub fn items_to_native(items: &Vec<ScriptValue>) -> (r: Result<Vec<PyNative>, ScriptError>)
    ensures
        (r matches Ok(out) ==> spec_items_to_native(crate::value::view_items(items@)) == Some(
            view_native_items(out@),
        )),
        (r is Ok <==> spec_items_to_native(crate::value::view_items(items@)) is Some),
        (r matches Err(e) ==> e matches ScriptError::UnsupportedType(d) && d@ == "scope"@),
    decreases items@,
{
    proof {
        crate::value::lemma_view_items(items@);
    }
    let mut out: Vec<PyNative> = Vec::new();
    let mut j: usize = 0;
    while j < items.len()
        invariant
            0 <= j <= items@.len(),
            crate::value::view_items(items@).len() == items@.len(),
            forall|i: int|
                0 <= i < items@.len() ==> crate::value::view_items(items@)[i] == view_value(
                    items@[i],
                ),
            out@.len() == j,
            forall|i: int| 0 <= i < j ==> spec_to_native(view_value(items@[i])) is Some,
            forall|i: int|
                0 <= i < j ==> view_native(out@[i]) == spec_to_native(
                    view_value(items@[i]),
                ).unwrap(),
        decreases items@.len() - j,
    {
        match value_to_native(&items[j]) {
            Ok(n) => {
                out.push(n);
            },
            Err(e) => {
                proof {
                    lemma_items_to_native_fail(crate::value::view_items(items@), j as int);
                }
                return Err(e);
            },
        }
        j = j + 1;
    }
    proof {
        lemma_view_native_items(out@);
        lemma_items_to_native_ok(crate::value::view_items(items@), view_native_items(out@));
    }
    Ok(out)
}

/// Marshal a host value into the guest model.  Succeeds exactly when the
/// value contains no `Scope`; a `Scope` anywhere fails with
/// `UnsupportedType("scope")`.
pub fn value_to_native(v: &ScriptValue) -> (r: Result<PyNative, ScriptError>)
    ensures
        (r matches Ok(n) ==> spec_to_native(view_value(*v)) == Some(view_native(n))),
        (r is Ok <==> spec_to_native(view_value(*v)) is Some),
        (r matches Err(e) ==> e matches ScriptError::UnsupportedType(d) && d@ == "scope"@),
    decreases *v,
{
    match v {
        ScriptValue::Bool(b) => Ok(PyNative::Bool(*b)),
        ScriptValue::Integer(i) => Ok(PyNative::Int(*i)),
        ScriptValue::Str(s) => Ok(PyNative::Str(s.clone())),
        ScriptValue::Dict(pairs) => match pairs_to_native(pairs) {
            Ok(out) => Ok(PyNative::Dict(out)),
            Err(e) => Err(e),
        },
        ScriptValue::List(items) => match items_to_native(items) {
            Ok(out) => Ok(PyNative::List(out)),
            Err(e) => Err(e),
        },
        ScriptValue::Scope(_, _, _) => Err(
            ScriptError::UnsupportedType(String::from_str("scope")),
        ),
    }
}

/// If one value of a pair sequence has no guest shape, the sequence has
/// none.
proof fn lemma_pairs_to_native_fail(s: Seq<(Seq<char>, ScriptVal)>, j: int)
    requires
        0 <= j < s.len(),
        spec_to_native(s[j].1) is None,
    ensures
        spec_pairs_to_native(s) is None,
    decreases s,
{
    if j > 0 {
        assert(s.skip(1)[j - 1] == s[j]);
        lemma_pairs_to_native_fail(s.skip(1), j - 1);
    }
}

proof fn lemma_items_to_native_fail(s: Seq<ScriptVal>, j: int)
    requires
        0 <= j < s.len(),
        spec_to_native(s[j]) is None,
    ensures
        spec_items_to_native(s) is None,
    decreases s,
{
    if j > 0 {
        assert(s.skip(1)[j - 1] == s[j]);
        lemma_items_to_native_fail(s.skip(1), j - 1);
    }
}

/// A pointwise image of a pair sequence is its guest shape.
proof fn lemma_pairs_to_native_ok(s: Seq<(Seq<char>, ScriptVal)>, ps: Seq<(PyNativeV, PyNativeV)>)
    requires
        ps.len() == s.len(),
        forall|i: int| 0 <= i < s.len() ==> spec_to_native(#[trigger] s[i].1) is Some,
        forall|i: int|
            0 <= i < s.len() ==> #[trigger] ps[i] == (
                PyNativeV::Str(s[i].0),
                spec_to_native(s[i].1).unwrap(),
            ),
    ensures
        spec_pairs_to_native(s) == Some(ps),
    decreases s,
{
    if s.len() == 0 {
        assert(ps =~= Seq::<(PyNativeV, PyNativeV)>::empty());
    } else {
        assert forall|i: int| 0 <= i < s.skip(1).len() implies spec_to_native(
            #[trigger] s.skip(1)[i].1,
        ) is Some by {
            assert(s.skip(1)[i] == s[i + 1]);
        }
        assert forall|i: int| 0 <= i < s.skip(1).len() implies #[trigger] ps.skip(1)[i] == (
            PyNativeV::Str(s.skip(1)[i].0),
            spec_to_native(s.skip(1)[i].1).unwrap(),
        ) by {
            assert(s.skip(1)[i] == s[i + 1]);
            assert(ps.skip(1)[i] == ps[i + 1]);
        }
        lemma_pairs_to_native_ok(s.skip(1), ps.skip(1));
        assert(ps[0] == (PyNativeV::Str(s[0].0), spec_to_native(s[0].1).unwrap()));
        assert(ps =~= seq![(PyNativeV::Str(s[0].0), spec_to_native(s[0].1).unwrap())] + ps.skip(
            1,
        ));
    }
}

proof fn lemma_items_to_native_ok(s: Seq<ScriptVal>, ns: Seq<PyNativeV>)
    requires
        ns.len() == s.len(),
        forall|i: int| 0 <= i < s.len() ==> spec_to_native(#[trigger] s[i]) is Some,
        forall|i: int|
            0 <= i < s.len() ==> #[trigger] ns[i] == spec_to_native(s[i]).unwrap(),
    ensures
        spec_items_to_native(s) == Some(ns),
    decreases s,
{
    if s.len() == 0 {
        assert(ns =~= Seq::<PyNativeV>::empty());
    } else {
        assert forall|i: int| 0 <= i < s.skip(1).len() implies spec_to_native(
            #[trigger] s.skip(1)[i],
        ) is Some by {
            assert(s.skip(1)[i] == s[i + 1]);
        }
        assert forall|i: int| 0 <= i < s.skip(1).len() implies #[trigger] ns.skip(1)[i]
            == spec_to_native(s.skip(1)[i]).unwrap() by {
            assert(s.skip(1)[i] == s[i + 1]);
            assert(ns.skip(1)[i] == ns[i + 1]);
        }
        lemma_items_to_native_ok(s.skip(1), ns.skip(1));
        assert(ns[0] == spec_to_native(s[0]).unwrap());
        assert(ns =~= seq![spec_to_native(s[0]).unwrap()] + ns.skip(1));
    }
}

/// Fold the pairs of a guest dictionary back into a canonical host
/// dictionary, guest iteration order, last occurrence of a key winning.
pub fn native_dict_to_value(pairs: &Vec<(PyNative, PyNative)>) -> (r: Result<
    ScriptValue,
    ScriptError,
>)
    ensures
        (match spec_from_dict(view_native_pairs(pairs@), Seq::empty()) {
            FromNative::Val(v) => r matches Ok(rv) && view_value(rv) == v,
            FromNative::Fail(d) => r matches Err(e) && e matches ScriptError::UnsupportedType(dd)
                && dd@ == d,
        }),
    decreases pairs@,
{
    let ghost ps0 = view_native_pairs(pairs@);
    proof {
        lemma_view_native_pairs(pairs@);
    }
    let mut acc: Vec<(String, ScriptValue)> = Vec::new();
    let mut j: usize = 0;
    proof {
        assert(view_pairs(acc@) =~= Seq::<(Seq<char>, ScriptVal)>::empty());
        assert(ps0.skip(0) =~= ps0);
    }
    while j < pairs.len()
        invariant
            0 <= j <= pairs@.len(),
            ps0 == view_native_pairs(pairs@),
            ps0.len() == pairs@.len(),
            forall|i: int|
                0 <= i < pairs@.len() ==> ps0[i] == (
                    view_native(pairs@[i].0),
                    view_native(pairs@[i].1),
                ),
            spec_from_dict(ps0.skip(j as int), view_pairs(acc@)) == spec_from_dict(
                ps0,
                Seq::empty(),
            ),
        decreases pairs@.len() - j,
    {
        proof {
            assert(ps0.skip(j as int)[0] == ps0[j as int]);
            assert(ps0.skip(j as int).skip(1) =~= ps0.skip(j as int + 1));
        }
        let key: String = match &pairs[j].0 {
            PyNative::Str(k) => k.clone(),
            other => {
                let label: String = match other {
                    PyNative::Int(_) => String::from_str("int"),
                    PyNative::Big => String::from_str("int"),
                    PyNative::Bool(_) => String::from_str("bool"),
                    PyNative::Str(_) => String::from_str("str"),
                    PyNative::List(_) => String::from_str("list"),
                    PyNative::Dict(_) => String::from_str("dict"),
                    PyNative::Other(c) => c.clone(),
                };
                let detail: String = String::from_str("DictKey(").concat(label.as_str()).concat(
                    ")",
                );
                return Err(ScriptError::UnsupportedType(detail));
            },
        };
        match native_to_value(&pairs[j].1) {
            Ok(v) => {
                dict_insert(&mut acc, key, v);
            },
            Err(e) => {
                return Err(e);
            },
        }
        j = j + 1;
    }
    proof {
        assert(ps0.skip(j as int) =~= Seq::<(PyNativeV, PyNativeV)>::empty());
    }
    Ok(ScriptValue::Dict(acc))
}

/// Read a guest value back into the host model, exactly as
/// `spec_from_native` describes: unsupported shapes fail with the name of
/// the offending type.
pub fn native_to_value(n: &PyNative) -> (r: Result<ScriptValue, ScriptError>)
    ensures
        (match spec_from_native(view_native(*n)) {
            FromNative::Val(v) => r matches Ok(rv) && view_value(rv) == v,
            FromNative::Fail(d) => r matches Err(e) && e matches ScriptError::UnsupportedType(dd)
                && dd@ == d,
        }),
    decreases *n,
{
    match n {
        PyNative::Int(i) => Ok(ScriptValue::Integer(*i)),
        PyNative::Big => Err(ScriptError::UnsupportedType(String::from_str("big_int"))),
        PyNative::Bool(b) => Ok(ScriptValue::Bool(*b)),
        PyNative::Str(s) => Ok(ScriptValue::Str(s.clone())),
        PyNative::List(_) => Err(ScriptError::UnsupportedType(String::from_str("list"))),
        PyNative::Other(c) => Err(ScriptError::UnsupportedType(c.clone())),
        PyNative::Dict(pairs) => native_dict_to_value(pairs),
    }
}


/// The host shapes whose guest crossing is total and reversible: `Integer`,
/// `Str`, and `Dict` of such values.
pub open spec fn marshallable(v: ScriptVal) -> bool
    decreases v,
{
    match v {
        ScriptVal::Int(_) => true,
        ScriptVal::Str(_) => true,
        ScriptVal::Dict(pairs) => forall|i: int|
            0 <= i < pairs.len() ==> marshallable(#[trigger] pairs[i].1),
        _ => false,
    }
}

/// Marshalling a well-formed `Integer`/`Str`/`Dict` value into the guest
/// model and reading it back yields the value unchanged.
pub proof fn lemma_marshal_round_trip(v: ScriptVal)
    requires
        marshallable(v),
        wf_val(v),
    ensures
        spec_to_native(v) is Some,
        spec_from_native(spec_to_native(v).unwrap()) == FromNative::Val(v),
    decreases v, 1int, 0int,
{
    match v {
        ScriptVal::Dict(pairs) => {
            lemma_round_trip_pairs(pairs);
            let ps = spec_pairs_to_native(pairs).unwrap();
            assert(spec_to_native(v) == Some(PyNativeV::Dict(ps)));
            lemma_round_trip_dict_fold(pairs, ps, 0);
            assert(ps.skip(0) =~= ps);
            assert(pairs.take(0) =~= Seq::<(Seq<char>, ScriptVal)>::empty());
        },
        _ => {},
    }
}

/// Pointwise guest image of sorted, marshallable dictionary pairs.
proof fn lemma_round_trip_pairs(pairs: Seq<(Seq<char>, ScriptVal)>)
    requires
        forall|i: int| 0 <= i < pairs.len() ==> marshallable(#[trigger] pairs[i].1),
        forall|i: int| 0 <= i < pairs.len() ==> wf_val(#[trigger] pairs[i].1),
    ensures
        spec_pairs_to_native(pairs) is Some,
        spec_pairs_to_native(pairs).unwrap().len() == pairs.len(),
        forall|i: int|
            0 <= i < pairs.len() ==> #[trigger] spec_pairs_to_native(pairs).unwrap()[i] == (
                PyNativeV::Str(pairs[i].0),
                spec_to_native(pairs[i].1).unwrap(),
            ),
        forall|i: int|
            0 <= i < pairs.len() ==> spec_to_native(#[trigger] pairs[i].1) is Some,
    decreases pairs, 0int, 0int,
{
    if pairs.len() > 0 {
        lemma_marshal_round_trip(pairs[0].1);
        assert forall|i: int| 0 <= i < pairs.skip(1).len() implies marshallable(
            #[trigger] pairs.skip(1)[i].1,
        ) && wf_val(pairs.skip(1)[i].1) by {
            assert(pairs.skip(1)[i] == pairs[i + 1]);
        }
        lemma_round_trip_pairs(pairs.skip(1));
        let ps = spec_pairs_to_native(pairs).unwrap();
        let pst = spec_pairs_to_native(pairs.skip(1)).unwrap();
        assert(ps == seq![(PyNativeV::Str(pairs[0].0), spec_to_native(pairs[0].1).unwrap())]
            + pst);
        assert forall|i: int| 0 <= i < pairs.len() implies #[trigger] ps[i] == (
            PyNativeV::Str(pairs[i].0),
            spec_to_native(pairs[i].1).unwrap(),
        ) by {
            if i > 0 {
                assert(ps[i] == pst[i - 1]);
                assert(pairs.skip(1)[i - 1] == pairs[i]);
            }
        }
        assert forall|i: int| 0 <= i < pairs.len() implies spec_to_native(
            #[trigger] pairs[i].1,
        ) is Some by {
            if i > 0 {
                assert(pairs.skip(1)[i - 1] == pairs[i]);
            }
        }
    }
}

/// Folding the guest images of sorted pairs back into a host dictionary,
/// having already rebuilt the first `i` pairs, rebuilds the whole
/// dictionary: each next key is larger than everything accumulated, so each
/// insertion appends.
proof fn lemma_round_trip_dict_fold(
    pairs: Seq<(Seq<char>, ScriptVal)>,
    ps: Seq<(PyNativeV, PyNativeV)>,
    i: int,
)
    requires
        sorted_keys(pairs),
        forall|k: int| 0 <= k < pairs.len() ==> marshallable(#[trigger] pairs[k].1),
        forall|k: int| 0 <= k < pairs.len() ==> wf_val(#[trigger] pairs[k].1),
        ps.len() == pairs.len(),
        forall|k: int|
            0 <= k < pairs.len() ==> #[trigger] ps[k] == (
                PyNativeV::Str(pairs[k].0),
                spec_to_native(pairs[k].1).unwrap(),
            ),
        forall|k: int| 0 <= k < pairs.len() ==> spec_to_native(#[trigger] pairs[k].1) is Some,
        0 <= i <= pairs.len(),
    ensures
        spec_from_dict(ps.skip(i), pairs.take(i)) == FromNative::Val(ScriptVal::Dict(pairs)),
    decreases pairs, 0int, pairs.len() - i,
{
    if i == pairs.len() {
        assert(ps.skip(i) =~= Seq::<(PyNativeV, PyNativeV)>::empty());
        assert(pairs.take(i) =~= pairs);
    } else {
        assert(ps.skip(i)[0] == ps[i]);
        lemma_marshal_round_trip(pairs[i].1);
        let vi = spec_from_native(spec_to_native(pairs[i].1).unwrap());
        assert(vi == FromNative::Val(pairs[i].1));
        // every accumulated key is smaller than the next key
        assert forall|k: int| 0 <= k < pairs.take(i).len() implies lex_lt(
            #[trigger] pairs.take(i)[k].0,
            pairs[i].0,
        ) by {
            assert(pairs.take(i)[k] == pairs[k]);
        }
        lemma_insert_at(pairs.take(i), pairs[i].0, pairs[i].1, i);
        assert(spec_dict_insert(pairs.take(i), pairs[i].0, pairs[i].1) == pairs.take(i).subrange(
            0,
            i,
        ) + seq![(pairs[i].0, pairs[i].1)] + pairs.take(i).subrange(i, i));
        assert(pairs.take(i).subrange(0, i) =~= pairs.take(i));
        assert(pairs[i] == (pairs[i].0, pairs[i].1));
        assert(spec_dict_insert(pairs.take(i), pairs[i].0, pairs[i].1) =~= pairs.take(i + 1));
        lemma_round_trip_dict_fold(pairs, ps, i + 1);
        assert(ps.skip(i).skip(1) =~= ps.skip(i + 1));
    }
}

} // verus!
