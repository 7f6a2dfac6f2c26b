//! The closed value model exchanged between the host analysis engine and the
//! embedded scripting runtime.
//!
//! A `ScriptValue` is one of a fixed set of shapes.  Dictionaries are kept in
//! canonical form: pairs sorted by strictly increasing key, so that
//! structural equality coincides with mapping equality.  `Scope` values
//! compare by scope identifier alone; the attached graph and context
//! references are deliberately excluded from equality.

use crate::ctx::ScriptEvalCtx;
use crate::error::ScriptError;
use crate::strord::lex_lt;
use vstd::prelude::*;
use vstd::string::*;

verus! {

/// Identifier of a lexical scope in the engine's scope graph.
#[derive(PartialEq, Eq, Structural, Clone, Copy, Debug)]
pub struct ScopeId(pub u64);

/// A reference to the scope graph built by name resolution.  The graph is
/// owned by the semantic component; values of this type only designate it.
#[derive(PartialEq, Eq, Structural, Clone, Copy, Debug)]
pub struct SGraphRef {
    pub graph: u64,
}

/// A reference to one node of a syntax tree owned by the query engine.
#[derive(PartialEq, Eq, Structural, Clone, Copy, Debug)]
pub struct SylvaNode {
    pub sylva: u64,
    pub tree: u64,
    pub node: u64,
}

/// A value or a direct syntax-tree node reference, as exchanged with
/// scripts during in-query evaluation.
#[derive(Debug)]
pub enum ScriptQueryValue {
    Simple(ScriptValue),
    Node(SylvaNode),
}

/// Mathematical shape of a `ScriptQueryValue`.
pub enum QueryVal {
    Simple(ScriptVal),
    Node(SylvaNode),
}

/// Mathematical shape of a `ScriptValue`.  `Scope` keeps only the scope
/// identifier: graph and context references do not take part in equality.
pub enum ScriptVal {
    Bool(bool),
    Int(int),
    Str(Seq<char>),
    Dict(Seq<(Seq<char>, ScriptVal)>),
    List(Seq<ScriptVal>),
    Scope(int),
}

/// A value exchangeable between host and script.
#[derive(Debug)]
pub enum ScriptValue {
    Bool(bool),
    Integer(i64),
    Str(String),
    Dict(Vec<(String, ScriptValue)>),
    List(Vec<ScriptValue>),
    Scope(ScopeId, SGraphRef, ScriptEvalCtx),
}

pub open spec fn view_pairs(s: Seq<(String, ScriptValue)>) -> Seq<(Seq<char>, ScriptVal)>
    decreases s,
{
    if s.len() == 0 {
        Seq::empty()
    } else {
        seq![(s[0].0@, view_value(s[0].1))] + view_pairs(s.skip(1))
    }
}

pub open spec fn view_items(s: Seq<ScriptValue>) -> Seq<ScriptVal>
    decreases s,
{
    if s.len() == 0 {
        Seq::empty()
    } else {
        seq![view_value(s[0])] + view_items(s.skip(1))
    }
}

pub open spec fn view_value(v: ScriptValue) -> ScriptVal
    decreases v,
{
    match v {
        ScriptValue::Bool(b) => ScriptVal::Bool(b),
        ScriptValue::Integer(i) => ScriptVal::Int(i as int),
        ScriptValue::Str(s) => ScriptVal::Str(s@),
        ScriptValue::Dict(pairs) => ScriptVal::Dict(view_pairs(pairs@)),
        ScriptValue::List(items) => ScriptVal::List(view_items(items@)),
        ScriptValue::Scope(id, _, _) => ScriptVal::Scope(id.0 as int),
    }
}

impl View for ScriptValue {
    type V = ScriptVal;

    open spec fn view(&self) -> ScriptVal {
        view_value(*self)
    }
}

/// Pointwise description of `view_pairs`.
pub proof fn lemma_view_pairs(s: Seq<(String, ScriptValue)>)
    ensures
        view_pairs(s).len() == s.len(),
        forall|i: int|
            0 <= i < s.len() ==> view_pairs(s)[i] == (s[i].0@, view_value(s[i].1)),
    decreases s,
{
    if s.len() > 0 {
        lemma_view_pairs(s.skip(1));
        assert forall|i: int|
            0 <= i < s.len() implies view_pairs(s)[i] == (s[i].0@, view_value(s[i].1)) by {
            if i > 0 {
                assert(view_pairs(s)[i] == view_pairs(s.skip(1))[i - 1]);
                assert(s.skip(1)[i - 1] == s[i]);
            }
        }
    }
}

/// Pointwise description of `view_items`.
pub proof fn lemma_view_items(s: Seq<ScriptValue>)
    ensures
        view_items(s).len() == s.len(),
        forall|i: int| 0 <= i < s.len() ==> view_items(s)[i] == view_value(s[i]),
    decreases s,
{
    if s.len() > 0 {
        lemma_view_items(s.skip(1));
        assert forall|i: int| 0 <= i < s.len() implies view_items(s)[i] == view_value(s[i]) by {
            if i > 0 {
                assert(view_items(s)[i] == view_items(s.skip(1))[i - 1]);
                assert(s.skip(1)[i - 1] == s[i]);
            }
        }
    }
}

/// Dictionary pairs are sorted by strictly increasing key.
pub open spec fn sorted_keys(pairs: Seq<(Seq<char>, ScriptVal)>) -> bool {
    forall|i: int, j: int| 0 <= i < j < pairs.len() ==> lex_lt(pairs[i].0, pairs[j].0)
}

/// Well-formedness: every dictionary in the value is in canonical order.
pub open spec fn wf_val(v: ScriptVal) -> bool
    decreases v,
{
    match v {
        ScriptVal::Dict(pairs) => sorted_keys(pairs) && (forall|i: int|
            0 <= i < pairs.len() ==> wf_val(#[trigger] pairs[i].1)),
        ScriptVal::List(items) => forall|i: int|
            0 <= i < items.len() ==> wf_val(#[trigger] items[i]),
        _ => true,
    }
}

/// Structural equality on dictionary pair vectors.
pub fn dict_pairs_eq(x: &Vec<(String, ScriptValue)>, y: &Vec<(String, ScriptValue)>) -> (r: bool)
    ensures
        r == (view_pairs(x@) == view_pairs(y@)),
    decreases x@,
{
    proof {
        lemma_view_pairs(x@);
        lemma_view_pairs(y@);
    }
    if x.len() != y.len() {
        return false;
    }
    let mut i: usize = 0;
    while i < x.len()
        invariant
            0 <= i <= x@.len(),
            x@.len() == y@.len(),
            view_pairs(x@).len() == x@.len(),
            view_pairs(y@).len() == y@.len(),
            forall|k: int|
                0 <= k < x@.len() ==> view_pairs(x@)[k] == (x@[k].0@, view_value(x@[k].1)),
            forall|k: int|
                0 <= k < y@.len() ==> view_pairs(y@)[k] == (y@[k].0@, view_value(y@[k].1)),
            forall|k: int| 0 <= k < i ==> view_pairs(x@)[k] == view_pairs(y@)[k],
        decreases x@.len() - i,
    {
        let keys_equal: bool = x[i].0 == y[i].0;
        if !keys_equal {
            proof {
                assert(view_pairs(x@)[i as int] != view_pairs(y@)[i as int]);
            }
            return false;
        }
        if !value_eq(&x[i].1, &y[i].1) {
            proof {
                assert(view_pairs(x@)[i as int] != view_pairs(y@)[i as int]);
            }
            return false;
        }
        i = i + 1;
    }
    proof {
        assert(view_pairs(x@) =~= view_pairs(y@));
    }
    true
}

/// Structural equality on value vectors.
pub fn list_items_eq(x: &Vec<ScriptValue>, y: &Vec<ScriptValue>) -> (r: bool)
    ensures
        r == (view_items(x@) == view_items(y@)),
    decreases x@,
{
    proof {
        lemma_view_items(x@);
        lemma_view_items(y@);
    }
    if x.len() != y.len() {
        return false;
    }
    let mut i: usize = 0;
    while i < x.len()
        invariant
            0 <= i <= x@.len(),
            x@.len() == y@.len(),
            view_items(x@).len() == x@.len(),
            view_items(y@).len() == y@.len(),
            forall|k: int| 0 <= k < x@.len() ==> view_items(x@)[k] == view_value(x@[k]),
            forall|k: int| 0 <= k < y@.len() ==> view_items(y@)[k] == view_value(y@[k]),
            forall|k: int| 0 <= k < i ==> view_items(x@)[k] == view_items(y@)[k],
        decreases x@.len() - i,
    {
        if !value_eq(&x[i], &y[i]) {
            proof {
                assert(view_items(x@)[i as int] != view_items(y@)[i as int]);
            }
            return false;
        }
        i = i + 1;
    }
    proof {
        assert(view_items(x@) =~= view_items(y@));
    }
    true
}

/// Structural equality of two values, except that `Scope` values compare by
/// scope identifier alone.
pub fn value_eq(a: &ScriptValue, b: &ScriptValue) -> (r: bool)
    ensures
        r == (view_value(*a) == view_value(*b)),
    decreases *a,
{
    match (a, b) {
        (ScriptValue::Bool(x), ScriptValue::Bool(y)) => *x == *y,
        (ScriptValue::Integer(x), ScriptValue::Integer(y)) => *x == *y,
        (ScriptValue::Str(x), ScriptValue::Str(y)) => *x == *y,
        (ScriptValue::Dict(xp), ScriptValue::Dict(yp)) => dict_pairs_eq(xp, yp),
        (ScriptValue::List(xs), ScriptValue::List(ys)) => list_items_eq(xs, ys),
        (ScriptValue::Scope(xi, _, _), ScriptValue::Scope(yi, _, _)) => xi.0 == yi.0,
        _ => false,
    }
}

/// Two `Scope` values naming the same scope identifier are equal, whatever
/// graph and context references they carry: the references are excluded
/// from the value's mathematical shape, which `==` compares.
pub proof fn lemma_scope_eq_ignores_refs(
    id: ScopeId,
    g1: SGraphRef,
    c1: ScriptEvalCtx,
    g2: SGraphRef,
    c2: ScriptEvalCtx,
)
    ensures
        view_value(ScriptValue::Scope(id, g1, c1)) == view_value(ScriptValue::Scope(id, g2, c2)),
{
}

impl PartialEq for ScriptValue {
    fn eq(&self, other: &ScriptValue) -> (r: bool) {
        value_eq(self, other)
    }
}

impl vstd::std_specs::cmp::PartialEqSpecImpl for ScriptValue {
    open spec fn obeys_eq_spec() -> bool {
        true
    }

    open spec fn eq_spec(&self, other: &ScriptValue) -> bool {
        view_value(*self) == view_value(*other)
    }
}

impl Eq for ScriptValue {

}

impl ScriptValue {
    /// Narrow to `Bool`; any other shape is an `InvalidType` error carrying
    /// the mismatched value.
    pub fn try_into_bool(self) -> (r: Result<bool, ScriptError>)
        ensures
            (self matches ScriptValue::Bool(b) ==> r == Ok::<bool, ScriptError>(b)),
            (!(self matches ScriptValue::Bool(_)) ==> (r matches Err(e) && e matches
                ScriptError::InvalidType(k, v) && k@ == "bool"@ && v == self)),
    {
        match self {
            ScriptValue::Bool(b) => Ok(b),
            _ => Err(ScriptError::InvalidType(String::from_str("bool"), self)),
        }
    }

    /// Narrow to `Integer`.
    pub fn try_into_integer(self) -> (r: Result<i64, ScriptError>)
        ensures
            (self matches ScriptValue::Integer(i) ==> r == Ok::<i64, ScriptError>(i)),
            (!(self matches ScriptValue::Integer(_)) ==> (r matches Err(e) && e matches
                ScriptError::InvalidType(k, v) && k@ == "integer"@ && v == self)),
    {
        match self {
            ScriptValue::Integer(i) => Ok(i),
            _ => Err(ScriptError::InvalidType(String::from_str("integer"), self)),
        }
    }

    /// Narrow to `Str`.
    pub fn try_into_str(self) -> (r: Result<String, ScriptError>)
        ensures
            (r matches Ok(s) ==> self matches ScriptValue::Str(s2) && s == s2),
            (self matches ScriptValue::Str(_) ==> r is Ok),
            (!(self matches ScriptValue::Str(_)) ==> (r matches Err(e) && e matches
                ScriptError::InvalidType(k, v) && k@ == "string"@ && v == self)),
    {
        match self {
            ScriptValue::Str(s) => Ok(s),
            _ => Err(ScriptError::InvalidType(String::from_str("string"), self)),
        }
    }

    /// Narrow to `Dict`, yielding the sorted key/value pairs.
    pub fn try_into_dict(self) -> (r: Result<Vec<(String, ScriptValue)>, ScriptError>)
        ensures
            (r matches Ok(p) ==> self matches ScriptValue::Dict(p2) && p == p2),
            (self matches ScriptValue::Dict(_) ==> r is Ok),
            (!(self matches ScriptValue::Dict(_)) ==> (r matches Err(e) && e matches
                ScriptError::InvalidType(k, v) && k@ == "dict"@ && v == self)),
    {
        match self {
            ScriptValue::Dict(p) => Ok(p),
            _ => Err(ScriptError::InvalidType(String::from_str("dict"), self)),
        }
    }

    /// Narrow to `List`, yielding the elements.
    pub fn try_into_list(self) -> (r: Result<Vec<ScriptValue>, ScriptError>)
        ensures
            (r matches Ok(p) ==> self matches ScriptValue::List(p2) && p == p2),
            (self matches ScriptValue::List(_) ==> r is Ok),
            (!(self matches ScriptValue::List(_)) ==> (r matches Err(e) && e matches
                ScriptError::InvalidType(k, v) && k@ == "list"@ && v == self)),
    {
        match self {
            ScriptValue::List(p) => Ok(p),
            _ => Err(ScriptError::InvalidType(String::from_str("list"), self)),
        }
    }
}


impl From<bool> for ScriptValue {
    fn from(b: bool) -> (r: ScriptValue) {
        ScriptValue::Bool(b)
    }
}

impl vstd::std_specs::convert::FromSpecImpl<bool> for ScriptValue {
    open spec fn obeys_from_spec() -> bool {
        true
    }

    open spec fn from_spec(b: bool) -> ScriptValue {
        ScriptValue::Bool(b)
    }
}

impl From<i64> for ScriptValue {
    fn from(i: i64) -> (r: ScriptValue) {
        ScriptValue::Integer(i)
    }
}

impl vstd::std_specs::convert::FromSpecImpl<i64> for ScriptValue {
    open spec fn obeys_from_spec() -> bool {
        true
    }

    open spec fn from_spec(i: i64) -> ScriptValue {
        ScriptValue::Integer(i)
    }
}

impl From<String> for ScriptValue {
    fn from(s: String) -> (r: ScriptValue) {
        ScriptValue::Str(s)
    }
}

impl vstd::std_specs::convert::FromSpecImpl<String> for ScriptValue {
    open spec fn obeys_from_spec() -> bool {
        true
    }

    open spec fn from_spec(s: String) -> ScriptValue {
        ScriptValue::Str(s)
    }
}

impl From<Vec<ScriptValue>> for ScriptValue {
    fn from(items: Vec<ScriptValue>) -> (r: ScriptValue) {
        ScriptValue::List(items)
    }
}

impl vstd::std_specs::convert::FromSpecImpl<Vec<ScriptValue>> for ScriptValue {
    open spec fn obeys_from_spec() -> bool {
        true
    }

    open spec fn from_spec(items: Vec<ScriptValue>) -> ScriptValue {
        ScriptValue::List(items)
    }
}

impl From<ScriptValue> for ScriptQueryValue {
    fn from(v: ScriptValue) -> (r: ScriptQueryValue) {
        ScriptQueryValue::Simple(v)
    }
}

impl vstd::std_specs::convert::FromSpecImpl<ScriptValue> for ScriptQueryValue {
    open spec fn obeys_from_spec() -> bool {
        true
    }

    open spec fn from_spec(v: ScriptValue) -> ScriptQueryValue {
        ScriptQueryValue::Simple(v)
    }
}

impl From<SylvaNode> for ScriptQueryValue {
    fn from(n: SylvaNode) -> (r: ScriptQueryValue) {
        ScriptQueryValue::Node(n)
    }
}

impl vstd::std_specs::convert::FromSpecImpl<SylvaNode> for ScriptQueryValue {
    open spec fn obeys_from_spec() -> bool {
        true
    }

    open spec fn from_spec(n: SylvaNode) -> ScriptQueryValue {
        ScriptQueryValue::Node(n)
    }
}


pub open spec fn view_query_value(q: ScriptQueryValue) -> QueryVal {
    match q {
        ScriptQueryValue::Simple(v) => QueryVal::Simple(view_value(v)),
        ScriptQueryValue::Node(n) => QueryVal::Node(n),
    }
}

impl View for ScriptQueryValue {
    type V = QueryVal;

    open spec fn view(&self) -> QueryVal {
        view_query_value(*self)
    }
}

impl PartialEq for ScriptQueryValue {
    fn eq(&self, other: &ScriptQueryValue) -> (r: bool) {
        match (self, other) {
            (ScriptQueryValue::Simple(a), ScriptQueryValue::Simple(b)) => value_eq(a, b),
            (ScriptQueryValue::Node(a), ScriptQueryValue::Node(b)) => *a == *b,
            _ => false,
        }
    }
}

impl vstd::std_specs::cmp::PartialEqSpecImpl for ScriptQueryValue {
    open spec fn obeys_eq_spec() -> bool {
        true
    }

    open spec fn eq_spec(&self, other: &ScriptQueryValue) -> bool {
        view_query_value(*self) == view_query_value(*other)
    }
}

impl Eq for ScriptQueryValue {

}

/// Deep copy of dictionary pairs, preserving the mathematical shape.
pub fn clone_pairs(src: &Vec<(String, ScriptValue)>) -> (r: Vec<(String, ScriptValue)>)
    ensures
        view_pairs(r@) == view_pairs(src@),
    decreases src@,
{
    proof {
        lemma_view_pairs(src@);
    }
    let mut out: Vec<(String, ScriptValue)> = Vec::new();
    let mut j: usize = 0;
    while j < src.len()
        invariant
            0 <= j <= src@.len(),
            view_pairs(src@).len() == src@.len(),
            forall|i: int|
                0 <= i < src@.len() ==> view_pairs(src@)[i] == (src@[i].0@, view_value(
                    src@[i].1,
                )),
            out@.len() == j,
            forall|i: int|
                0 <= i < j ==> (out@[i].0@, view_value(out@[i].1)) == view_pairs(src@)[i],
        decreases src@.len() - j,
    {
        let k = src[j].0.clone();
        let v = clone_value(&src[j].1);
        out.push((k, v));
        j = j + 1;
    }
    proof {
        lemma_view_pairs(out@);
        assert(view_pairs(out@) =~= view_pairs(src@));
    }
    out
}

/// Deep copy of list items, preserving the mathematical shape.
pub fn clone_items(src: &Vec<ScriptValue>) -> (r: Vec<ScriptValue>)
    ensures
        view_items(r@) == view_items(src@),
    decreases src@,
{
    proof {
        lemma_view_items(src@);
    }
    let mut out: Vec<ScriptValue> = Vec::new();
    let mut j: usize = 0;
    while j < src.len()
        invariant
            0 <= j <= src@.len(),
            view_items(src@).len() == src@.len(),
            forall|i: int| 0 <= i < src@.len() ==> view_items(src@)[i] == view_value(src@[i]),
            out@.len() == j,
            forall|i: int| 0 <= i < j ==> view_value(out@[i]) == view_items(src@)[i],
        decreases src@.len() - j,
    {
        let v = clone_value(&src[j]);
        out.push(v);
        j = j + 1;
    }
    proof {
        lemma_view_items(out@);
        assert(view_items(out@) =~= view_items(src@));
    }
    out
}

/// Deep, value-preserving copy: the copy has the same mathematical shape,
/// so it compares equal to the original.
pub fn clone_value(v: &ScriptValue) -> (r: ScriptValue)
    ensures
        view_value(r) == view_value(*v),
    decreases *v,
{
    match v {
        ScriptValue::Bool(b) => ScriptValue::Bool(*b),
        ScriptValue::Integer(i) => ScriptValue::Integer(*i),
        ScriptValue::Str(s) => ScriptValue::Str(s.clone()),
        ScriptValue::Dict(pairs) => ScriptValue::Dict(clone_pairs(pairs)),
        ScriptValue::List(items) => ScriptValue::List(clone_items(items)),
        ScriptValue::Scope(id, g, c) => ScriptValue::Scope(*id, *g, *c),
    }
}

impl Clone for ScriptValue {
    /// Deep copy; the clone has the same mathematical shape as the
    /// original.
    fn clone(&self) -> (r: ScriptValue)
        ensures
            view_value(r) == view_value(*self),
    {
        clone_value(self)
    }
}

} // verus!
