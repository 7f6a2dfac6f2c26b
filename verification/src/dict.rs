//! Canonical dictionary operations.
//!
//! A `ScriptValue::Dict` keeps its pairs sorted by strictly increasing key,
//! so a dictionary has exactly one representation per key/value mapping and
//! structural equality coincides with mapping equality.  This module defines
//! insertion into that canonical form, its relation to the abstract `Map`,
//! and the proof that the insertion order of distinct keys does not matter.

use crate::strord::{lemma_lex_connex, lemma_lex_lt_asym, lemma_lex_trans, lex_lt, str_compare};
use crate::value::{
    lemma_view_pairs, sorted_keys, view_pairs, view_value, ScriptVal, ScriptValue,
};
use vstd::prelude::*;

verus! {

/// Insert `(k, v)` into a key-sorted pair sequence, keeping it sorted and
/// replacing the pair with key `k` if one is present.
pub open spec fn spec_dict_insert(
    s: Seq<(Seq<char>, ScriptVal)>,
    k: Seq<char>,
    v: ScriptVal,
) -> Seq<(Seq<char>, ScriptVal)>
    decreases s.len(),
{
    if s.len() == 0 {
        seq![(k, v)]
    } else if lex_lt(k, s[0].0) {
        seq![(k, v)] + s
    } else if k == s[0].0 {
        seq![(k, v)] + s.skip(1)
    } else {
        seq![s[0]] + spec_dict_insert(s.skip(1), k, v)
    }
}

/// The mapping a pair sequence stands for; earlier pairs win over later
/// duplicates (irrelevant once keys are unique).
pub open spec fn dict_map(s: Seq<(Seq<char>, ScriptVal)>) -> Map<Seq<char>, ScriptVal>
    decreases s.len(),
{
    if s.len() == 0 {
        Map::empty()
    } else {
        dict_map(s.skip(1)).insert(s[0].0, s[0].1)
    }
}

/// Build the canonical dictionary from pairs taken left to right, the last
/// occurrence of a key winning.
pub open spec fn spec_dict_from_pairs(s: Seq<(Seq<char>, ScriptVal)>) -> Seq<
    (Seq<char>, ScriptVal),
>
    decreases s.len(),
{
    if s.len() == 0 {
        Seq::empty()
    } else {
        spec_dict_insert(spec_dict_from_pairs(s.drop_last()), s.last().0, s.last().1)
    }
}

/// The mapping described by pairs taken left to right, last occurrence
/// winning.
pub open spec fn pairs_map(s: Seq<(Seq<char>, ScriptVal)>) -> Map<Seq<char>, ScriptVal>
    decreases s.len(),
{
    if s.len() == 0 {
        Map::empty()
    } else {
        pairs_map(s.drop_last()).insert(s.last().0, s.last().1)
    }
}

/// No two pairs share a key.
pub open spec fn distinct_keys(s: Seq<(Seq<char>, ScriptVal)>) -> bool {
    forall|i: int, j: int| 0 <= i < j < s.len() ==> s[i].0 != s[j].0
}

/// Sortedness passes to the tail.
pub proof fn lemma_sorted_skip(s: Seq<(Seq<char>, ScriptVal)>)
    requires
        sorted_keys(s),
        s.len() > 0,
    ensures
        sorted_keys(s.skip(1)),
{
    assert forall|i: int, j: int| 0 <= i < j < s.skip(1).len() implies lex_lt(
        s.skip(1)[i].0,
        s.skip(1)[j].0,
    ) by {
        assert(s.skip(1)[i] == s[i + 1]);
        assert(s.skip(1)[j] == s[j + 1]);
    }
}

/// Inserting into a sorted pair sequence keeps it sorted, updates the
/// abstract mapping, and introduces no pair besides `(k, v)`.
pub proof fn lemma_dict_insert(s: Seq<(Seq<char>, ScriptVal)>, k: Seq<char>, v: ScriptVal)
    requires
        sorted_keys(s),
    ensures
        sorted_keys(spec_dict_insert(s, k, v)),
        dict_map(spec_dict_insert(s, k, v)) == dict_map(s).insert(k, v),
        forall|i: int|
            0 <= i < spec_dict_insert(s, k, v).len() ==> (spec_dict_insert(s, k, v)[i] == (k, v)
                || s.contains(spec_dict_insert(s, k, v)[i])),
    decreases s.len(),
{
    let res = spec_dict_insert(s, k, v);
    if s.len() == 0 {
        assert(res == seq![(k, v)]);
        assert(res[0] == (k, v));
        assert(dict_map(res) == dict_map(res.skip(1)).insert(k, v));
        assert(res.skip(1) =~= Seq::<(Seq<char>, ScriptVal)>::empty());
        assert(dict_map(res) =~= dict_map(s).insert(k, v));
    } else if lex_lt(k, s[0].0) {
        assert(res == seq![(k, v)] + s);
        assert forall|i: int, j: int| 0 <= i < j < res.len() implies lex_lt(
            res[i].0,
            res[j].0,
        ) by {
            if i == 0 {
                if j == 1 {
                } else {
                    lemma_lex_trans(k, s[0].0, s[j - 1].0);
                }
            }
        }
        assert(res.skip(1) =~= s);
        assert(dict_map(res) =~= dict_map(s).insert(k, v));
    } else if k == s[0].0 {
        assert(res == seq![(k, v)] + s.skip(1));
        assert forall|i: int, j: int| 0 <= i < j < res.len() implies lex_lt(
            res[i].0,
            res[j].0,
        ) by {
            if i > 0 {
                assert(res[i] == s[i]);
                assert(res[j] == s[j]);
            } else {
                assert(res[j] == s[j]);
            }
        }
        assert(res.skip(1) =~= s.skip(1));
        lemma_sorted_skip(s);
        assert(sorted_keys(s.skip(1)));
        assert(dict_map(res) == dict_map(s.skip(1)).insert(k, v));
        assert(dict_map(s) == dict_map(s.skip(1)).insert(s[0].0, s[0].1));
        assert(dict_map(res) =~= dict_map(s).insert(k, v));
        assert forall|i: int| 0 <= i < res.len() implies (res[i] == (k, v) || s.contains(
            res[i],
        )) by {
            if i > 0 {
                assert(res[i] == s[i]);
            }
        }
    } else {
        lemma_lex_connex(k, s[0].0);
        assert(lex_lt(s[0].0, k));
        let tail = s.skip(1);
        lemma_sorted_skip(s);
        assert(sorted_keys(s.skip(1)));
        lemma_dict_insert(tail, k, v);
        let rtail = spec_dict_insert(tail, k, v);
        assert(res == seq![s[0]] + rtail);
        assert forall|i: int, j: int| 0 <= i < j < res.len() implies lex_lt(
            res[i].0,
            res[j].0,
        ) by {
            if i == 0 {
                assert(res[j] == rtail[j - 1]);
                if rtail[j - 1] == (k, v) {
                } else {
                    assert(tail.contains(rtail[j - 1]));
                    let w = choose|w: int| 0 <= w < tail.len() && tail[w] == rtail[j - 1];
                    assert(tail[w] == s[w + 1]);
                    assert(lex_lt(s[0].0, s[w + 1].0));
                }
            } else {
                assert(res[i] == rtail[i - 1]);
                assert(res[j] == rtail[j - 1]);
            }
        }
        // mapping: order of the two inserts can be swapped since keys differ
        assert(res.skip(1) =~= rtail);
        assert(dict_map(res) == dict_map(rtail).insert(s[0].0, s[0].1));
        assert(dict_map(rtail) == dict_map(tail).insert(k, v));
        assert(dict_map(s) == dict_map(tail).insert(s[0].0, s[0].1));
        assert(k != s[0].0);
        assert(dict_map(tail).insert(k, v).insert(s[0].0, s[0].1) =~= dict_map(tail).insert(
            s[0].0,
            s[0].1,
        ).insert(k, v));
        assert forall|i: int| 0 <= i < res.len() implies (res[i] == (k, v) || s.contains(
            res[i],
        )) by {
            if i == 0 {
                assert(s.contains(s[0]));
            } else {
                assert(res[i] == rtail[i - 1]);
                if rtail[i - 1] == (k, v) {
                } else {
                    assert(tail.contains(rtail[i - 1]));
                    let w = choose|w: int| 0 <= w < tail.len() && tail[w] == rtail[i - 1];
                    assert(tail[w] == s[w + 1]);
                    assert(s.contains(s[w + 1]));
                }
            }
        }
    }
}

/// In a sorted pair sequence, the abstract mapping holds exactly the keys of
/// the pairs and maps each to its value.
pub proof fn lemma_dict_map_sorted(s: Seq<(Seq<char>, ScriptVal)>)
    requires
        sorted_keys(s),
    ensures
        forall|x: Seq<char>|
            dict_map(s).contains_key(x) <==> (exists|i: int| 0 <= i < s.len() && s[i].0 == x),
        forall|i: int| 0 <= i < s.len() ==> dict_map(s)[s[i].0] == s[i].1,
    decreases s.len(),
{
    if s.len() > 0 {
        let tail = s.skip(1);
        lemma_sorted_skip(s);
        assert(sorted_keys(s.skip(1)));
        lemma_dict_map_sorted(tail);
        assert(dict_map(s) == dict_map(tail).insert(s[0].0, s[0].1));
        assert forall|x: Seq<char>| dict_map(s).contains_key(x) implies (exists|i: int|
            0 <= i < s.len() && s[i].0 == x) by {
            if x == s[0].0 {
                assert(0 <= 0 < s.len() && s[0].0 == x);
            } else {
                assert(dict_map(tail).contains_key(x));
                let w = choose|w: int| 0 <= w < tail.len() && tail[w].0 == x;
                assert(tail[w] == s[w + 1]);
                assert(0 <= w + 1 < s.len() && s[w + 1].0 == x);
            }
        }
        assert forall|x: Seq<char>| (exists|i: int| 0 <= i < s.len() && s[i].0 == x) implies
            dict_map(s).contains_key(x) by {
            let i = choose|i: int| 0 <= i < s.len() && s[i].0 == x;
            if i > 0 {
                assert(tail[i - 1] == s[i]);
                assert(0 <= i - 1 < tail.len() && tail[i - 1].0 == x);
                assert(dict_map(tail).contains_key(x));
            }
        }
        assert forall|i: int| 0 <= i < s.len() implies dict_map(s)[s[i].0] == s[i].1 by {
            if i > 0 {
                assert(lex_lt(s[0].0, s[i].0));
                lemma_lex_lt_asym(s[0].0, s[i].0);
                assert(s[i].0 != s[0].0);
                assert(tail[i - 1] == s[i]);
                assert(dict_map(tail)[tail[i - 1].0] == tail[i - 1].1);
            }
        }
    }
}

/// A mapping has exactly one sorted pair-sequence representation.
pub proof fn lemma_dict_canonical(d1: Seq<(Seq<char>, ScriptVal)>, d2: Seq<(Seq<char>, ScriptVal)>)
    requires
        sorted_keys(d1),
        sorted_keys(d2),
        dict_map(d1) == dict_map(d2),
    ensures
        d1 == d2,
    decreases d1.len(),
{
    lemma_dict_map_sorted(d1);
    lemma_dict_map_sorted(d2);
    if d1.len() == 0 {
        if d2.len() > 0 {
            assert(dict_map(d2).contains_key(d2[0].0));
            assert(false);
        }
        assert(d1 =~= d2);
    } else if d2.len() == 0 {
        assert(dict_map(d1).contains_key(d1[0].0));
        assert(false);
    } else {
        // the heads carry the same (minimal) key
        assert(d1[0].0 == d2[0].0) by {
            if d1[0].0 != d2[0].0 {
                assert(dict_map(d2).contains_key(d1[0].0));
                let i = choose|i: int| 0 <= i < d2.len() && d2[i].0 == d1[0].0;
                assert(i > 0);
                assert(lex_lt(d2[0].0, d1[0].0));
                assert(dict_map(d1).contains_key(d2[0].0));
                let j = choose|j: int| 0 <= j < d1.len() && d1[j].0 == d2[0].0;
                assert(j > 0);
                assert(lex_lt(d1[0].0, d2[0].0));
                lemma_lex_lt_asym(d1[0].0, d2[0].0);
                assert(false);
            }
        }
        assert(d1[0].1 == d2[0].1) by {
            assert(dict_map(d1)[d1[0].0] == d1[0].1);
            assert(dict_map(d2)[d2[0].0] == d2[0].1);
        }
        let t1 = d1.skip(1);
        let t2 = d2.skip(1);
        lemma_sorted_skip(d1);
        assert(sorted_keys(d1.skip(1)));
        lemma_sorted_skip(d2);
        assert(sorted_keys(d2.skip(1)));
        lemma_dict_map_sorted(t1);
        lemma_dict_map_sorted(t2);
        // the head key occurs in neither tail
        assert(!dict_map(t1).contains_key(d1[0].0)) by {
            if dict_map(t1).contains_key(d1[0].0) {
                let i = choose|i: int| 0 <= i < t1.len() && t1[i].0 == d1[0].0;
                assert(t1[i] == d1[i + 1]);
                assert(lex_lt(d1[0].0, d1[i + 1].0));
                lemma_lex_lt_asym(d1[0].0, d1[i + 1].0);
                assert(false);
            }
        }
        assert(!dict_map(t2).contains_key(d2[0].0)) by {
            if dict_map(t2).contains_key(d2[0].0) {
                let i = choose|i: int| 0 <= i < t2.len() && t2[i].0 == d2[0].0;
                assert(t2[i] == d2[i + 1]);
                assert(lex_lt(d2[0].0, d2[i + 1].0));
                lemma_lex_lt_asym(d2[0].0, d2[i + 1].0);
                assert(false);
            }
        }
        assert(dict_map(t1) =~= dict_map(t2)) by {
            assert forall|x: Seq<char>|
                dict_map(t1).contains_key(x) == dict_map(t2).contains_key(x) by {
                if x == d1[0].0 {
                } else {
                    assert(dict_map(t1).contains_key(x) == dict_map(d1).contains_key(x));
                    assert(dict_map(t2).contains_key(x) == dict_map(d2).contains_key(x));
                }
            }
            assert forall|x: Seq<char>|
                dict_map(t1).contains_key(x) implies dict_map(t1)[x] == dict_map(t2)[x] by {
                assert(x != d1[0].0);
                assert(dict_map(d1)[x] == dict_map(t1)[x]);
                assert(dict_map(d2)[x] == dict_map(t2)[x]);
            }
        }
        lemma_dict_canonical(t1, t2);
        assert(d1.len() == d2.len());
        assert forall|i: int| 0 <= i < d1.len() implies d1[i] == d2[i] by {
            if i == 0 {
                assert(d1[0].0 == d2[0].0 && d1[0].1 == d2[0].1);
            } else {
                assert(t1[i - 1] == d1[i]);
                assert(t2[i - 1] == d2[i]);
                assert(t1[i - 1] == t2[i - 1]);
            }
        }
        assert(d1 =~= d2);
    }
}

/// `spec_dict_from_pairs` yields a sorted sequence standing for the mapping
/// of its input pairs.
pub proof fn lemma_dict_from_pairs(s: Seq<(Seq<char>, ScriptVal)>)
    ensures
        sorted_keys(spec_dict_from_pairs(s)),
        dict_map(spec_dict_from_pairs(s)) == pairs_map(s),
    decreases s.len(),
{
    if s.len() > 0 {
        lemma_dict_from_pairs(s.drop_last());
        lemma_dict_insert(spec_dict_from_pairs(s.drop_last()), s.last().0, s.last().1);
    }
}

/// In a pair sequence with pairwise distinct keys, the left-to-right mapping
/// holds exactly the listed pairs.
pub proof fn lemma_pairs_map_distinct(s: Seq<(Seq<char>, ScriptVal)>)
    requires
        distinct_keys(s),
    ensures
        forall|x: Seq<char>|
            pairs_map(s).contains_key(x) <==> (exists|i: int| 0 <= i < s.len() && s[i].0 == x),
        forall|i: int| 0 <= i < s.len() ==> pairs_map(s)[s[i].0] == s[i].1,
    decreases s.len(),
{
    if s.len() > 0 {
        let front = s.drop_last();
        assert(distinct_keys(front)) by {
            assert forall|i: int, j: int| 0 <= i < j < front.len() implies front[i].0
                != front[j].0 by {
                assert(front[i] == s[i]);
                assert(front[j] == s[j]);
            }
        }
        lemma_pairs_map_distinct(front);
        let n = s.len() - 1;
        assert(pairs_map(s) == pairs_map(front).insert(s.last().0, s.last().1));
        assert(s.last() == s[n]);
        assert forall|x: Seq<char>| pairs_map(s).contains_key(x) implies (exists|i: int|
            0 <= i < s.len() && s[i].0 == x) by {
            if x == s.last().0 {
                assert(0 <= n < s.len() && s[n].0 == x);
            } else {
                assert(pairs_map(front).contains_key(x));
                let w = choose|w: int| 0 <= w < front.len() && front[w].0 == x;
                assert(front[w] == s[w]);
                assert(0 <= w < s.len() && s[w].0 == x);
            }
        }
        assert forall|x: Seq<char>| (exists|i: int| 0 <= i < s.len() && s[i].0 == x) implies
            pairs_map(s).contains_key(x) by {
            let i = choose|i: int| 0 <= i < s.len() && s[i].0 == x;
            if i < n {
                assert(front[i] == s[i]);
                assert(0 <= i < front.len() && front[i].0 == x);
                assert(pairs_map(front).contains_key(x));
            }
        }
        assert forall|i: int| 0 <= i < s.len() implies pairs_map(s)[s[i].0] == s[i].1 by {
            if i < n {
                assert(s[i].0 != s[n].0);
                assert(front[i] == s[i]);
                assert(pairs_map(front)[front[i].0] == front[i].1);
            }
        }
    }
}

/// Two pair sequences with distinct keys that list the same pairs (in any
/// order) build the same canonical dictionary: insertion order is
/// irrelevant, as for a mapping.
pub proof fn lemma_dict_insertion_order_irrelevant(
    p1: Seq<(Seq<char>, ScriptVal)>,
    p2: Seq<(Seq<char>, ScriptVal)>,
)
    requires
        distinct_keys(p1),
        distinct_keys(p2),
        forall|pr: (Seq<char>, ScriptVal)| p1.contains(pr) <==> p2.contains(pr),
    ensures
        spec_dict_from_pairs(p1) == spec_dict_from_pairs(p2),
{
    lemma_dict_from_pairs(p1);
    lemma_dict_from_pairs(p2);
    lemma_pairs_map_distinct(p1);
    lemma_pairs_map_distinct(p2);
    assert(pairs_map(p1) =~= pairs_map(p2)) by {
        assert forall|x: Seq<char>|
            pairs_map(p1).contains_key(x) == pairs_map(p2).contains_key(x) by {
            if exists|i: int| 0 <= i < p1.len() && p1[i].0 == x {
                let i = choose|i: int| 0 <= i < p1.len() && p1[i].0 == x;
                assert(p1.contains(p1[i]));
                assert(p2.contains(p1[i]));
                let j = choose|j: int| 0 <= j < p2.len() && p2[j] == p1[i];
                assert(p2[j].0 == x);
            }
            if exists|i: int| 0 <= i < p2.len() && p2[i].0 == x {
                let i = choose|i: int| 0 <= i < p2.len() && p2[i].0 == x;
                assert(p2.contains(p2[i]));
                assert(p1.contains(p2[i]));
                let j = choose|j: int| 0 <= j < p1.len() && p1[j] == p2[i];
                assert(p1[j].0 == x);
            }
        }
        assert forall|x: Seq<char>| pairs_map(p1).contains_key(x) implies pairs_map(p1)[x]
            == pairs_map(p2)[x] by {
            let i = choose|i: int| 0 <= i < p1.len() && p1[i].0 == x;
            assert(p1.contains(p1[i]));
            assert(p2.contains(p1[i]));
            let j = choose|j: int| 0 <= j < p2.len() && p2[j] == p1[i];
            assert(pairs_map(p2)[p2[j].0] == p2[j].1);
        }
    }
    lemma_dict_canonical(spec_dict_from_pairs(p1), spec_dict_from_pairs(p2));
}

/// Describe `spec_dict_insert` at the position an iterative search finds:
/// replacement if the key is already there, insertion otherwise.
pub proof fn lemma_insert_at(s: Seq<(Seq<char>, ScriptVal)>, k: Seq<char>, v: ScriptVal, idx: int)
    requires
        0 <= idx <= s.len(),
        forall|i: int| 0 <= i < idx ==> lex_lt(s[i].0, k),
        idx < s.len() ==> !lex_lt(s[idx].0, k),
    ensures
        (idx < s.len() && s[idx].0 == k) ==> spec_dict_insert(s, k, v) == s.update(idx, (k, v)),
        !(idx < s.len() && s[idx].0 == k) ==> spec_dict_insert(s, k, v) == s.subrange(0, idx)
            + seq![(k, v)] + s.subrange(idx, s.len() as int),
    decreases idx,
{
    if idx == 0 {
        if s.len() == 0 {
            assert(spec_dict_insert(s, k, v) =~= s.subrange(0, 0) + seq![(k, v)] + s.subrange(
                0,
                0,
            ));
        } else if s[0].0 == k {
            lemma_lex_lt_asym(k, s[0].0);
            assert(spec_dict_insert(s, k, v) == seq![(k, v)] + s.skip(1));
            assert(spec_dict_insert(s, k, v) =~= s.update(0, (k, v)));
        } else {
            lemma_lex_connex(k, s[0].0);
            assert(lex_lt(k, s[0].0));
            assert(spec_dict_insert(s, k, v) == seq![(k, v)] + s);
            assert(spec_dict_insert(s, k, v) =~= s.subrange(0, 0) + seq![(k, v)] + s.subrange(
                0,
                s.len() as int,
            ));
        }
    } else {
        assert(lex_lt(s[0].0, k));
        lemma_lex_lt_asym(s[0].0, k);
        assert(!lex_lt(k, s[0].0));
        assert(k != s[0].0);
        let tail = s.skip(1);
        assert forall|i: int| 0 <= i < idx - 1 implies lex_lt(tail[i].0, k) by {
            assert(tail[i] == s[i + 1]);
        }
        if idx - 1 < tail.len() {
            assert(tail[idx - 1] == s[idx]);
        }
        lemma_insert_at(tail, k, v, idx - 1);
        assert(spec_dict_insert(s, k, v) == seq![s[0]] + spec_dict_insert(tail, k, v));
        if idx < s.len() && s[idx].0 == k {
            assert(spec_dict_insert(tail, k, v) == tail.update(idx - 1, (k, v)));
            assert(seq![s[0]] + tail.update(idx - 1, (k, v)) =~= s.update(idx, (k, v)));
        } else {
            assert(spec_dict_insert(tail, k, v) == tail.subrange(0, idx - 1) + seq![(k, v)]
                + tail.subrange(idx - 1, tail.len() as int));
            assert(seq![s[0]] + (tail.subrange(0, idx - 1) + seq![(k, v)] + tail.subrange(
                idx - 1,
                tail.len() as int,
            )) =~= s.subrange(0, idx) + seq![(k, v)] + s.subrange(idx, s.len() as int));
        }
    }
}

/// Insert `(key, value)` into canonical dictionary pairs, keeping the
/// canonical form and updating the mapping.
pub fn dict_insert(pairs: &mut Vec<(String, ScriptValue)>, key: String, value: ScriptValue)
    ensures
        view_pairs(final(pairs)@) == spec_dict_insert(
            view_pairs(old(pairs)@),
            key@,
            view_value(value),
        ),
{
    proof {
        lemma_view_pairs(pairs@);
    }
    let ghost s0 = view_pairs(old(pairs)@);
    let mut idx: usize = 0;
    while idx < pairs.len() && str_compare(pairs[idx].0.as_str(), key.as_str()) == -1
        invariant
            *pairs == *old(pairs),
            0 <= idx <= pairs@.len(),
            s0 == view_pairs(pairs@),
            s0.len() == pairs@.len(),
            forall|i: int| 0 <= i < pairs@.len() ==> s0[i] == (pairs@[i].0@, view_value(
                pairs@[i].1,
            )),
            forall|i: int| 0 <= i < idx ==> lex_lt(s0[i].0, key@),
        decreases pairs@.len() - idx,
    {
        idx = idx + 1;
    }
    let found: bool = idx < pairs.len() && str_compare(pairs[idx].0.as_str(), key.as_str()) == 0;
    proof {
        lemma_insert_at(s0, key@, view_value(value), idx as int);
    }
    if found {
        let _replaced = pairs.remove(idx);
        pairs.insert(idx, (key, value));
        proof {
            lemma_view_pairs(pairs@);
            assert(pairs@ =~= old(pairs)@.update(idx as int, pairs@[idx as int]));
            assert(view_pairs(pairs@) =~= s0.update(idx as int, (key@, view_value(value))));
        }
    } else {
        pairs.insert(idx, (key, value));
        proof {
            lemma_view_pairs(pairs@);
            assert(view_pairs(pairs@) =~= s0.subrange(0, idx as int) + seq![
                (key@, view_value(value)),
            ] + s0.subrange(idx as int, s0.len() as int));
        }
    }
}

/// Build a canonical dictionary value from key/value pairs taken left to
/// right; on duplicate keys the last pair wins.
pub fn dict_from_pairs(src: Vec<(String, ScriptValue)>) -> (r: ScriptValue)
    ensures
        view_value(r) == ScriptVal::Dict(spec_dict_from_pairs(view_pairs(src@))),
{
    let mut src = src;
    let ghost orig = src@;
    let n0: usize = src.len();
    proof {
        assert(orig.len() == n0);
    }
    let mut acc: Vec<(String, ScriptValue)> = Vec::new();
    let mut j: usize = 0;
    proof {
        assert(src@ =~= orig.subrange(0, orig.len() as int));
        assert(orig.subrange(0, 0) =~= Seq::<(String, ScriptValue)>::empty());
        assert(view_pairs(orig.subrange(0, 0)) =~= Seq::<(Seq<char>, ScriptVal)>::empty());
    }
    while src.len() > 0
        invariant
            0 <= j <= orig.len(),
            orig.len() <= usize::MAX,
            src@ == orig.subrange(j as int, orig.len() as int),
            src@.len() == orig.len() - j,
            view_pairs(acc@) == spec_dict_from_pairs(view_pairs(orig.subrange(0, j as int))),
        decreases src@.len(),
    {
        let pr = src.remove(0);
        proof {
            assert(pr == orig[j as int]);
        }
        dict_insert(&mut acc, pr.0, pr.1);
        proof {
            let prev = orig.subrange(0, j as int);
            let cur = orig.subrange(0, j as int + 1);
            lemma_view_pairs(prev);
            lemma_view_pairs(cur);
            assert(cur.drop_last() =~= prev);
            assert(cur.last() == orig[j as int]);
            assert(view_pairs(cur).drop_last() =~= view_pairs(prev));
            assert(view_pairs(cur).last() == (orig[j as int].0@, view_value(orig[j as int].1)));
            assert(spec_dict_from_pairs(view_pairs(cur)) == spec_dict_insert(
                spec_dict_from_pairs(view_pairs(cur).drop_last()),
                view_pairs(cur).last().0,
                view_pairs(cur).last().1,
            ));
            assert(src@ =~= orig.subrange(j as int + 1, orig.len() as int));
        }
        j = j + 1;
    }
    proof {
        assert(orig.subrange(0, j as int) =~= orig);
    }
    ScriptValue::Dict(acc)
}

} // verus!
