//! The textual convention of aspect files.
//!
//! One source file may declare several aspects, each owning named rule
//! functions.  The convention: a top-level function named
//! `<aspect>__<rule>` — split at the first double underscore, both parts
//! non-empty — declares rule `<rule>` of aspect `<aspect>`.  Functions whose
//! names do not follow the convention are helpers and belong to no aspect.

use vstd::prelude::*;
use vstd::string::*;

verus! {

/// Index of the first double underscore at or after `i`, or -1.
pub open spec fn first_sep_from(s: Seq<char>, i: int) -> int
    decreases s.len() - i,
{
    if i + 1 >= s.len() {
        -1
    } else if s[i] == '_' && s[i + 1] == '_' {
        i
    } else {
        first_sep_from(s, i + 1)
    }
}

/// Split an aspect-qualified function name at the first double underscore;
/// `None` if there is none, or if the aspect or rule part would be empty.
pub open spec fn spec_split_aspect(s: Seq<char>) -> Option<(Seq<char>, Seq<char>)> {
    let i = first_sep_from(s, 0);
    if 1 <= i && i + 2 < s.len() {
        Some((s.take(i), s.skip(i + 2)))
    } else {
        None
    }
}

/// Split `name` into its aspect and rule parts, exactly as
/// `spec_split_aspect` describes.
pub fn split_aspect_name(name: &str) -> (r: Option<(String, String)>)
    ensures
        (r matches Some(p) ==> spec_split_aspect(name@) == Some((p.0@, p.1@))),
        (r is Some <==> spec_split_aspect(name@) is Some),
{
    let n: usize = name.unicode_len();
    let mut i: usize = 0;
    while n > 0 && i < n - 1
        invariant
            0 <= i <= n,
            n == name@.len(),
            first_sep_from(name@, 0) == first_sep_from(name@, i as int),
        decreases n - i,
    {
        let c1 = name.get_char(i);
        let c2 = name.get_char(i + 1);
        if c1 == '_' && c2 == '_' {
            proof {
                assert(first_sep_from(name@, i as int) == i as int);
            }
            if i >= 1 && i + 2 < n {
                let a = name.substring_char(0, i);
                let b = name.substring_char(i + 2, n);
                proof {
                    assert(a@ =~= name@.take(i as int));
                    assert(b@ =~= name@.skip(i as int + 2));
                }
                return Some((String::from_str(a), String::from_str(b)));
            } else {
                return None;
            }
        }
        i = i + 1;
    }
    proof {
        assert(first_sep_from(name@, i as int) == -1);
    }
    None
}

} // verus!
