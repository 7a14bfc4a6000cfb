//! Fuzzy matching of package names against what the user typed.

use vstd::prelude::*;
use crate::adb::strings_view;
use crate::text::{ascii_lower_seq, ascii_lower_vec, chars_of};

verus! {

/// `q` is a subsequence of `n`: its characters appear in `n` in order,
/// not necessarily next to each other.
pub open spec fn is_subsequence(q: Seq<char>, n: Seq<char>) -> bool
    decreases n.len(),
{
    if q.len() == 0 {
        true
    } else if n.len() == 0 {
        false
    } else if q[0] == n[0] {
        is_subsequence(q.drop_first(), n.drop_first())
    } else {
        is_subsequence(q, n.drop_first())
    }
}

/// `name` matches `query` when the query, ignoring ASCII case, is a
/// subsequence of the name; the empty query matches everything.
pub open spec fn fuzzy_match(name: Seq<char>, query: Seq<char>) -> bool {
    query.len() == 0 || is_subsequence(ascii_lower_seq(query), ascii_lower_seq(name))
}

pub proof fn lemma_subsequence_empty(n: Seq<char>)
    ensures
        is_subsequence(Seq::empty(), n),
{
}

pub fn fuzzy_matches(name: &str, query: &str) -> (b: bool)
    ensures
        b == fuzzy_match(name@, query@),
{
    let qv = chars_of(query);
    if qv.len() == 0 {
        return true;
    }
    let nv = chars_of(name);
    let n = ascii_lower_vec(nv.as_slice());
    let q = ascii_lower_vec(qv.as_slice());
    let mut j: usize = 0;
    let mut i: usize = 0;
    proof {
        assert(q@.skip(0) =~= q@);
        assert(n@.skip(0) =~= n@);
    }
    while i < n.len()
        invariant
            i <= n@.len(),
            j <= q@.len(),
            is_subsequence(q@, n@) == is_subsequence(q@.skip(j as int), n@.skip(i as int)),
        decreases n@.len() - i,
    {
        let ghost qs = q@.skip(j as int);
        let ghost ns = n@.skip(i as int);
        proof {
            assert(ns.drop_first() =~= n@.skip(i + 1));
            assert(ns[0] == n@[i as int]);
        }
        if j < q.len() && q[j] == n[i] {
            proof {
                assert(qs.drop_first() =~= q@.skip(j + 1));
                assert(qs[0] == q@[j as int]);
            }
            j = j + 1;
        } else if j == q.len() {
            proof {
                assert(qs.len() == 0);
                assert(q@.skip(j as int).len() == 0);
            }
        }
        i = i + 1;
    }
    proof {
        assert(n@.skip(i as int).len() == 0);
    }
    j == q.len()
}

/// The names in `names` that match `query`, in order.
pub open spec fn matching_names(names: Seq<Seq<char>>, query: Seq<char>) -> Seq<Seq<char>>
    decreases names.len(),
{
    if names.len() == 0 {
        Seq::empty()
    } else if fuzzy_match(names.last(), query) {
        matching_names(names.drop_last(), query).push(names.last())
    } else {
        matching_names(names.drop_last(), query)
    }
}

pub open spec fn strs_view(v: Seq<&str>) -> Seq<Seq<char>> {
    v.map_values(|s: &str| s@)
}

pub fn filtered_packages<'a>(packages: &'a [String], query: &str) -> (r: Vec<&'a str>)
    ensures
        strs_view(r@) == matching_names(strings_view(packages@), query@),
{
    let mut r: Vec<&'a str> = Vec::new();
    let mut i: usize = 0;
    while i < packages.len()
        invariant
            i <= packages@.len(),
            strs_view(r@) == matching_names(strings_view(packages@).take(i as int), query@),
        decreases packages@.len() - i,
    {
        let ghost t = strings_view(packages@).take(i + 1);
        proof {
            assert(t.drop_last() =~= strings_view(packages@).take(i as int));
            assert(t.last() == packages@[i as int]@);
        }
        if fuzzy_matches(packages[i].as_str(), query) {
            let ghost before = strs_view(r@);
            r.push(packages[i].as_str());
            proof {
                assert(strs_view(r@) =~= before.push(packages@[i as int]@));
            }
        }
        i = i + 1;
    }
    proof {
        assert(strings_view(packages@).take(i as int) =~= strings_view(packages@));
    }
    r
}

} // verus!
